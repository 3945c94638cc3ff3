//! The chat log on the card. Each message is one record: sixteen hexadecimal
//! digits of a key, a bar, and the line as it is shown. The keys make a
//! message that is replayed known again after a restart; zero is no key. The
//! last records become the receive tab's backlog, and a log that has grown too
//! large is cut down to that backlog.
use vstd::prelude::*;
use vstd::string::*;
use vstd::utf8::*;

use crate::lines::{
    find_char, lemma_find_char, lemma_lines_concat, split_lines, text_lines, whole_lines,
    without_return,
};
use crate::text::{
    all_digits, chars_of, digit, digit_value, from_utf8_lossy, hex, lossy_text, numeral_value,
    parse_numeral, push_hex, string_of,
};

verus! {

/// How many messages the receive tab keeps.
pub const RECV_MAX: usize = 120;

/// The size past which a log is cut down, in bytes.
pub const MAX_BYTES: u64 = 131_072;

/// A message with its key.
pub struct Record {
    pub key: u64,
    pub line: Seq<char>,
}

/// Whether a line begins with a key: sixteen hexadecimal digits and a bar.
pub open spec fn keyed(s: Seq<char>) -> bool {
    s.len() > 16 && s[16] == '|' && all_digits(s.take(16), 16)
}

/// The record that a line is. One without a key in front is all line.
pub open spec fn record_of(s: Seq<char>) -> Record {
    if keyed(s) {
        Record { key: numeral_value(s.take(16), 16) as u64, line: s.skip(17) }
    } else {
        Record { key: 0, line: s }
    }
}

/// The key of a message: its origin and its number there, side by side.
pub open spec fn key_of_message(origin: int, msg_id: int) -> int {
    origin * 0x1_0000_0000 + msg_id
}

/// The key of a message, from its origin and its number there.
pub fn message_key(origin: u32, msg_id: u32) -> (r: u64)
    ensures
        r == key_of_message(origin as int, msg_id as int),
{
    origin as u64 * 0x1_0000_0000 + msg_id as u64
}

/// No two messages have the same key.
pub proof fn law_messages_have_their_own_keys(a: u32, b: u32, c: u32, d: u32)
    ensures
        key_of_message(a as int, b as int) == key_of_message(c as int, d as int) ==> a == c && b
            == d,
{
}

/// The records of a log.
pub open spec fn records_of(s: Seq<char>) -> Seq<Record> {
    Seq::new(text_lines(s, 0).len(), |i: int| record_of(text_lines(s, 0)[i]))
}

/// The last `n` of a list.
pub open spec fn last_of<A>(s: Seq<A>, n: int) -> Seq<A> {
    if s.len() <= n {
        s
    } else {
        s.skip(s.len() - n)
    }
}

/// The text of a record.
pub open spec fn record_text(key: u64, line: Seq<char>) -> Seq<char> {
    hex(key as int, 16).push('|') + line.push('\n')
}

/// The text of a whole log.
pub open spec fn log_text(log: Seq<Record>) -> Seq<char>
    decreases log.len(),
{
    if log.len() == 0 {
        seq![]
    } else {
        log_text(log.drop_last()) + record_text(log.last().key, log.last().line)
    }
}

/// Keys and lines, side by side, as records.
pub open spec fn zipped(keys: Seq<u64>, lines: Seq<String>) -> Seq<Record> {
    Seq::new(
        if keys.len() <= lines.len() {
            keys.len()
        } else {
            lines.len()
        },
        |i: int| Record { key: keys[i], line: lines[i]@ },
    )
}

/// A log that was read: keys and lines side by side, and its size in bytes.
pub struct Loaded {
    pub keys: Vec<u64>,
    pub lines: Vec<String>,
    pub size: u64,
}

impl Loaded {
    /// The records that were read.
    pub open spec fn records(&self) -> Seq<Record> {
        zipped(self.keys@, self.lines@)
    }

    /// A log that is not there or cannot be read.
    pub fn nothing() -> (r: Self)
        ensures
            r.records() == Seq::<Record>::empty(),
            r.keys@.len() == 0,
            r.lines@.len() == 0,
            r.size == 0,
    {
        Loaded { keys: Vec::new(), lines: Vec::new(), size: 0 }
    }
}

/// Reads one record off the characters from `from` up to `to`.
fn read_record(chars: &[char], from: usize, to: usize) -> (r: (u64, String))
    requires
        from <= to <= chars@.len(),
    ensures
        r.0 == record_of(chars@.subrange(from as int, to as int)).key,
        r.1@ == record_of(chars@.subrange(from as int, to as int)).line,
{
    let ghost s = chars@.subrange(from as int, to as int);
    if to - from > 16 && chars[from + 16] == '|' && chars[from] != '+' {
        assert(s[16] == '|');
        assert(s[0] != '+');
        assert(chars@.subrange(from as int, from + 16) =~= s.take(16));
        proof {
            lemma_pow16();
            if all_digits(s.take(16), 16) {
                lemma_numeral_bound(s.take(16));
            }
        }
        match parse_numeral(chars, from, from + 16, 16, u64::MAX) {
            Some(key) => {
                assert(chars@.subrange(from + 17, to as int) =~= s.skip(17));
                return (key, string_of(chars, from + 17, to));
            },
            None => {},
        }
    } else {
        // A sign is no digit.
        assert(keyed(s) ==> s[16] == chars@[from + 16] && digit_value(s.take(16)[0]) < 16);
    }
    (0, string_of(chars, from, to))
}

/// Reads the records of a log and keeps the last of them.
pub fn parse_log(text: &str) -> (r: (Vec<u64>, Vec<String>))
    ensures
        r.0@.len() == r.1@.len(),
        zipped(r.0@, r.1@) == last_of(records_of(text@), RECV_MAX as int),
{
    let chars: Vec<char> = chars_of(text);
    let ghost all = text_lines(text@, 0);
    let ranges: Vec<(usize, usize)> = split_lines(chars.as_slice());
    let mut keys: Vec<u64> = Vec::new();
    let mut lines: Vec<String> = Vec::new();
    let mut i: usize = 0;
    while i < ranges.len()
        invariant
            chars@ == text@,
            all == text_lines(text@, 0),
            ranges@.len() == all.len(),
            forall|k: int|
                0 <= k < ranges@.len() ==> (#[trigger] ranges@[k]).0 <= ranges@[k].1
                    <= chars@.len() && chars@.subrange(ranges@[k].0 as int, ranges@[k].1 as int)
                    == all[k],
            i <= ranges@.len(),
            keys@.len() == i,
            lines@.len() == i,
            forall|k: int| 0 <= k < i ==> (#[trigger] keys@[k]) == record_of(all[k]).key,
            forall|k: int| 0 <= k < i ==> (#[trigger] lines@[k])@ == record_of(all[k]).line,
        decreases ranges@.len() - i,
    {
        let (from, to) = ranges[i];
        let (k, line) = read_record(chars.as_slice(), from, to);
        keys.push(k);
        lines.push(line);
        i = i + 1;
    }
    assert(zipped(keys@, lines@) =~= records_of(text@));
    if lines.len() > RECV_MAX {
        let cut: usize = lines.len() - RECV_MAX;
        let kept_keys: Vec<u64> = keys.split_off(cut);
        let kept_lines: Vec<String> = lines.split_off(cut);
        assert(zipped(kept_keys@, kept_lines@) =~= last_of(records_of(text@), 120));
        return (kept_keys, kept_lines);
    }
    (keys, lines)
}

/// Reads a log.
pub fn load(bytes: &[u8]) -> (r: Loaded)
    ensures
        r.records() == last_of(records_of(lossy_text(bytes@)), RECV_MAX as int),
        valid_utf8(bytes@) ==> r.records() == last_of(
            records_of(decode_utf8(bytes@)),
            RECV_MAX as int,
        ),
        r.keys@.len() == r.lines@.len(),
        r.size == bytes@.len(),
{
    let size: u64 = bytes.len() as u64;
    let text: String = from_utf8_lossy(bytes);
    let (keys, lines) = parse_log(text.as_str());
    Loaded { keys, lines, size }
}

/// The size that is kept of a log after a request to clear it: none where
/// there was no log or it was emptied, else the size it had.
pub fn clear(size: &mut u64, mounted: bool, present: bool, emptied: bool)
    ensures
        *final(size) == size_cleared(*old(size), mounted, present, emptied),
        *final(size) == if mounted && (!present || emptied) {
            0
        } else {
            *old(size)
        },
{
    if mounted && (!present || emptied) {
        *size = 0;
    }
}

/// What is written for a message.
pub enum Change {
    /// The whole log is replaced.
    Replace(String),
    /// A record is added at its end.
    Extend(String),
}

/// Writes one record.
pub fn write_record(out: &mut String, key: u64, line: &str)
    ensures
        final(out)@ == old(out)@ + record_text(key, line@),
{
    let ghost before = out@;
    push_hex(out, key, 16);
    out.push('|');
    out.append(line);
    out.push('\n');
    assert(out@ =~= before + record_text(key, line@));
}

/// What is written for a message: its record, or the whole backlog, which
/// holds the message already, where the log has grown too large.
pub fn append(size: u64, key: u64, line: &str, keys: &[u64], lines: &[String]) -> (r: Change)
    ensures
        r is Replace <==> compacts(size),
        r is Replace <==> size > MAX_BYTES,
        match r {
            Change::Replace(t) => t@ == log_text(zipped(keys@, lines@)),
            Change::Extend(t) => t@ == record_text(key, line@),
        },
{
    if size > MAX_BYTES {
        let n: usize = if keys.len() <= lines.len() {
            keys.len()
        } else {
            lines.len()
        };
        let ghost all = zipped(keys@, lines@);
        let mut compacted: String = String::new();
        let mut i: usize = 0;
        assert(all.take(0) =~= Seq::<Record>::empty());
        while i < n
            invariant
                i <= n,
                n <= keys@.len(),
                n <= lines@.len(),
                n == all.len(),
                all == zipped(keys@, lines@),
                compacted@ == log_text(all.take(i as int)),
            decreases n - i,
        {
            write_record(&mut compacted, keys[i], lines[i].as_str());
            i = i + 1;
            assert(all.take(i as int).drop_last() =~= all.take(i - 1));
            assert(all.take(i as int).last() == all[i - 1]);
        }
        assert(all.take(n as int) =~= all);
        return Change::Replace(compacted);
    }
    let mut record: String = String::new();
    write_record(&mut record, key, line);
    assert(record@ =~= record_text(key, line@));
    Change::Extend(record)
}

/// The size of a log with a change.
pub open spec fn size_with(size: u64, change: Change) -> int {
    match change {
        Change::Replace(t) => encode_utf8(t@).len() as int,
        Change::Extend(t) => size + encode_utf8(t@).len(),
    }
}

/// The size of a log after a change was written.
pub fn size_after(size: u64, change: &Change) -> (r: u64)
    requires
        change is Extend ==> size_with(size, *change) <= u64::MAX,
    ensures
        r == size_with(size, *change),
{
    match change {
        Change::Replace(t) => t.as_str().as_bytes().len() as u64,
        Change::Extend(t) => size + t.as_str().as_bytes().len() as u64,
    }
}

/// The size that is kept of a log after a change was tried: one that could not
/// be written leaves it.
pub fn settle(size: &mut u64, change: &Change, written: bool)
    requires
        written && change is Extend ==> size_with(*old(size), *change) <= u64::MAX,
    ensures
        *final(size) == size_settled(*old(size), *change, written),
        *final(size) == if written {
            size_with(*old(size), *change)
        } else {
            *old(size) as int
        },
{
    if written {
        *size = size_after(*size, change);
    }
}

// ---------------------------------------------------------------------------
// What holds of logs.
// ---------------------------------------------------------------------------

/// Sixteen to the power of `n`.
pub open spec fn pow16(n: nat) -> int
    decreases n,
{
    if n == 0 {
        1
    } else {
        16 * pow16((n - 1) as nat)
    }
}

/// So many hexadecimal digits write a number below that power of sixteen.
proof fn lemma_numeral_bound(s: Seq<char>)
    requires
        all_digits(s, 16),
    ensures
        0 <= numeral_value(s, 16) < pow16(s.len()),
    decreases s.len(),
{
    if s.len() > 0 {
        let front = s.drop_last();
        assert forall|i: int| 0 <= i < front.len() implies digit_value(#[trigger] front[i])
            < 16 by {
            assert(front[i] == s[i]);
        }
        lemma_numeral_bound(front);
        assert(digit_value(s[s.len() - 1]) < 16);
    }
}

/// Hexadecimal digits write the number they were made from.
proof fn lemma_hex_value(n: int, width: nat)
    requires
        0 <= n < pow16(width),
    ensures
        hex(n, width).len() == width,
        all_digits(hex(n, width), 16),
        numeral_value(hex(n, width), 16) == n,
        forall|i: int| 0 <= i < width ==> #[trigger] hex(n, width)[i] != '\n',
    decreases width,
{
    if width > 0 {
        let front = hex(n / 16, (width - 1) as nat);
        lemma_hex_value(n / 16, (width - 1) as nat);
        let h = hex(n, width);
        assert(h.drop_last() =~= front);
        let d = n % 16;
        assert(digit_value(digit(d)) == d);
        assert forall|i: int| 0 <= i < width implies digit_value(#[trigger] h[i]) < 16
            && h[i] != '\n' by {
            if i < width - 1 {
                assert(h[i] == front[i]);
            }
        }
    }
}

/// Sixteen hexadecimal digits are enough for a key.
proof fn lemma_pow16()
    ensures
        pow16(16) == 0x1_0000_0000_0000_0000,
{
    reveal_with_fuel(pow16, 17);
}

/// A line that can stand in a record: it has no line break, and no carriage
/// return at its end.
pub open spec fn storable(line: Seq<char>) -> bool {
    &&& forall|i: int| 0 <= i < line.len() ==> line[i] != '\n'
    &&& line.len() > 0 ==> line.last() != '\r'
}

/// The text of a record has one line, which is read as that record.
proof fn lemma_record_reads_back(key: u64, line: Seq<char>)
    requires
        storable(line),
    ensures
        ({
            let t = record_text(key, line);
            &&& whole_lines(t)
            &&& text_lines(t, 0) == seq![t.drop_last()]
            &&& record_of(t.drop_last()) == (Record { key, line })
        }),
{
    let h = hex(key as int, 16);
    let t = record_text(key, line);
    let s = t.drop_last();
    lemma_pow16();
    lemma_hex_value(key as int, 16);
    assert(t.last() == '\n');
    assert(s =~= h.push('|') + line);
    // The only line break is the last character.
    assert forall|i: int| 0 <= i < s.len() implies #[trigger] s[i] != '\n' by {
        if i < 16 {
            assert(s[i] == h[i]);
        } else if i > 16 {
            assert(s[i] == line[i - 17]);
        }
    }
    lemma_find_char(t, '\n', 0);
    let e = find_char(t, '\n', 0);
    assert(e == t.len() - 1) by {
        if e < t.len() - 1 {
            assert(t[e] == s[e]);
        }
    }
    assert(t.subrange(0, e) =~= s);
    assert(without_return(s) == s) by {
        if line.len() > 0 {
            assert(s.last() == line.last());
        } else {
            assert(s.last() == '|');
        }
    }
    assert(text_lines(t, e + 1) =~= seq![]);
    assert(text_lines(t, 0) =~= seq![s]);
    assert(s[16] == '|');
    assert(s.take(16) =~= h);
    assert(s.skip(17) =~= line);
}

/// A record added behind whole lines is read as one more record.
pub proof fn law_appended_record_is_read(log: Seq<char>, key: u64, line: Seq<char>)
    requires
        whole_lines(log),
        storable(line),
    ensures
        whole_lines(log + record_text(key, line)),
        records_of(log + record_text(key, line)) == records_of(log).push(Record { key, line }),
{
    let t = record_text(key, line);
    lemma_record_reads_back(key, line);
    lemma_lines_concat(log, t, 0);
    assert((log + t).last() == t.last());
    assert(records_of(log + t) =~= records_of(log).push(Record { key, line }));
}

/// A log that is written from records reads back as those records.
pub proof fn law_log_reads_back(log: Seq<Record>)
    requires
        forall|i: int| 0 <= i < log.len() ==> storable((#[trigger] log[i]).line),
    ensures
        whole_lines(log_text(log)),
        records_of(log_text(log)) == log,
    decreases log.len(),
{
    if log.len() == 0 {
        assert(records_of(log_text(log)) =~= log);
    } else {
        let front = log.drop_last();
        assert forall|i: int| 0 <= i < front.len() implies storable((#[trigger] front[i]).line) by {
            assert(front[i] == log[i]);
        }
        assert(storable(log[log.len() - 1].line));
        law_log_reads_back(front);
        law_appended_record_is_read(log_text(front), log.last().key, log.last().line);
        assert(front.push(log.last()) =~= log);
    }
}

/// A log that was cut down loads as the backlog that it was cut down to, as
/// long as that is no longer than what is kept.
pub proof fn law_compaction_keeps_the_backlog(log: Seq<Record>)
    requires
        log.len() <= RECV_MAX,
        forall|i: int| 0 <= i < log.len() ==> storable((#[trigger] log[i]).line),
    ensures
        last_of(
            records_of(decode_utf8(encode_utf8(log_text(log)))),
            RECV_MAX as int,
        ) == log,
{
    encode_utf8_decode_utf8(log_text(log));
    law_log_reads_back(log);
}

/// No more messages are kept than the receive tab holds, and they are the
/// latest.
pub proof fn law_backlog_is_the_tail(log: Seq<Record>)
    ensures
        last_of(log, RECV_MAX as int).len() <= RECV_MAX,
        forall|i: int|
            0 <= i < last_of(log, RECV_MAX as int).len() ==> #[trigger] last_of(
                log,
                RECV_MAX as int,
            )[i] == log[log.len() - last_of(log, RECV_MAX as int).len() + i],
{
}

/// What is remembered as the size of the log is the size of the file, after it
/// was added to and after it was written anew.
pub proof fn law_size_is_that_of_the_file(file: Seq<u8>, change: Change)
    requires
        file.len() <= u64::MAX,
    ensures
        change matches Change::Extend(t) ==> size_with(file.len() as u64, change) == (file
            + encode_utf8(t@)).len(),
        change matches Change::Replace(t) ==> size_with(file.len() as u64, change) == encode_utf8(
            t@,
        ).len(),
{
}

/// A line of the log: sixteen hexadecimal digits of the key, a bar, the message
/// whole, and a line break.
pub proof fn law_form_of_a_record(key: u64, line: Seq<char>)
    ensures
        record_text(key, line).len() == line.len() + 18,
        record_text(key, line).take(16) == hex(key as int, 16),
        record_text(key, line)[16] == '|',
        record_text(key, line).subrange(17, 17 + line.len() as int) == line,
        record_text(key, line).last() == '\n',
{
    crate::text::law_hexadecimal_digits(key as int, 16);
    let r = record_text(key, line);
    assert(r.take(16) =~= hex(key as int, 16));
    assert(r.subrange(17, 17 + line.len() as int) =~= line);
}

/// A line without a key is a message without one: it is kept whole.
pub proof fn law_lines_without_a_key_are_kept(line: Seq<char>)
    requires
        line.len() <= 16 || line[16] != '|',
    ensures
        record_of(line).key == 0,
        record_of(line).line == line,
{
}

/// Keys and messages stand side by side.
pub proof fn law_keys_stand_beside_messages(keys: Seq<u64>, lines: Seq<String>)
    requires
        keys.len() == lines.len(),
    ensures
        zipped(keys, lines).len() == keys.len(),
        forall|i: int|
            0 <= i < keys.len() ==> #[trigger] zipped(keys, lines)[i] == (Record {
                key: keys[i],
                line: lines[i]@,
            }),
{
}

/// Whether the log is written anew, with what is kept of it, in place of being
/// added to.
pub open spec fn compacts(size: u64) -> bool {
    size > MAX_BYTES
}

/// The size of the log after it was to be emptied.
pub open spec fn size_cleared(size: u64, mounted: bool, present: bool, emptied: bool) -> u64 {
    if mounted && (!present || emptied) {
        0
    } else {
        size
    }
}

/// The size of the log after a change was to be written.
pub open spec fn size_settled(size: u64, change: Change, written: bool) -> int {
    if written {
        size_with(size, change)
    } else {
        size as int
    }
}

/// The log is written anew once it is larger than 128 kilobytes. What could not
/// be written or emptied does not change its size; a log that is not there is
/// empty.
pub proof fn law_size_follows_the_card(size: u64, change: Change, present: bool, emptied: bool)
    ensures
        compacts(size) <==> size > 131_072,
        size_settled(size, change, false) == size,
        size_settled(size, change, true) == size_with(size, change),
        size_cleared(size, false, present, emptied) == size,
        size_cleared(size, true, true, false) == size,
        size_cleared(size, true, true, true) == 0,
        size_cleared(size, true, false, emptied) == 0,
{
}

/// A line with a key has sixteen hexadecimal digits in front of a bar: the key
/// is the number that they write, and the message all that stands behind the
/// bar. A line whose first sixteen characters are no such digits is a message
/// as a whole.
pub proof fn law_keyed_lines_are_read(digits: Seq<char>, message: Seq<char>)
    requires
        digits.len() == 16,
    ensures
        all_digits(digits, 16) ==> {
            let r = record_of(digits.push('|') + message);
            &&& r.key == numeral_value(digits, 16)
            &&& r.line == message
        },
        !all_digits(digits, 16) ==> record_of(digits.push('|') + message) == (Record {
            key: 0,
            line: digits.push('|') + message,
        }),
{
    let s = digits.push('|') + message;
    assert(s.take(16) =~= digits);
    assert(s.skip(17) =~= message);
    if all_digits(digits, 16) {
        lemma_numeral_bound(digits);
        lemma_pow16();
    }
}

/// The key of a message holds who wrote it and which of its messages it is.
pub proof fn law_keys_hold_author_and_message(origin: u32, msg_id: u32)
    ensures
        key_of_message(origin as int, msg_id as int) / 0x1_0000_0000 == origin,
        key_of_message(origin as int, msg_id as int) % 0x1_0000_0000 == msg_id,
        0 <= key_of_message(origin as int, msg_id as int) <= u64::MAX,
{
}

/// Of a list that is too long, its last entries are kept, as many as may be; of
/// any other, all.
pub proof fn law_last_entries_are_kept<A>(s: Seq<A>, n: int)
    requires
        0 <= n,
    ensures
        s.len() <= n ==> last_of(s, n) == s,
        s.len() > n ==> last_of(s, n).len() == n,
        s.len() > n ==> forall|i: int|
            0 <= i < n ==> #[trigger] last_of(s, n)[i] == s[s.len() - n + i],
{
}

} // verus!
