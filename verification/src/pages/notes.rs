//! The notes page: a list of the notes on the card and an editor for one of
//! them. Notes are files with generated names of eight and three characters.
use std::collections::BTreeSet;

use vstd::prelude::*;
use vstd::string::*;
use vstd::utf8::*;

use crate::keyboard::{self, keyboard_picture};
use crate::layout::{in_rect, inside, native_of, screen_to_native_rect, NativeRect};
use crate::lines::{split_lines, text_lines};
use crate::scene::{
    centered, filled, flush_right, label, rounded, Font, Picture, Scene, Shape, BLACK, WHITE,
};
use crate::text::{
    all_digits, chars_of, dec, dec_padded, digit_value, first_chars, from_utf8_lossy,
    law_zeros_do_not_count,
    lossy_text, lower, numeral_value, own, parse_numeral, parsed, push_dec_padded, repeat,
    same_but_case, string_of, trim, trim_end, trimmed,
};
use crate::text_field::{EnterKey, TextField, Wrap};

verus! {

/// Bytes at which typing stops. A longer note opens and is saved whole.
pub const NOTE_MAX: usize = 8192;

/// Notes that the list shows at once.
pub const VISIBLE: usize = 14;

/// Characters of a note that the list shows.
pub const PREVIEW_CHARS: usize = 40;

/// A note in the list.
pub struct Entry {
    pub name: String,
    pub preview: String,
}

/// What is known of a note in the list.
pub struct EntryView {
    pub name: Seq<char>,
    pub preview: Seq<char>,
}

impl View for Entry {
    type V = EntryView;

    open spec fn view(&self) -> EntryView {
        EntryView { name: self.name@, preview: self.preview@ }
    }
}

/// What is known of the notes in a list.
pub open spec fn entry_views(s: Seq<Entry>) -> Seq<EntryView> {
    Seq::new(s.len(), |i: int| s[i]@)
}

// ---------------------------------------------------------------------------
// Files.
// ---------------------------------------------------------------------------

/// Where a note is on the card.
pub fn note_path(name: &str) -> (r: String)
    ensures
        r@ == "/NOTES/"@ + name@,
{
    let mut path: String = own("/NOTES/");
    path.append(name);
    path
}

/// Where the last `c` stands, or -1.
pub open spec fn find_last(s: Seq<char>, c: char) -> int
    decreases s.len(),
{
    if s.len() == 0 {
        -1
    } else if s.last() == c {
        s.len() - 1
    } else {
        find_last(s.drop_last(), c)
    }
}

/// Where the last dot stands.
fn last_dot(chars: &[char]) -> (r: Option<usize>)
    ensures
        r is None <==> find_last(chars@, '.') < 0,
        r matches Some(i) ==> i == find_last(chars@, '.') && i < chars@.len(),
{
    let mut i: usize = chars.len();
    assert(chars@.take(chars@.len() as int) =~= chars@);
    while i > 0
        invariant
            i <= chars@.len(),
            find_last(chars@, '.') == find_last(chars@.take(i as int), '.'),
        decreases i,
    {
        assert(chars@.take(i as int).last() == chars@[i - 1]);
        assert(chars@.take(i as int).drop_last() =~= chars@.take(i - 1));
        if chars[i - 1] == '.' {
            return Some(i - 1);
        }
        i = i - 1;
    }
    None
}

/// Whether a name ends in the extension for text, in any case.
pub open spec fn names_text(name: Seq<char>) -> bool {
    let dot = find_last(name, '.');
    dot >= 0 && same_but_case(name.skip(dot + 1), "txt"@)
}

/// Whether a name ends in the extension for text, in any case.
pub fn is_txt(name: &str) -> (r: bool)
    ensures
        r == names_text(name@),
{
    let chars: Vec<char> = chars_of(name);
    match last_dot(chars.as_slice()) {
        None => false,
        Some(dot) => {
            let n: usize = chars.len();
            let ghost ext = chars@.skip(dot + 1);
            let ghost le = ext.map_values(|c: char| lower(c));
            let ghost lt = "txt"@.map_values(|c: char| lower(c));
            proof {
                reveal_strlit("txt");
                assert(lt =~= seq!['t', 'x', 't']);
            }
            if n - dot != 4 {
                assert(le.len() != 3);
                return false;
            }
            let a: char = chars[dot + 1];
            let b: char = chars[dot + 2];
            let c: char = chars[dot + 3];
            assert(le =~= seq![lower(a), lower(b), lower(c)]);
            let same: bool = (a == 't' || a == 'T') && (b == 'x' || b == 'X') && (c == 't' || c
                == 'T');
            proof {
                if same {
                    assert(le =~= lt);
                } else {
                    assert(le[0] != lt[0] || le[1] != lt[1] || le[2] != lt[2]);
                }
            }
            same
        },
    }
}

/// Whether an entry of the notes' folder is a note.
pub fn is_note(name: &str, is_directory: bool) -> (r: bool)
    ensures
        r == (!is_directory && names_text(name@)),
{
    !is_directory && is_txt(name)
}

/// The first line with anything but white space on it, from line `i` on.
pub open spec fn first_written(lines: Seq<Seq<char>>, i: int) -> Option<Seq<char>>
    decreases lines.len() - i,
{
    if i < 0 || i >= lines.len() {
        None
    } else if trimmed(lines[i]).len() > 0 {
        Some(lines[i])
    } else {
        first_written(lines, i + 1)
    }
}

/// What the list shows of a note: the start of its first line with anything on
/// it.
pub open spec fn preview_of(text: Seq<char>) -> Option<Seq<char>> {
    match first_written(text_lines(text, 0), 0) {
        Some(line) => Some(first_chars(trim_end(line), 40)),
        None => None,
    }
}

/// Where the characters from `from` up to `to` end without the white space at
/// their end.
fn trim_end_of(chars: &[char], from: usize, to: usize) -> (r: usize)
    requires
        from <= to <= chars@.len(),
    ensures
        from <= r <= to,
        chars@.subrange(from as int, r as int) == trim_end(
            chars@.subrange(from as int, to as int),
        ),
{
    let ghost whole = chars@.subrange(from as int, to as int);
    let mut b: usize = to;
    while b > from && chars[b - 1].is_whitespace()
        invariant
            from <= b <= to <= chars@.len(),
            trim_end(whole) == trim_end(chars@.subrange(from as int, b as int)),
        decreases b,
    {
        assert(chars@.subrange(from as int, b as int).drop_last() =~= chars@.subrange(
            from as int,
            b - 1,
        ));
        b = b - 1;
    }
    b
}

/// What the list shows of a note, where it has anything to show.
pub fn preview(text: &str) -> (r: Option<String>)
    ensures
        r is Some <==> preview_of(text@) is Some,
        r matches Some(p) ==> preview_of(text@) == Some(p@),
{
    let chars: Vec<char> = chars_of(text);
    let ranges: Vec<(usize, usize)> = split_lines(chars.as_slice());
    let ghost lines = text_lines(text@, 0);
    let mut i: usize = 0;
    while i < ranges.len()
        invariant
            chars@ == text@,
            lines == text_lines(text@, 0),
            ranges@.len() == lines.len(),
            forall|k: int|
                0 <= k < ranges@.len() ==> (#[trigger] ranges@[k]).0 <= ranges@[k].1
                    <= chars@.len() && chars@.subrange(ranges@[k].0 as int, ranges@[k].1 as int)
                    == lines[k],
            i <= ranges@.len(),
            first_written(lines, 0) == first_written(lines, i as int),
        decreases ranges@.len() - i,
    {
        let (from, to) = ranges[i];
        assert(chars@.subrange(from as int, to as int) == lines[i as int]);
        let (a, b) = trim(chars.as_slice(), from, to);
        assert(trimmed(lines[i as int]).len() == b - a);
        if a < b {
            let end: usize = trim_end_of(chars.as_slice(), from, to);
            let cut: usize = if end - from <= 40 {
                end
            } else {
                from + 40
            };
            let shown: String = string_of(chars.as_slice(), from, cut);
            assert(shown@ =~= first_chars(trim_end(lines[i as int]), 40));
            return Some(shown);
        }
        i = i + 1;
    }
    None
}

/// The entry for a note whose file could be read or not.
pub open spec fn entry_for(name: Seq<char>, text: Option<Seq<char>>) -> EntryView {
    EntryView {
        name,
        preview: match text {
            Some(t) => match preview_of(t) {
                Some(p) => p,
                None => name,
            },
            None => name,
        },
    }
}

/// The entry for a note, given the text of its file where that could be read:
/// the name stands in for a preview where there is none.
pub fn entry_of_text(name: String, text: Option<&str>) -> (r: Entry)
    ensures
        r@ == entry_for(
            name@,
            match text {
                Some(t) => Some(t@),
                None => None,
            },
        ),
{
    let shown: Option<String> = match text {
        Some(t) => preview(t),
        None => None,
    };
    match shown {
        Some(p) => Entry { name, preview: p },
        None => {
            let p: String = own(name.as_str());
            Entry { name, preview: p }
        },
    }
}

/// The entry for a note, given its file where that could be read.
pub fn entry_of(name: String, bytes: Option<&[u8]>) -> (r: Entry)
    ensures
        r@ == entry_for(
            name@,
            match bytes {
                Some(b) => Some(lossy_text(b@)),
                None => None,
            },
        ),
{
    match bytes {
        Some(b) => {
            let text: String = from_utf8_lossy(b);
            entry_of_text(name, Some(text.as_str()))
        },
        None => entry_of_text(name, None),
    }
}

/// Whether bytes come before other bytes in the order of a dictionary.
pub open spec fn before(a: Seq<u8>, b: Seq<u8>) -> bool
    decreases a.len(),
{
    if b.len() == 0 {
        false
    } else if a.len() == 0 {
        true
    } else if a[0] != b[0] {
        a[0] < b[0]
    } else {
        before(a.drop_first(), b.drop_first())
    }
}

/// Whether a name comes before another.
pub open spec fn named_before(a: EntryView, b: EntryView) -> bool {
    before(encode_utf8(a.name), encode_utf8(b.name))
}

/// How many entries from the front on do not come before `e`.
pub open spec fn later_prefix(s: Seq<EntryView>, e: EntryView) -> int
    decreases s.len(),
{
    if s.len() == 0 || named_before(s[0], e) {
        0
    } else {
        1 + later_prefix(s.drop_first(), e)
    }
}

/// Entries in the order of their names, the last name first.
pub open spec fn newest_first(s: Seq<EntryView>) -> Seq<EntryView>
    decreases s.len(),
{
    if s.len() == 0 {
        seq![]
    } else {
        let rest = newest_first(s.drop_last());
        rest.insert(later_prefix(rest, s.last()), s.last())
    }
}

/// Whether bytes come before other bytes.
fn bytes_before(a: &[u8], b: &[u8]) -> (r: bool)
    ensures
        r == before(a@, b@),
{
    let mut i: usize = 0;
    assert(a@.skip(0) =~= a@);
    assert(b@.skip(0) =~= b@);
    while i < a.len() && i < b.len() && a[i] == b[i]
        invariant
            i <= a@.len(),
            i <= b@.len(),
            before(a@, b@) == before(a@.skip(i as int), b@.skip(i as int)),
        decreases a@.len() - i,
    {
        assert(a@.skip(i as int).drop_first() =~= a@.skip(i + 1));
        assert(b@.skip(i as int).drop_first() =~= b@.skip(i + 1));
        i = i + 1;
    }
    if i >= b.len() {
        false
    } else if i >= a.len() {
        true
    } else {
        a[i] < b[i]
    }
}

/// How many entries from the front on do not come before `e`.
fn place_for(entries: &Vec<Entry>, e: &Entry) -> (r: usize)
    ensures
        r == later_prefix(entry_views(entries@), e@),
        r <= entries@.len(),
{
    let ghost s = entry_views(entries@);
    let mut i: usize = 0;
    assert(s.skip(0) =~= s);
    while i < entries.len()
        invariant
            i <= entries@.len(),
            s == entry_views(entries@),
            later_prefix(s, e@) == i + later_prefix(s.skip(i as int), e@),
        decreases entries@.len() - i,
    {
        assert(s.skip(i as int)[0] == entries@[i as int]@);
        if bytes_before(entries[i].name.as_str().as_bytes(), e.name.as_str().as_bytes()) {
            return i;
        }
        assert(s.skip(i as int).drop_first() =~= s.skip(i + 1));
        i = i + 1;
    }
    i
}

/// Puts notes in order, the newest first: names are numbered upwards.
pub fn sort_notes(notes: Vec<Entry>) -> (r: Vec<Entry>)
    ensures
        entry_views(r@) == newest_first(entry_views(notes@)),
{
    let ghost all = entry_views(notes@);
    let mut waiting: Vec<Entry> = notes;
    let mut sorted: Vec<Entry> = Vec::new();
    let ghost mut done: int = 0;
    assert(entry_views(sorted@) =~= newest_first(all.take(0)));
    assert(all.skip(0) =~= all);
    while waiting.len() > 0
        invariant
            0 <= done <= all.len(),
            entry_views(waiting@) == all.skip(done),
            entry_views(sorted@) == newest_first(all.take(done)),
        decreases waiting@.len(),
    {
        let ghost w = waiting@;
        let e: Entry = waiting.remove(0);
        proof {
            assert(entry_views(w)[0] == e@);
            assert(entry_views(w).len() == w.len());
            assert(all.skip(done)[0] == all[done]);
            assert(entry_views(waiting@) =~= all.skip(done).drop_first());
            assert(all.skip(done).drop_first() =~= all.skip(done + 1));
            assert(all.take(done + 1).drop_last() =~= all.take(done));
        }
        let at: usize = place_for(&sorted, &e);
        let ghost earlier = entry_views(sorted@);
        let ghost ev = e@;
        sorted.insert(at, e);
        proof {
            assert(entry_views(sorted@) =~= earlier.insert(at as int, ev));
            done = done + 1;
        }
    }
    assert(entry_views(waiting@).len() == 0);
    assert(all.take(all.len() as int) =~= all);
    sorted
}

/// Names come before one another in one way only.
proof fn lemma_before_order(a: Seq<u8>, b: Seq<u8>, c: Seq<u8>)
    ensures
        !(before(a, b) && before(b, a)),
        before(a, b) && !before(c, b) ==> before(a, c),
    decreases a.len(),
{
    if a.len() > 0 && b.len() > 0 {
        if c.len() > 0 {
            lemma_before_order(a.drop_first(), b.drop_first(), c.drop_first());
        } else {
            lemma_before_order(a.drop_first(), b.drop_first(), seq![]);
        }
    }
}

/// Where the entries that do not come before `e` end.
proof fn lemma_later_prefix(s: Seq<EntryView>, e: EntryView)
    ensures
        0 <= later_prefix(s, e) <= s.len(),
        forall|k: int| 0 <= k < later_prefix(s, e) ==> !named_before(#[trigger] s[k], e),
        later_prefix(s, e) < s.len() ==> named_before(s[later_prefix(s, e)], e),
    decreases s.len(),
{
    if s.len() > 0 && !named_before(s[0], e) {
        let rest = s.drop_first();
        lemma_later_prefix(rest, e);
        assert forall|k: int| 0 <= k < later_prefix(s, e) implies !named_before(
            #[trigger] s[k],
            e,
        ) by {
            if k > 0 {
                assert(s[k] == rest[k - 1]);
            }
        }
        if later_prefix(s, e) < s.len() {
            assert(s[later_prefix(s, e)] == rest[later_prefix(rest, e)]);
        }
    }
}

/// The list is in order, the last name first, and holds the notes that were
/// found, each as often as it was found.
pub proof fn law_notes_are_in_order(s: Seq<EntryView>)
    ensures
        newest_first(s).to_multiset() == s.to_multiset(),
        forall|i: int, j: int|
            0 <= i < j < newest_first(s).len() ==> !named_before(
                #[trigger] newest_first(s)[i],
                #[trigger] newest_first(s)[j],
            ),
    decreases s.len(),
{
    broadcast use vstd::seq_lib::group_to_multiset_ensures;

    let r = newest_first(s);
    if s.len() > 0 {
        let front = s.drop_last();
        let e = s.last();
        let rest = newest_first(front);
        let p = later_prefix(rest, e);
        law_notes_are_in_order(front);
        lemma_later_prefix(rest, e);
        assert(front.push(e) =~= s);
        assert(rest.insert(p, e).to_multiset() == rest.to_multiset().insert(e));
        assert(front.push(e).to_multiset() == front.to_multiset().insert(e));
        assert forall|i: int, j: int| 0 <= i < j < r.len() implies !named_before(
            #[trigger] r[i],
            #[trigger] r[j],
        ) by {
            let a = if i < p {
                i
            } else {
                i - 1
            };
            let b = if j < p {
                j
            } else {
                j - 1
            };
            if i != p {
                assert(r[i] == rest[a]);
            }
            if j != p {
                assert(r[j] == rest[b]);
            }
            if i == p {
                // rest[p] comes before e, and rest[b] is no later than rest[p].
                let en = encode_utf8(e.name);
                let pn = encode_utf8(rest[p].name);
                let bn = encode_utf8(rest[b].name);
                lemma_before_order(en, bn, pn);
                lemma_before_order(pn, en, bn);
                if b > p {
                    assert(!named_before(rest[p], rest[b]));
                }
                lemma_before_order(bn, en, pn);
                lemma_before_order(en, bn, en);
            }
        }
    }
}

// ---------------------------------------------------------------------------
// Names.
// ---------------------------------------------------------------------------

/// The number in a generated name.
pub open spec fn number_of(name: Seq<char>) -> Option<int> {
    if name.len() < 8 || name.take(4) != "NOTE"@ || name.skip(name.len() - 4) != ".TXT"@ {
        None
    } else {
        parsed(name.subrange(4, name.len() - 4), 10, u32::MAX as int)
    }
}

/// Whether the characters from `at` on begin with those of `word`.
fn has_at(chars: &[char], at: usize, word: &[char]) -> (r: bool)
    requires
        at + word@.len() <= chars@.len(),
    ensures
        r == (chars@.subrange(at as int, at + word@.len()) == word@),
{
    let ghost part = chars@.subrange(at as int, at + word@.len());
    let total: usize = chars.len();
    let mut i: usize = 0;
    while i < word.len()
        invariant
            i <= word@.len(),
            total == chars@.len(),
            at + word@.len() <= total,
            part == chars@.subrange(at as int, at + word@.len()),
            forall|k: int| 0 <= k < i ==> part[k] == word@[k],
        decreases word@.len() - i,
    {
        assert(part[i as int] == chars@[at + i]);
        if chars[at + i] != word[i] {
            return false;
        }
        i = i + 1;
    }
    assert(part =~= word@);
    true
}

/// The number in a generated name.
pub fn note_number(name: &str) -> (r: Option<u32>)
    ensures
        r is Some <==> number_of(name@) is Some,
        r matches Some(n) ==> number_of(name@) == Some(n as int),
{
    let chars: Vec<char> = chars_of(name);
    let n: usize = chars.len();
    if n < 8 {
        return None;
    }
    let front: Vec<char> = chars_of("NOTE");
    let back: Vec<char> = chars_of(".TXT");
    proof {
        reveal_strlit("NOTE");
        reveal_strlit(".TXT");
        assert(chars@.subrange(0, 4) =~= chars@.take(4));
        assert(chars@.subrange(n - 4, n as int) =~= chars@.skip(n - 4));
    }
    if !has_at(chars.as_slice(), 0, front.as_slice()) || !has_at(
        chars.as_slice(),
        n - 4,
        back.as_slice(),
    ) {
        return None;
    }
    match parse_numeral(chars.as_slice(), 4, n - 4, 10, u32::MAX as u64) {
        Some(v) => Some(v as u32),
        None => None,
    }
}

/// Whether a note has the number `n`.
pub open spec fn taken(entries: Seq<EntryView>, n: int) -> bool {
    exists|i: int| 0 <= i < entries.len() && number_of((#[trigger] entries[i]).name) == Some(n)
}

/// The highest number of a note, or zero where none has one.
pub open spec fn highest(entries: Seq<EntryView>) -> int
    decreases entries.len(),
{
    if entries.len() == 0 {
        0
    } else {
        let rest = highest(entries.drop_last());
        match number_of(entries.last().name) {
            Some(n) => if n > rest {
                n
            } else {
                rest
            },
            None => rest,
        }
    }
}

/// The first number from `n` up to 9999 that no note has.
pub open spec fn first_free(entries: Seq<EntryView>, n: int) -> Option<int>
    decreases 10000 - n,
{
    if n > 9999 {
        None
    } else if !taken(entries, n) {
        Some(n)
    } else {
        first_free(entries, n + 1)
    }
}

/// The name for number `n`.
pub open spec fn note_name(n: int) -> Seq<char> {
    "NOTE"@ + dec_padded(n, 4) + ".TXT"@
}

/// The number for a new note: one past the highest there is, or the first one
/// that is free where that would take a fifth digit.
pub open spec fn next_number(entries: Seq<EntryView>) -> Option<int> {
    if highest(entries) < 9999 {
        Some(highest(entries) + 1)
    } else {
        first_free(entries, 1)
    }
}

/// The name for number `n`.
fn name_for(n: u32) -> (r: String)
    ensures
        r@ == note_name(n as int),
{
    let mut name: String = own("NOTE");
    push_dec_padded(&mut name, n as u64, 4);
    name.append(".TXT");
    name
}

/// The name for a new note, where there is one to be had.
pub fn next_name(entries: &Vec<Entry>) -> (r: Option<String>)
    ensures
        r is Some <==> next_number(entry_views(entries@)) is Some,
        r matches Some(name) ==> name@ == note_name(next_number(entry_views(entries@))->0),
{
    let ghost all = entry_views(entries@);
    let mut max: u32 = 0;
    let mut used: BTreeSet<u32> = BTreeSet::new();
    let mut i: usize = 0;
    assert(all.take(0) =~= Seq::<EntryView>::empty());
    while i < entries.len()
        invariant
            i <= entries@.len(),
            all == entry_views(entries@),
            max == highest(all.take(i as int)),
            forall|j: u32| #[trigger] used@.contains(j) <==> taken(all.take(i as int), j as int),
        decreases entries@.len() - i,
    {
        let number: Option<u32> = note_number(entries[i].name.as_str());
        let ghost part = all.take(i as int);
        let ghost more = all.take(i + 1);
        let ghost before = used@;
        proof {
            assert(more.drop_last() =~= part);
            assert(more.last() == entries@[i as int]@);
        }
        if let Some(n) = number {
            if n > max {
                max = n;
            }
            let _new: bool = used.insert(n);
        }
        i = i + 1;
        assert forall|j: u32| #[trigger] used@.contains(j) <==> taken(more, j as int) by {
            assert(before.contains(j) <==> taken(part, j as int));
            if taken(part, j as int) {
                let w = choose|w: int|
                    0 <= w < part.len() && number_of((#[trigger] part[w]).name) == Some(j as int);
                assert(more[w] == part[w]);
            }
            if taken(more, j as int) {
                let w = choose|w: int|
                    0 <= w < more.len() && number_of((#[trigger] more[w]).name) == Some(j as int);
                if w < part.len() {
                    assert(part[w] == more[w]);
                }
            }
            if number == Some(j) {
                assert(number_of(more[i - 1].name) == Some(j as int));
            }
        }
    }
    assert(all.take(all.len() as int) =~= all);
    if max < 9999 {
        return Some(name_for(max + 1));
    }
    let mut n: u32 = 1;
    while n <= 9999
        invariant
            1 <= n <= 10000,
            forall|j: u32| #[trigger] used@.contains(j) <==> taken(all, j as int),
            first_free(all, 1) == first_free(all, n as int),
            all == entry_views(entries@),
            highest(all) >= 9999,
        decreases 10000 - n,
    {
        if !used.contains(&n) {
            return Some(name_for(n));
        }
        n = n + 1;
    }
    None
}

/// Zeros in front do not change a number.
proof fn lemma_zeros_in_front(n: int, z: int)
    requires
        0 <= n,
        0 <= z,
    ensures
        numeral_value(repeat('0', z) + dec(n), 10) == n,
        all_digits(repeat('0', z) + dec(n), 10),
        dec(n).len() > 0,
{
    law_zeros_do_not_count(n, z);
}

/// A generated name has the number it was made for.
pub proof fn law_name_has_its_number(n: int)
    requires
        0 <= n <= u32::MAX,
    ensures
        number_of(note_name(n)) == Some(n),
{
    let name = note_name(n);
    let digits = dec_padded(n, 4);
    let z = if dec(n).len() < 4 {
        4 - dec(n).len()
    } else {
        0
    };
    lemma_zeros_in_front(n, z);
    assert(digits =~= repeat('0', z) + dec(n));
    reveal_strlit("NOTE");
    reveal_strlit(".TXT");
    assert(digits.len() >= 4);
    assert(name.take(4) =~= "NOTE"@);
    assert(name.skip(name.len() - 4) =~= ".TXT"@);
    assert(name.subrange(4, name.len() - 4) =~= digits);
    assert(digit_value(digits[0]) < 10);
    assert(digits[0] != '+');
}

/// No note has a number over the highest.
proof fn lemma_highest(entries: Seq<EntryView>, i: int)
    requires
        0 <= i < entries.len(),
    ensures
        number_of(entries[i].name) matches Some(n) ==> n <= highest(entries),
        highest(entries) >= 0,
    decreases entries.len(),
{
    let front = entries.drop_last();
    assert(front.len() == 0 ==> highest(front) == 0);
    if front.len() > 0 {
        if i < front.len() {
            assert(front[i] == entries[i]);
            lemma_highest(front, i);
        } else {
            lemma_highest(front, 0);
        }
    }
}

/// The number that is found free is free.
proof fn lemma_first_free(entries: Seq<EntryView>, n: int)
    requires
        1 <= n,
    ensures
        first_free(entries, n) matches Some(m) ==> n <= m <= 9999 && !taken(entries, m),
        first_free(entries, n) is None ==> forall|m: int| n <= m <= 9999 ==> taken(entries, m),
    decreases 10000 - n,
{
    if n <= 9999 && taken(entries, n) {
        lemma_first_free(entries, n + 1);
    }
}

/// A new note gets a name that no note has, of four digits; only when all 9999
/// of them are taken is there none.
pub proof fn law_new_name_is_free(entries: Seq<EntryView>)
    ensures
        match next_number(entries) {
            Some(n) => {
                &&& 1 <= n <= 9999
                &&& forall|i: int|
                    0 <= i < entries.len() ==> (#[trigger] entries[i]).name != note_name(n)
            },
            None => forall|n: int| 1 <= n <= 9999 ==> taken(entries, n),
        },
{
    lemma_first_free(entries, 1);
    if entries.len() > 0 {
        lemma_highest(entries, 0);
    }
    if let Some(n) = next_number(entries) {
        law_name_has_its_number(n);
        assert forall|i: int| 0 <= i < entries.len() implies (#[trigger] entries[i]).name
            != note_name(n) by {
            lemma_highest(entries, i);
            if entries[i].name == note_name(n) {
                assert(number_of(entries[i].name) == Some(n));
                assert(taken(entries, n));
            }
        }
    }
}

// ---------------------------------------------------------------------------
// Reading and writing.
// ---------------------------------------------------------------------------

/// The text of a note's file.
pub fn load_note(bytes: &[u8]) -> (r: String)
    ensures
        r@ == lossy_text(bytes@),
        valid_utf8(bytes@) ==> r@ == decode_utf8(bytes@),
{
    from_utf8_lossy(bytes)
}

/// Whether a note is written: one without text that has no file is not, so
/// that a new note which was left untouched leaves no file behind.
pub fn save(text: &str, file_exists: bool) -> (r: bool)
    ensures
        r == (text@.len() > 0 || file_exists),
{
    !(text.is_empty() && !file_exists)
}

/// What is written is read back.
pub proof fn law_saved_note_reads_back(text: Seq<char>)
    ensures
        valid_utf8(encode_utf8(text)),
        decode_utf8(encode_utf8(text)) == text,
{
    encode_utf8_valid_utf8(text);
    encode_utf8_decode_utf8(text);
}

// ---------------------------------------------------------------------------
// Touch.
// ---------------------------------------------------------------------------

/// The note that a point of the list is on.
pub fn list_hit(sx: i32, sy: i32, count: usize, scroll: usize) -> (r: Option<usize>)
    ensures
        r is Some <==> inside(sx as int, sy as int, 20, 150, 500, 588) && scroll + (sy - 150) / 42
            < count,
        r matches Some(i) ==> i == scroll + (sy - 150) / 42,
{
    if !in_rect(sx, sy, 20, 150, 500, 588) {
        return None;
    }
    let slot: usize = ((sy - 150) / 42) as usize;
    if scroll < count && slot < count - scroll {
        Some(scroll + slot)
    } else {
        None
    }
}

/// Whether a point lies on the button that begins at `x`.
fn button_hit(sx: i32, sy: i32, x: i32) -> (r: bool)
    requires
        0 <= x <= 1000,
    ensures
        r == inside(sx as int, sy as int, x as int, 774, 150, 80),
{
    in_rect(sx, sy, x, 774, 150, 80)
}

/// Whether a point lies on the button that scrolls up.
pub fn scroll_up_hit(sx: i32, sy: i32) -> (r: bool)
    ensures
        r == inside(sx as int, sy as int, 25, 774, 150, 80),
{
    button_hit(sx, sy, 25)
}

/// Whether a point lies on the button that scrolls down.
pub fn scroll_down_hit(sx: i32, sy: i32) -> (r: bool)
    ensures
        r == inside(sx as int, sy as int, 195, 774, 150, 80),
{
    button_hit(sx, sy, 195)
}

/// Whether a point lies on the button for a new note.
pub fn new_hit(sx: i32, sy: i32) -> (r: bool)
    ensures
        r == inside(sx as int, sy as int, 365, 774, 150, 80),
{
    button_hit(sx, sy, 365)
}

/// Whether a point lies on the editor's delete button, which reaches to the
/// edge of the screen and up to the status bar.
pub fn delete_hit(sx: i32, sy: i32) -> (r: bool)
    ensures
        r == (sx >= 410 && 55 <= sy < 96),
{
    sx >= 410 && sy >= 55 && sy < 96
}

// ---------------------------------------------------------------------------
// Painting.
// ---------------------------------------------------------------------------

/// The editor's delete button, which asks for a second touch.
pub open spec fn delete_picture(armed: bool) -> Picture {
    seq![
        filled(410, 66, 120, 30, WHITE),
        flush_right(
            if armed {
                "Sure?"@
            } else {
                "Delete"@
            },
            530,
            88,
            Font::Bold,
            BLACK,
        ),
    ]
}

/// Paints the editor's delete button.
pub fn draw_delete_button(scene: &mut Scene, armed: bool)
    ensures
        final(scene)@ == old(scene)@ + delete_picture(armed),
{
    let ghost start = scene@;
    scene.fill(410, 66, 120, 30, WHITE);
    if armed {
        scene.right("Sure?", 530, 88, Font::Bold, BLACK);
    } else {
        scene.right("Delete", 530, 88, Font::Bold, BLACK);
    }
    assert(scene@ =~= start + delete_picture(armed));
}

/// The part of the panel that the delete button fills.
pub fn delete_native_rect() -> (r: NativeRect)
    ensures
        r == native_of(410, 66, 120, 30),
{
    screen_to_native_rect(410, 66, 120, 30)
}

/// A button under the list.
pub open spec fn button_picture(x: int, text: Seq<char>) -> Picture {
    seq![rounded(x, 774, 150, 80, 10, WHITE, 2), centered(text, x + 75, 820, Font::Bold, BLACK)]
}

/// Paints a button under the list.
fn draw_button(scene: &mut Scene, x: i32, text: &str)
    requires
        0 <= x <= 1000,
    ensures
        final(scene)@ == old(scene)@ + button_picture(x as int, text@),
{
    let ghost start = scene@;
    scene.round(x, 774, 150, 80, 10, WHITE, 2);
    scene.center(text, x + 75, 820, Font::Bold, BLACK);
    assert(scene@ =~= start + button_picture(x as int, text@));
}

/// How many rows the list shows.
pub open spec fn shown_count(count: int, scroll: int) -> int {
    if scroll >= count {
        0
    } else if count - scroll < 14 {
        count - scroll
    } else {
        14
    }
}

/// The rows of the list.
pub open spec fn list_rows(entries: Seq<EntryView>, scroll: int) -> Picture {
    Seq::new(
        shown_count(entries.len() as int, scroll) as nat,
        |i: int| label(entries[scroll + i].preview, 28, 178 + 42 * i, Font::Body, BLACK),
    )
}

/// The list of notes, from note `scroll` on.
pub open spec fn note_list_picture(entries: Seq<EntryView>, scroll: int) -> Picture {
    seq![filled(20, 150, 500, 588, WHITE)] + if entries.len() == 0 {
        seq![centered("no notes yet - tap New"@, 270, 210, Font::Body, 4)]
    } else {
        list_rows(entries, scroll)
    }
}

/// Paints the list of notes.
pub fn draw_note_list(scene: &mut Scene, entries: &Vec<Entry>, scroll: usize)
    ensures
        final(scene)@ == old(scene)@ + note_list_picture(entry_views(entries@), scroll as int),
{
    let ghost start = scene@;
    let ghost all = entry_views(entries@);
    scene.fill(20, 150, 500, 588, WHITE);
    if entries.len() == 0 {
        scene.center("no notes yet - tap New", 270, 210, Font::Body, 4);
        assert(scene@ =~= start + note_list_picture(all, scroll as int));
        return ;
    }
    let count: usize = if scroll >= entries.len() {
        0
    } else if entries.len() - scroll < VISIBLE {
        entries.len() - scroll
    } else {
        VISIBLE
    };
    let ghost rows = list_rows(all, scroll as int);
    let ghost cleared = scene@;
    let total: usize = entries.len();
    let mut i: usize = 0;
    while i < count
        invariant
            i <= count <= 14,
            total == entries@.len(),
            count > 0 ==> scroll + count <= total,
            all == entry_views(entries@),
            count == shown_count(all.len() as int, scroll as int),
            rows == list_rows(all, scroll as int),
            scene@ == cleared + rows.take(i as int),
        decreases count - i,
    {
        let e: &Entry = &entries[scroll + i];
        assert(all[scroll + i] == e@);
        scene.text(e.preview.as_str(), 28, 178 + 42 * i as i32, Font::Body, BLACK);
        assert(rows.take(i + 1) =~= rows.take(i as int).push(rows[i as int]));
        i = i + 1;
    }
    assert(rows.take(count as int) =~= rows);
    assert(scene@ =~= start + note_list_picture(all, scroll as int));
}

/// The line under the list.
pub open spec fn footer_picture(status: Seq<char>) -> Picture {
    seq![filled(20, 744, 500, 24, WHITE), label(status, 20, 760, Font::Body, BLACK)]
}

/// Paints the line under the list.
pub fn draw_notes_footer(scene: &mut Scene, status: &str)
    ensures
        final(scene)@ == old(scene)@ + footer_picture(status@),
{
    let ghost start = scene@;
    scene.fill(20, 744, 500, 24, WHITE);
    scene.text(status, 20, 760, Font::Body, BLACK);
    assert(scene@ =~= start + footer_picture(status@));
}

/// The page with the list.
pub open spec fn list_screen_picture(
    entries: Seq<EntryView>,
    scroll: int,
    status: Seq<char>,
) -> Picture {
    seq![Shape::BackButton, centered("Notes"@, 270, 95, Font::Bold, BLACK)] + note_list_picture(
        entries,
        scroll,
    ) + footer_picture(status) + button_picture(25, "Up"@) + button_picture(195, "Down"@)
        + button_picture(365, "New"@)
}

/// Paints the page with the list.
pub fn draw_list_screen(scene: &mut Scene, entries: &Vec<Entry>, scroll: usize, status: &str)
    ensures
        final(scene)@ == old(scene)@ + list_screen_picture(
            entry_views(entries@),
            scroll as int,
            status@,
        ),
{
    let ghost start = scene@;
    scene.back_button();
    scene.center("Notes", 270, 95, Font::Bold, BLACK);
    draw_note_list(scene, entries, scroll);
    draw_notes_footer(scene, status);
    draw_button(scene, 25, "Up");
    draw_button(scene, 195, "Down");
    draw_button(scene, 365, "New");
    assert(scene@ =~= start + list_screen_picture(entry_views(entries@), scroll as int, status@));
}

/// The part of the panel that the list fills.
pub fn list_native_rect() -> (r: NativeRect)
    ensures
        r == native_of(20, 150, 500, 588),
{
    screen_to_native_rect(20, 150, 500, 588)
}

/// The part of the panel that the line under the list fills.
pub fn footer_native_rect() -> (r: NativeRect)
    ensures
        r == native_of(20, 744, 500, 24),
{
    screen_to_native_rect(20, 744, 500, 24)
}

/// The editor's text area.
pub open spec fn editor_box(f: TextField) -> bool {
    &&& f.x == 20
    &&& f.y == 100
    &&& f.w == 500
    &&& f.h == 490
    &&& f.wrap == (Wrap::WordScroll { visible_lines: 23 })
    &&& f.enter == EnterKey::Newline
    &&& f.placeholder@ == "type a note..."@
    &&& f.enter_label@ == "RET"@
}

/// The editor's text area: word wrap, of which the last screenful is shown
/// with a cursor bar at its end, so that typing is always in view.
pub fn editor_field() -> (r: TextField)
    ensures
        editor_box(r),
        !r.symbols && !r.shift && !r.dirty && !r.quick_pending,
        r.chars_this_pass == 0,
        r.placed(),
{
    TextField::new(
        20,
        100,
        500,
        490,
        Wrap::WordScroll { visible_lines: 23 },
        EnterKey::Newline,
        "type a note...",
        "RET",
    )
}

/// Paints the editor's text area.
pub fn draw_note_text(scene: &mut Scene, field: &TextField, text: &str)
    requires
        editor_box(*field),
        field.can_show(text@),
    ensures
        final(scene)@ == old(scene)@ + field.picture(text@),
{
    field.draw(scene, text);
}

/// Any text of fewer characters than this fits the editor's coordinates.
pub const EDITABLE_CHARS: usize = 200_000_000;

/// The editor can show any text that the card can hold.
pub proof fn law_editor_shows_any_note(f: TextField, text: Seq<char>)
    requires
        editor_box(f),
        text.len() <= EDITABLE_CHARS,
    ensures
        f.can_show(text),
{
}

/// A file's name without its extension.
pub open spec fn title_of(name: Seq<char>) -> Seq<char> {
    if find_last(name, '.') >= 0 {
        name.take(find_last(name, '.'))
    } else {
        name
    }
}

/// The page with the editor.
pub open spec fn edit_screen_picture(
    name: Seq<char>,
    field: TextField,
    text: Seq<char>,
    armed: bool,
) -> Picture {
    seq![Shape::BackButton, centered(title_of(name), 270, 88, Font::Bold, BLACK)]
        + delete_picture(armed) + field.picture(text) + keyboard_picture(
        field.symbols,
        field.shift,
        "RET"@,
    )
}

/// Paints the page with the editor.
pub fn draw_edit_screen(
    scene: &mut Scene,
    name: &str,
    field: &TextField,
    text: &str,
    delete_armed: bool,
)
    requires
        editor_box(*field),
        field.can_show(text@),
    ensures
        final(scene)@ == old(scene)@ + edit_screen_picture(name@, *field, text@, delete_armed),
{
    let ghost start = scene@;
    scene.back_button();
    let chars: Vec<char> = chars_of(name);
    match last_dot(chars.as_slice()) {
        Some(dot) => {
            let title: String = string_of(chars.as_slice(), 0, dot);
            assert(title@ =~= title_of(name@));
            scene.center(title.as_str(), 270, 88, Font::Bold, BLACK);
        },
        None => {
            scene.center(name, 270, 88, Font::Bold, BLACK);
        },
    }
    draw_delete_button(scene, delete_armed);
    draw_note_text(scene, field, text);
    keyboard::draw(scene, field.symbols, field.shift, "RET");
    assert(scene@ =~= start + edit_screen_picture(name@, *field, text@, delete_armed));
}

/// The part of the panel that the text area fills.
pub fn text_area_native_rect() -> (r: NativeRect)
    ensures
        r == native_of(20, 100, 500, 490),
{
    screen_to_native_rect(20, 100, 500, 490)
}

/// A file is a note where what stands behind the last dot of its name is `txt`,
/// in any case; a name without a dot is none. Its title is what stands in front
/// of that dot.
pub proof fn law_notes_are_told_by_their_names(stem: Seq<char>, ending: Seq<char>)
    requires
        forall|i: int| 0 <= i < ending.len() ==> #[trigger] ending[i] != '.',
    ensures
        names_text(stem.push('.') + ending) == same_but_case(ending, "txt"@),
        title_of(stem.push('.') + ending) == stem,
        !names_text(ending),
        title_of(ending) == ending,
{
    let name = stem.push('.') + ending;
    lemma_last_dot(stem, ending);
    assert(name.skip(stem.len() as int + 1) =~= ending);
    assert(name.take(stem.len() as int) =~= stem);
    lemma_no_dot(ending);
}

/// The last dot is in front of what has none.
proof fn lemma_last_dot(stem: Seq<char>, ending: Seq<char>)
    requires
        forall|i: int| 0 <= i < ending.len() ==> #[trigger] ending[i] != '.',
    ensures
        find_last(stem.push('.') + ending, '.') == stem.len(),
    decreases ending.len(),
{
    let name = stem.push('.') + ending;
    if ending.len() == 0 {
        assert(name.last() == '.');
    } else {
        let front = ending.drop_last();
        assert forall|i: int| 0 <= i < front.len() implies #[trigger] front[i] != '.' by {
            assert(front[i] == ending[i]);
        }
        lemma_last_dot(stem, front);
        assert(name.last() == ending.last());
        assert(ending[ending.len() - 1] != '.');
        assert(name.drop_last() =~= stem.push('.') + front);
    }
}

/// There is no last dot where there is none.
proof fn lemma_no_dot(s: Seq<char>)
    requires
        forall|i: int| 0 <= i < s.len() ==> #[trigger] s[i] != '.',
    ensures
        find_last(s, '.') == -1,
    decreases s.len(),
{
    if s.len() > 0 {
        let front = s.drop_last();
        assert(s[s.len() - 1] != '.');
        assert forall|i: int| 0 <= i < front.len() implies #[trigger] front[i] != '.' by {
            assert(front[i] == s[i]);
        }
        lemma_no_dot(front);
    }
}

/// A note is listed with its first line that is not blank, up to forty
/// characters of it, without the white space behind it; with its name where it
/// has no such line or cannot be read.
pub proof fn law_note_is_listed_by_its_first_line(name: Seq<char>, text: Seq<char>, i: int)
    requires
        0 <= i <= text_lines(text, 0).len(),
        forall|k: int| 0 <= k < i ==> trimmed(#[trigger] text_lines(text, 0)[k]).len() == 0,
    ensures
        ({
            let lines = text_lines(text, 0);
            let shown = entry_for(name, Some(text));
            &&& shown.name == name
            &&& i == lines.len() ==> shown.preview == name
            &&& i < lines.len() && trimmed(lines[i]).len() > 0 ==> {
                let line = trim_end(lines[i]);
                shown.preview == if line.len() <= 40 {
                    line
                } else {
                    line.subrange(0, 40)
                }
            }
        }),
        entry_for(name, None).name == name,
        entry_for(name, None).preview == name,
{
    lemma_first_written(text_lines(text, 0), 0, i);
    let lines = text_lines(text, 0);
    if i < lines.len() && trimmed(lines[i]).len() > 0 {
        let line = trim_end(lines[i]);
        if line.len() > 40 {
            assert(line.take(40) =~= line.subrange(0, 40));
        }
    }
}

/// Blank lines are passed over.
proof fn lemma_first_written(lines: Seq<Seq<char>>, from: int, i: int)
    requires
        0 <= from <= i <= lines.len(),
        forall|k: int| from <= k < i ==> trimmed(#[trigger] lines[k]).len() == 0,
    ensures
        first_written(lines, from) == first_written(lines, i),
    decreases i - from,
{
    if from < i {
        assert(trimmed(lines[from]).len() == 0);
        lemma_first_written(lines, from + 1, i);
    }
}

/// A new note gets the number after the highest one that is taken; where that
/// is 9999, the lowest one that is free, and none where none is.
pub proof fn law_new_number_follows_the_highest(entries: Seq<EntryView>, top: int)
    requires
        0 <= top,
        top > 0 ==> taken(entries, top),
        forall|n: int| #[trigger] taken(entries, n) ==> n <= top,
    ensures
        top < 9999 ==> next_number(entries) == Some(top + 1),
        top >= 9999 ==> match next_number(entries) {
            Some(n) => {
                &&& 1 <= n <= 9999
                &&& !taken(entries, n)
                &&& forall|m: int| 1 <= m < n ==> taken(entries, m)
            },
            None => forall|m: int| 1 <= m <= 9999 ==> taken(entries, m),
        },
{
    lemma_highest_is_taken(entries);
    if top > 0 {
        let i = choose|i: int|
            0 <= i < entries.len() && number_of((#[trigger] entries[i]).name) == Some(top);
        lemma_highest(entries, i);
    }
    assert(highest(entries) == top);
    lemma_lowest_free(entries, 1);
}

/// The highest number is taken, unless there is none.
proof fn lemma_highest_is_taken(entries: Seq<EntryView>)
    ensures
        highest(entries) >= 0,
        highest(entries) > 0 ==> taken(entries, highest(entries)),
    decreases entries.len(),
{
    if entries.len() > 0 {
        let front = entries.drop_last();
        lemma_highest_is_taken(front);
        let h = highest(entries);
        if h > 0 {
            if h == highest(front) {
                let i = choose|i: int|
                    0 <= i < front.len() && number_of((#[trigger] front[i]).name) == Some(h);
                assert(entries[i] == front[i]);
            } else {
                assert(entries[entries.len() - 1] == entries.last());
            }
        }
    }
}

/// What is below the first free number is taken.
proof fn lemma_lowest_free(entries: Seq<EntryView>, n: int)
    requires
        1 <= n,
    ensures
        match first_free(entries, n) {
            Some(f) => {
                &&& n <= f <= 9999
                &&& !taken(entries, f)
                &&& forall|m: int| n <= m < f ==> taken(entries, m)
            },
            None => forall|m: int| n <= m <= 9999 ==> taken(entries, m),
        },
    decreases 10000 - n,
{
    if n <= 9999 && taken(entries, n) {
        lemma_lowest_free(entries, n + 1);
    }
}

/// The name of a new note has four digits.
pub proof fn law_names_have_four_digits(n: int)
    requires
        1 <= n <= 9999,
    ensures
        note_name(n).len() == 12,
        note_name(n).take(4) == "NOTE"@,
        note_name(n).subrange(4, 8) == dec_padded(n, 4),
        note_name(n).skip(8) == ".TXT"@,
{
    reveal_strlit("NOTE");
    reveal_strlit(".TXT");
    reveal_with_fuel(dec, 4);
    assert(dec(n).len() <= 4);
    assert(dec_padded(n, 4).len() == 4);
    assert(note_name(n).take(4) =~= "NOTE"@);
    assert(note_name(n).subrange(4, 8) =~= dec_padded(n, 4));
    assert(note_name(n).skip(8) =~= ".TXT"@);
}

/// The list shows fourteen notes from the place scrolled to on, or all that are
/// left, each with its preview whole, 42 pixels apart.
pub proof fn law_notes_are_listed(entries: Seq<EntryView>, scroll: int)
    requires
        0 <= scroll < entries.len(),
    ensures
        ({
            let shown = note_list_picture(entries, scroll);
            let left = entries.len() - scroll;
            let count = if left < 14 {
                left
            } else {
                14
            };
            &&& shown.len() == 1 + count
            &&& forall|i: int|
                0 <= i < count ==> #[trigger] shown[1 + i] == label(
                    entries[scroll + i].preview,
                    28,
                    178 + 42 * i,
                    Font::Body,
                    BLACK,
                )
        }),
{
}

/// The editor shows the title and the text of its note, and asks before it
/// deletes.
pub proof fn law_note_is_shown(name: Seq<char>, field: TextField, text: Seq<char>, armed: bool)
    ensures
        ({
            let shown = edit_screen_picture(name, field, text, armed);
            let field_shown = field.picture(text);
            &&& shown[1] == centered(title_of(name), 270, 88, Font::Bold, BLACK)
            &&& shown[3] == flush_right(
                if armed {
                    "Sure?"@
                } else {
                    "Delete"@
                },
                530,
                88,
                Font::Bold,
                BLACK,
            )
            &&& shown.subrange(4, 4 + field_shown.len() as int) == field_shown
            &&& shown.skip(4 + field_shown.len() as int) == keyboard_picture(
                field.symbols,
                field.shift,
                "RET"@,
            )
        }),
{
    let shown = edit_screen_picture(name, field, text, armed);
    let field_shown = field.picture(text);
    assert(shown.subrange(4, 4 + field_shown.len() as int) =~= field_shown);
    assert(shown.skip(4 + field_shown.len() as int) =~= keyboard_picture(field.symbols, field.shift, "RET"@));
}

/// The list has the title, the notes, a line for what it says, and its three
/// buttons side by side.
pub proof fn law_list_has_its_parts(entries: Seq<EntryView>, scroll: int, status: Seq<char>)
    ensures
        ({
            let shown = list_screen_picture(entries, scroll, status);
            let list = note_list_picture(entries, scroll);
            let n = list.len() as int;
            &&& shown.len() == n + 10
            &&& shown.subrange(2, 2 + n) == list
            &&& shown[n + 3] == label(status, 20, 760, Font::Body, BLACK)
            &&& shown[n + 4] == rounded(25, 774, 150, 80, 10, WHITE, 2)
            &&& shown[n + 6] == rounded(195, 774, 150, 80, 10, WHITE, 2)
            &&& shown[n + 8] == rounded(365, 774, 150, 80, 10, WHITE, 2)
            &&& entries.len() == 0 ==> list[1] == centered(
                "no notes yet - tap New"@,
                270,
                210,
                Font::Body,
                4,
            )
        }),
{
    let shown = list_screen_picture(entries, scroll, status);
    let list = note_list_picture(entries, scroll);
    assert(shown.subrange(2, 2 + list.len() as int) =~= list);
}

/// Names are ordered by their bytes: by the first byte in which they differ, and
/// a name comes before those that it begins.
pub proof fn law_names_are_ordered_by_bytes(
    same: Seq<u8>,
    x: u8,
    y: u8,
    a: Seq<u8>,
    b: Seq<u8>,
)
    requires
        x != y,
    ensures
        before(same + (seq![x] + a), same + (seq![y] + b)) <==> x < y,
        before(same, same + (seq![y] + b)),
        !before(same + (seq![y] + b), same),
        !before(same, same),
    decreases same.len(),
{
    let p = same + (seq![x] + a);
    let q = same + (seq![y] + b);
    if same.len() == 0 {
        assert(p[0] == x && q[0] == y);
    } else {
        let rest = same.drop_first();
        law_names_are_ordered_by_bytes(rest, x, y, a, b);
        assert(p.drop_first() =~= rest + (seq![x] + a));
        assert(q.drop_first() =~= rest + (seq![y] + b));
        assert(p[0] == same[0] && q[0] == same[0]);
    }
}

/// The number of a note is what stands in its name between `NOTE` and `.TXT`,
/// where that is a number, with however many digits.
pub proof fn law_number_in_a_name(digits: Seq<char>)
    ensures
        number_of("NOTE"@ + digits + ".TXT"@) == parsed(digits, 10, u32::MAX as int),
{
    reveal_strlit("NOTE");
    reveal_strlit(".TXT");
    let name = "NOTE"@ + digits + ".TXT"@;
    assert(name.take(4) =~= "NOTE"@);
    assert(name.skip(name.len() - 4) =~= ".TXT"@);
    assert(name.subrange(4, name.len() - 4) =~= digits);
}

/// The list holds every note, with its name and its preview whole.
pub proof fn law_listed_notes_are_whole(s: Seq<Entry>)
    ensures
        entry_views(s).len() == s.len(),
        forall|i: int|
            0 <= i < s.len() ==> #[trigger] entry_views(s)[i] == (EntryView {
                name: s[i].name@,
                preview: s[i].preview@,
            }),
{
}

} // verus!
