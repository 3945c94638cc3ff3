//! Text: decimal and hexadecimal numerals, padding, comparison and the
//! relation between the characters of a string and its UTF-8 bytes.
use vstd::prelude::*;
use vstd::string::*;
use vstd::utf8::*;

verus! {

/// `String::push`: the character goes to the end of the text.
pub assume_specification[ String::push ](s: &mut String, c: char)
    ensures
        final(s)@ == old(s)@.push(c),
;

/// `String::pop`: takes the last character off and returns it, or returns
/// `None` and leaves the text alone when it is empty.
pub assume_specification[ String::pop ](s: &mut String) -> (r: Option<char>)
    ensures
        old(s)@.len() == 0 ==> r is None && final(s)@ == old(s)@,
        old(s)@.len() > 0 ==> r == Some(old(s)@.last()) && final(s)@ == old(s)@.drop_last(),
;

/// `core::str::from_utf8`: a text with exactly these bytes, when they are
/// well-formed UTF-8, and nothing otherwise.
#[verifier::external_body]
pub(crate) fn from_utf8(bytes: &[u8]) -> (r: Option<&str>)
    ensures
        r is Some <==> valid_utf8(bytes@),
        r matches Some(s) ==> s.spec_bytes() == bytes@,
{
    core::str::from_utf8(bytes).ok()
}

/// What `String::from_utf8_lossy` makes of bytes.
pub uninterp spec fn lossy_text(bytes: Seq<u8>) -> Seq<char>;

/// `String::from_utf8_lossy`: the text of the bytes, where what is not
/// well-formed UTF-8 is replaced. Bytes that are well-formed come out as the
/// text that they encode; what the others come out as is only named.
#[verifier::external_body]
pub(crate) fn from_utf8_lossy(bytes: &[u8]) -> (r: String)
    ensures
        r@ == lossy_text(bytes@),
        valid_utf8(bytes@) ==> r@ == decode_utf8(bytes@),
{
    String::from_utf8_lossy(bytes).into_owned()
}

// ---------------------------------------------------------------------------
// Numerals.
// ---------------------------------------------------------------------------

/// The character of a digit in bases up to sixteen, letters in lower case.
pub open spec fn digit(d: int) -> char {
    if d < 10 {
        (48 + d) as char
    } else {
        (87 + d) as char
    }
}

/// The decimal numeral of `n`.
pub open spec fn dec(n: int) -> Seq<char>
    decreases n,
{
    if n < 10 {
        seq![digit(n)]
    } else {
        dec(n / 10).push(digit(n % 10))
    }
}

/// The decimal numeral of `n`, with a minus sign where it is negative.
pub open spec fn dec_signed(n: int) -> Seq<char> {
    if n < 0 {
        seq!['-'] + dec(-n)
    } else {
        dec(n)
    }
}

/// The decimal numeral of `n` with its sign always written.
pub open spec fn dec_plus(n: int) -> Seq<char> {
    if n < 0 {
        seq!['-'] + dec(-n)
    } else {
        seq!['+'] + dec(n)
    }
}

/// `n` copies of `c`.
pub open spec fn repeat(c: char, n: int) -> Seq<char> {
    Seq::new(if n < 0 { 0 } else { n as nat }, |i: int| c)
}

/// The decimal numeral of `n`, with zeros in front up to `width` places.
pub open spec fn dec_padded(n: int, width: int) -> Seq<char> {
    repeat('0', width - dec(n).len()) + dec(n)
}

/// `s` with spaces behind it up to `width` characters.
pub open spec fn pad_right(s: Seq<char>, width: int) -> Seq<char> {
    s + repeat(' ', width - s.len())
}

/// The lowest `width` hexadecimal digits of `n`, in lower case.
pub open spec fn hex(n: int, width: nat) -> Seq<char>
    decreases width,
{
    if width == 0 {
        seq![]
    } else {
        hex(n / 16, (width - 1) as nat).push(digit(n % 16))
    }
}

/// The character of a digit in bases up to sixteen, letters as capitals.
pub open spec fn digit_capital(d: int) -> char {
    if d < 10 {
        (48 + d) as char
    } else {
        (55 + d) as char
    }
}

/// The lowest `width` hexadecimal digits of `n`, in capitals.
pub open spec fn hex_capitals(n: int, width: nat) -> Seq<char>
    decreases width,
{
    if width == 0 {
        seq![]
    } else {
        hex_capitals(n / 16, (width - 1) as nat).push(digit_capital(n % 16))
    }
}

/// Writes one digit.
pub fn digit_char(d: u8) -> (r: char)
    requires
        d < 16,
    ensures
        r == digit(d as int),
{
    if d < 10 {
        (48 + d) as char
    } else {
        (87 + d) as char
    }
}

/// Appends the decimal numeral of `n`.
pub fn push_dec(out: &mut String, n: u64)
    ensures
        final(out)@ == old(out)@ + dec(n as int),
    decreases n,
{
    if n >= 10 {
        push_dec(out, n / 10);
    }
    out.push(digit_char((n % 10) as u8));
}

/// The size of a negative number.
fn magnitude(n: i64) -> (r: u64)
    requires
        n < 0,
    ensures
        r == -n,
{
    if n == i64::MIN {
        9223372036854775808
    } else {
        (-n) as u64
    }
}

/// Appends the decimal numeral of `n`, signed where it is negative.
pub fn push_int(out: &mut String, n: i64)
    ensures
        final(out)@ == old(out)@ + dec_signed(n as int),
{
    if n < 0 {
        out.push('-');
        let m: u64 = magnitude(n);
        push_dec(out, m);
    } else {
        push_dec(out, n as u64);
    }
}

/// Appends the decimal numeral of `n`, always signed.
pub fn push_plus(out: &mut String, n: i64)
    ensures
        final(out)@ == old(out)@ + dec_plus(n as int),
{
    if n < 0 {
        out.push('-');
        let m: u64 = magnitude(n);
        push_dec(out, m);
    } else {
        out.push('+');
        push_dec(out, n as u64);
    }
}

/// How many decimal digits `n` takes.
fn dec_len(n: u64) -> (r: u64)
    ensures
        r == dec(n as int).len(),
{
    let mut m: u64 = n;
    let mut len: u64 = 1;
    while m >= 10
        invariant
            len + dec(m as int).len() == dec(n as int).len() + 1,
            len + m <= n + 1,
        decreases m,
    {
        m = m / 10;
        len = len + 1;
    }
    len
}

/// Appends `n` copies of `c`.
pub fn push_repeat(out: &mut String, c: char, n: usize)
    ensures
        final(out)@ == old(out)@ + repeat(c, n as int),
{
    let mut i: usize = 0;
    while i < n
        invariant
            i <= n,
            out@ == old(out)@ + repeat(c, i as int),
        decreases n - i,
    {
        out.push(c);
        i = i + 1;
    }
}

/// Appends the decimal numeral of `n` with zeros in front up to `width`
/// places.
pub fn push_dec_padded(out: &mut String, n: u64, width: usize)
    ensures
        final(out)@ == old(out)@ + dec_padded(n as int, width as int),
{
    let len: u64 = dec_len(n);
    if len < width as u64 {
        push_repeat(out, '0', width - len as usize);
    }
    push_dec(out, n);
}

/// Appends the lowest `width` hexadecimal digits of `n`.
pub fn push_hex(out: &mut String, n: u64, width: usize)
    ensures
        final(out)@ == old(out)@ + hex(n as int, width as nat),
    decreases width,
{
    if width > 0 {
        push_hex(out, n / 16, width - 1);
        out.push(digit_char((n % 16) as u8));
    }
}

/// Appends the lowest `width` hexadecimal digits of `n`, in capitals.
pub fn push_hex_capitals(out: &mut String, n: u64, width: usize)
    ensures
        final(out)@ == old(out)@ + hex_capitals(n as int, width as nat),
    decreases width,
{
    if width > 0 {
        push_hex_capitals(out, n / 16, width - 1);
        let d: u8 = (n % 16) as u8;
        out.push(
            if d < 10 {
                (48 + d) as char
            } else {
                (55 + d) as char
            },
        );
    }
}

/// Appends `s` with spaces behind it up to `width` characters.
pub fn push_padded(out: &mut String, s: &str, width: usize)
    ensures
        final(out)@ == old(out)@ + pad_right(s@, width as int),
{
    out.append(s);
    let len: usize = s.unicode_len();
    if len < width {
        push_repeat(out, ' ', width - len);
    }
}

// ---------------------------------------------------------------------------
// Characters and bytes.
// ---------------------------------------------------------------------------

/// Encoding one text behind another encodes the two one behind the other.
pub proof fn lemma_encode_concat(a: Seq<char>, b: Seq<char>)
    ensures
        encode_utf8(a + b) == encode_utf8(a) + encode_utf8(b),
    decreases a.len(),
{
    if a.len() == 0 {
        assert(a + b =~= b);
        assert(encode_utf8(a) + encode_utf8(b) =~= encode_utf8(b));
    } else {
        lemma_encode_concat(a.drop_first(), b);
        assert((a + b).drop_first() =~= a.drop_first() + b);
        assert(encode_utf8(a + b) =~= encode_utf8(a) + encode_utf8(b));
    }
}

/// Texts with the same bytes are the same text.
pub proof fn lemma_encode_injective(a: Seq<char>, b: Seq<char>)
    requires
        encode_utf8(a) == encode_utf8(b),
    ensures
        a == b,
{
    encode_utf8_decode_utf8(a);
    encode_utf8_decode_utf8(b);
}

/// How many bytes of UTF-8 a character takes.
pub open spec fn char_bytes(c: char) -> nat {
    encode_scalar(c as u32).len()
}

/// The byte offset at which character `i` of a text begins.
pub open spec fn byte_offset(s: Seq<char>, i: int) -> nat {
    encode_utf8(s.take(i)).len()
}

/// Byte offsets step over one character at a time.
pub proof fn lemma_byte_offset_step(s: Seq<char>, i: int)
    requires
        0 <= i < s.len(),
    ensures
        byte_offset(s, i + 1) == byte_offset(s, i) + char_bytes(s[i]),
        1 <= char_bytes(s[i]) <= 4,
{
    let one = seq![s[i]];
    assert(s.take(i + 1) =~= s.take(i) + one);
    lemma_encode_concat(s.take(i), one);
    assert(one.drop_first() =~= Seq::<char>::empty());
    assert(encode_utf8(Seq::<char>::empty()) =~= seq![]);
    assert(encode_utf8(one) =~= encode_scalar(s[i] as u32));
}

/// Byte offsets do not decrease, and the last is the length in bytes.
pub proof fn lemma_byte_offset_bounds(s: Seq<char>, i: int)
    requires
        0 <= i <= s.len(),
    ensures
        i <= byte_offset(s, i) <= encode_utf8(s).len(),
        byte_offset(s, 0) == 0,
        byte_offset(s, s.len() as int) == encode_utf8(s).len(),
    decreases s.len() - i, i,
{
    assert(s.take(s.len() as int) =~= s);
    assert(s.take(0) =~= Seq::<char>::empty());
    assert(s.take(i) + s.skip(i) =~= s);
    lemma_encode_concat(s.take(i), s.skip(i));
    lemma_len_le_bytes(s.take(i));
}

/// A text has at least as many bytes as characters.
pub proof fn lemma_len_le_bytes(s: Seq<char>)
    ensures
        s.len() <= encode_utf8(s).len(),
    decreases s.len(),
{
    if s.len() > 0 {
        lemma_len_le_bytes(s.drop_first());
    }
}

/// How many bytes of UTF-8 a character takes.
pub fn char_len(c: char) -> (r: usize)
    ensures
        r == char_bytes(c),
        1 <= r <= 4,
{
    let v: u32 = c as u32;
    proof {
        char_is_scalar(c);
    }
    if v < 0x80 {
        1
    } else if v < 0x800 {
        2
    } else if v < 0x10000 {
        3
    } else {
        4
    }
}

/// Whether two byte strings are the same.
pub fn bytes_eq(a: &[u8], b: &[u8]) -> (r: bool)
    ensures
        r == (a@ == b@),
{
    if a.len() != b.len() {
        return false;
    }
    let mut i: usize = 0;
    while i < a.len()
        invariant
            i <= a@.len(),
            a@.len() == b@.len(),
            forall|k: int| 0 <= k < i ==> a@[k] == b@[k],
        decreases a@.len() - i,
    {
        if a[i] != b[i] {
            return false;
        }
        i = i + 1;
    }
    assert(a@ =~= b@);
    true
}

/// Whether two texts are the same.
pub fn str_eq(a: &str, b: &str) -> (r: bool)
    ensures
        r == (a@ == b@),
{
    let same: bool = bytes_eq(a.as_bytes(), b.as_bytes());
    proof {
        if same {
            lemma_encode_injective(a@, b@);
        }
    }
    same
}

/// The characters of a text.
pub fn chars_of(s: &str) -> (r: Vec<char>)
    ensures
        r@ == s@,
{
    let mut out: Vec<char> = Vec::new();
    for c in it: s.chars()
        invariant
            it.seq() == s@,
            out@ == s@.take(it.index()),
    {
        out.push(c);
        assert(s@.take(it.index() + 1) =~= s@.take(it.index()).push(c));
    }
    assert(s@.take(s@.len() as int) =~= s@);
    out
}

/// Appends the characters from `from` up to `to`.
pub fn push_chars(out: &mut String, chars: &[char], from: usize, to: usize)
    requires
        from <= to <= chars@.len(),
    ensures
        final(out)@ == old(out)@ + chars@.subrange(from as int, to as int),
{
    let mut i: usize = from;
    while i < to
        invariant
            from <= i <= to <= chars@.len(),
            out@ == old(out)@ + chars@.subrange(from as int, i as int),
        decreases to - i,
    {
        out.push(chars[i]);
        i = i + 1;
        assert(chars@.subrange(from as int, i as int) =~= chars@.subrange(
            from as int,
            i - 1,
        ).push(chars@[i - 1]));
    }
}

/// The text of the characters from `from` up to `to`.
pub fn string_of(chars: &[char], from: usize, to: usize) -> (r: String)
    requires
        from <= to <= chars@.len(),
    ensures
        r@ == chars@.subrange(from as int, to as int),
{
    let mut out: String = String::new();
    push_chars(&mut out, chars, from, to);
    out
}

/// The texts of a list.
pub open spec fn texts(v: Seq<String>) -> Seq<Seq<char>> {
    Seq::new(v.len(), |i: int| v[i]@)
}

/// The first `n` characters of a text, or all of a shorter one.
pub open spec fn first_chars(s: Seq<char>, n: int) -> Seq<char> {
    if s.len() <= n {
        s
    } else {
        s.take(n)
    }
}

/// The first `n` characters of a text, or all of a shorter one.
pub fn take_chars(s: &str, n: usize) -> (r: String)
    ensures
        r@ == first_chars(s@, n as int),
{
    let chars: Vec<char> = chars_of(s);
    let to: usize = if chars.len() < n {
        chars.len()
    } else {
        n
    };
    string_of(chars.as_slice(), 0, to)
}

/// An owned copy of a text.
pub fn own(s: &str) -> (r: String)
    ensures
        r@ == s@,
{
    String::from_str(s)
}

// ---------------------------------------------------------------------------
// Reading.
// ---------------------------------------------------------------------------

/// The characters with the Unicode property White_Space.
pub open spec fn white_space(c: char) -> bool {
    let v = c as u32;
    ||| 0x9 <= v <= 0xd
    ||| v == 0x20
    ||| v == 0x85
    ||| v == 0xa0
    ||| v == 0x1680
    ||| 0x2000 <= v <= 0x200a
    ||| v == 0x2028
    ||| v == 0x2029
    ||| v == 0x202f
    ||| v == 0x205f
    ||| v == 0x3000
}

/// `char::is_whitespace`: whether the character has the Unicode property
/// White_Space, here written out as the code points that have it.
pub assume_specification[ char::is_whitespace ](c: char) -> (r: bool)
    ensures
        r == white_space(c),
;

/// A text without the white space at its start.
pub open spec fn trim_start(s: Seq<char>) -> Seq<char>
    decreases s.len(),
{
    if s.len() > 0 && white_space(s[0]) {
        trim_start(s.drop_first())
    } else {
        s
    }
}

/// A text without the white space at its end.
pub open spec fn trim_end(s: Seq<char>) -> Seq<char>
    decreases s.len(),
{
    if s.len() > 0 && white_space(s.last()) {
        trim_end(s.drop_last())
    } else {
        s
    }
}

/// A text without the white space around it.
pub open spec fn trimmed(s: Seq<char>) -> Seq<char> {
    trim_end(trim_start(s))
}

/// The part of `chars` from `from` up to `to` without the white space around
/// it.
pub fn trim(chars: &[char], from: usize, to: usize) -> (r: (usize, usize))
    requires
        from <= to <= chars@.len(),
    ensures
        from <= r.0 <= r.1 <= to,
        chars@.subrange(r.0 as int, r.1 as int) == trimmed(
            chars@.subrange(from as int, to as int),
        ),
{
    let ghost whole = chars@.subrange(from as int, to as int);
    let mut a: usize = from;
    while a < to && chars[a].is_whitespace()
        invariant
            from <= a <= to <= chars@.len(),
            trim_start(whole) == trim_start(chars@.subrange(a as int, to as int)),
        decreases to - a,
    {
        assert(chars@.subrange(a as int, to as int).drop_first() =~= chars@.subrange(
            a + 1,
            to as int,
        ));
        a = a + 1;
    }
    let ghost left = chars@.subrange(a as int, to as int);
    assert(trim_start(whole) == left);
    let mut b: usize = to;
    while b > a && chars[b - 1].is_whitespace()
        invariant
            from <= a <= b <= to <= chars@.len(),
            trim_end(left) == trim_end(chars@.subrange(a as int, b as int)),
        decreases b,
    {
        assert(chars@.subrange(a as int, b as int).drop_last() =~= chars@.subrange(
            a as int,
            b - 1,
        ));
        b = b - 1;
    }
    (a, b)
}

/// What a character counts as a digit: up to fifteen, in either case, and
/// sixteen for one that is no digit.
pub open spec fn digit_value(c: char) -> int {
    let v = c as u32;
    if 0x30 <= v <= 0x39 {
        v - 0x30
    } else if 0x61 <= v <= 0x66 {
        v - 0x57
    } else if 0x41 <= v <= 0x46 {
        v - 0x37
    } else {
        16
    }
}

/// Whether every character is a digit in base `radix`.
pub open spec fn all_digits(s: Seq<char>, radix: int) -> bool {
    forall|i: int| 0 <= i < s.len() ==> digit_value(#[trigger] s[i]) < radix
}

/// The number that digits write in base `radix`.
pub open spec fn numeral_value(s: Seq<char>, radix: int) -> int
    decreases s.len(),
{
    if s.len() == 0 {
        0
    } else {
        numeral_value(s.drop_last(), radix) * radix + digit_value(s.last())
    }
}

/// The number that a text writes in base `radix`: digits, at least one, with
/// at most one plus sign in front. None where it is no such numeral or the
/// number is over `max`.
pub open spec fn parsed(s: Seq<char>, radix: int, max: int) -> Option<int> {
    let digits = if s.len() > 0 && s[0] == '+' {
        s.drop_first()
    } else {
        s
    };
    if digits.len() == 0 || !all_digits(digits, radix) || numeral_value(digits, radix) > max {
        None
    } else {
        Some(numeral_value(digits, radix))
    }
}

/// What a character counts as a digit.
pub fn digit_of(c: char) -> (r: u64)
    ensures
        r == digit_value(c),
        r <= 16,
{
    let v: u32 = c as u32;
    if 0x30 <= v && v <= 0x39 {
        (v - 0x30) as u64
    } else if 0x61 <= v && v <= 0x66 {
        (v - 0x57) as u64
    } else if 0x41 <= v && v <= 0x46 {
        (v - 0x37) as u64
    } else {
        16
    }
}

/// More digits write no smaller number.
pub proof fn lemma_numeral_grows(s: Seq<char>, radix: int, i: int)
    requires
        0 <= i <= s.len(),
        radix >= 1,
    ensures
        0 <= numeral_value(s.take(i), radix) <= numeral_value(s, radix),
    decreases s.len(),
{
    if s.len() == 0 {
        assert(s.take(i) =~= s);
    } else {
        let front = s.drop_last();
        let v = numeral_value(front, radix);
        if i == s.len() {
            assert(s.take(i) =~= s);
            lemma_numeral_grows(front, radix, front.len() as int);
            assert(front.take(front.len() as int) =~= front);
            assert(v * radix >= 0) by (nonlinear_arith)
                requires
                    v >= 0,
                    radix >= 1,
            ;
        } else {
            assert(s.take(i) =~= front.take(i));
            lemma_numeral_grows(front, radix, i);
            assert(v * radix >= v) by (nonlinear_arith)
                requires
                    v >= 0,
                    radix >= 1,
            ;
        }
    }
}

/// Reads a numeral in base `radix`, up to `max`.
pub fn parse_numeral(chars: &[char], from: usize, to: usize, radix: u64, max: u64) -> (r: Option<
    u64,
>)
    requires
        from <= to <= chars@.len(),
        2 <= radix <= 16,
    ensures
        r is Some <==> parsed(
            chars@.subrange(from as int, to as int),
            radix as int,
            max as int,
        ) is Some,
        r matches Some(n) ==> parsed(
            chars@.subrange(from as int, to as int),
            radix as int,
            max as int,
        ) == Some(n as int),
{
    let ghost s = chars@.subrange(from as int, to as int);
    let start: usize = if from < to && chars[from] == '+' {
        from + 1
    } else {
        from
    };
    let ghost digits = if s.len() > 0 && s[0] == '+' {
        s.drop_first()
    } else {
        s
    };
    assert(digits =~= chars@.subrange(start as int, to as int));
    if start == to {
        return None;
    }
    let mut i: usize = start;
    let mut acc: u64 = 0;
    assert(digits.take(0) =~= Seq::<char>::empty());
    while i < to
        invariant
            from <= start <= i <= to <= chars@.len(),
            2 <= radix <= 16,
            acc <= max,
            s == chars@.subrange(from as int, to as int),
            digits == chars@.subrange(start as int, to as int),
            digits == (if s.len() > 0 && s[0] == '+' {
                s.drop_first()
            } else {
                s
            }),
            acc == numeral_value(digits.take(i - start), radix as int),
            forall|k: int|
                0 <= k < i - start ==> digit_value(#[trigger] digits[k]) < radix,
        decreases to - i,
    {
        let d: u64 = digit_of(chars[i]);
        assert(digits[i - start] == chars@[i as int]);
        if d >= radix {
            return None;
        }
        let ghost next = digits.take(i - start + 1);
        proof {
            assert(next.drop_last() =~= digits.take(i - start));
            assert(next.last() == chars@[i as int]);
            lemma_numeral_grows(digits, radix as int, i - start + 1);
        }
        assert(numeral_value(next, radix as int) == acc * radix + d);
        match acc.checked_mul(radix) {
            None => {
                return None;
            },
            Some(m) => {
                match m.checked_add(d) {
                    None => {
                        return None;
                    },
                    Some(v) => {
                        if v > max {
                            return None;
                        }
                        acc = v;
                    },
                }
            },
        }
        i = i + 1;
    }
    assert(digits.take(to - start) =~= digits);
    Some(acc)
}

/// A letter of the Latin alphabet in lower case, any other character as it
/// is.
pub open spec fn lower(c: char) -> char {
    if 'A' <= c && c <= 'Z' {
        ((c as u32) + 32) as char
    } else {
        c
    }
}

/// Whether two texts are the same but for the case of Latin letters.
pub open spec fn same_but_case(a: Seq<char>, b: Seq<char>) -> bool {
    a.map_values(|c: char| lower(c)) == b.map_values(|c: char| lower(c))
}

// ---------------------------------------------------------------------------
// Texts of bounded length.
// ---------------------------------------------------------------------------

/// What a buffer of `room` bytes holds of a text: its first characters, as many
/// as fit.
pub open spec fn held(s: Seq<char>, room: int) -> Seq<char>
    decreases s.len(),
{
    if s.len() == 0 || encode_utf8(s).len() <= room {
        s
    } else {
        held(s.drop_last(), room)
    }
}

/// What a buffer of `room` bytes holds of a text.
pub fn hold(s: String, room: usize) -> (r: String)
    ensures
        r@ == held(s@, room as int),
{
    let mut kept: String = s;
    while kept.as_str().as_bytes().len() > room
        invariant
            held(kept@, room as int) == held(s@, room as int),
        decreases kept@.len(),
    {
        assert(encode_utf8(Seq::<char>::empty()) =~= seq![]);
        assert(kept@.len() > 0) by {
            if kept@.len() == 0 {
                assert(kept@ =~= Seq::<char>::empty());
            }
        }
        let _last: Option<char> = kept.pop();
    }
    kept
}

/// A text is held from its beginning on, within the room there is, and whole
/// where it fits.
pub proof fn law_held_text_fits(s: Seq<char>, room: int)
    requires
        0 <= room,
    ensures
        held(s, room).len() <= s.len(),
        held(s, room) == s.take(held(s, room).len() as int),
        encode_utf8(held(s, room)).len() <= room,
        encode_utf8(s).len() <= room ==> held(s, room) == s,
    decreases s.len(),
{
    assert(encode_utf8(Seq::<char>::empty()) =~= seq![]);
    if s.len() == 0 {
        assert(s =~= Seq::<char>::empty());
    }
    if s.len() == 0 || encode_utf8(s).len() <= room {
        assert(s.take(s.len() as int) =~= s);
    } else {
        let front = s.drop_last();
        law_held_text_fits(front, room);
        let n = held(front, room).len() as int;
        assert(front.take(n) =~= s.take(n));
    }
}

/// A number is written with the digits `0` to `9`, the last of them its
/// remainder by ten and those in front of it the number of tens, without a
/// zero in front, and reads back as it was. A sign stands in front of a
/// negative number alone, or of every number where one is asked for.
pub proof fn law_number_reads_back(n: int)
    requires
        0 <= n,
    ensures
        dec(n).len() > 0,
        dec(n).last() as u32 == 48 + n % 10,
        n < 10 ==> dec(n).len() == 1,
        n >= 10 ==> dec(n).drop_last() == dec(n / 10),
        n > 0 ==> dec(n)[0] != '0',
        forall|i: int| 0 <= i < dec(n).len() ==> '0' <= #[trigger] dec(n)[i] <= '9',
        all_digits(dec(n), 10),
        numeral_value(dec(n), 10) == n,
        dec_signed(n) == dec(n),
        n > 0 ==> dec_signed(-n) == seq!['-'] + dec(n),
        dec_plus(n) == seq!['+'] + dec(n),
        n > 0 ==> dec_plus(-n) == seq!['-'] + dec(n),
    decreases n,
{
    assert(digit_value(digit(n % 10)) == n % 10);
    if n < 10 {
        assert(dec(n).drop_last() =~= Seq::<char>::empty());
        assert(numeral_value(Seq::<char>::empty(), 10) == 0);
        assert(dec(n).last() == digit(n));
    } else {
        law_number_reads_back(n / 10);
        let front = dec(n / 10);
        assert(dec(n).drop_last() =~= front);
        assert forall|i: int| 0 <= i < dec(n).len() implies '0' <= #[trigger] dec(n)[i] <= '9'
            && digit_value(dec(n)[i]) < 10 by {
            if i < front.len() {
                assert(dec(n)[i] == front[i]);
            }
        }
        assert(dec(n)[0] == front[0]);
    }
}

/// Padding brings a number to its width with zeros in front, and a text with
/// spaces behind, and takes nothing away from what is wide enough.
pub proof fn law_padding_only_adds(n: int, s: Seq<char>, width: int)
    requires
        0 <= n,
        0 <= width,
    ensures
        ({
            let d = dec(n);
            let z = dec_padded(n, width).len() - d.len();
            &&& dec_padded(n, width).len() == if d.len() < width {
                width
            } else {
                d.len() as int
            }
            &&& dec_padded(n, width).skip(z) == d
            &&& forall|i: int| 0 <= i < z ==> #[trigger] dec_padded(n, width)[i] == '0'
        }),
        pad_right(s, width).len() == if s.len() < width {
            width
        } else {
            s.len() as int
        },
        pad_right(s, width).take(s.len() as int) == s,
        forall|i: int|
            s.len() <= i < pad_right(s, width).len() ==> #[trigger] pad_right(s, width)[i] == ' ',
{
    let d = dec(n);
    let z = dec_padded(n, width).len() - d.len();
    assert(dec_padded(n, width).skip(z) =~= d);
    assert(pad_right(s, width).take(s.len() as int) =~= s);
}

/// A hexadecimal numeral of a width has that many digits, `0` to `9` and `a` to
/// `f`, or `A` to `F` in capitals; its last digit is the remainder by sixteen.
pub proof fn law_hexadecimal_digits(n: int, width: nat)
    ensures
        hex(n, width).len() == width,
        hex_capitals(n, width).len() == width,
        width > 0 ==> {
            &&& hex(n, width).drop_last() == hex(n / 16, (width - 1) as nat)
            &&& hex(n, width).last() as u32 == if n % 16 < 10 {
                48 + n % 16
            } else {
                97 + (n % 16 - 10)
            }
            &&& hex_capitals(n, width).drop_last() == hex_capitals(n / 16, (width - 1) as nat)
            &&& hex_capitals(n, width).last() as u32 == if n % 16 < 10 {
                48 + n % 16
            } else {
                65 + (n % 16 - 10)
            }
        },
    decreases width,
{
    if width > 0 {
        let w = (width - 1) as nat;
        law_hexadecimal_digits(n / 16, w);
        assert(hex(n, width).drop_last() =~= hex(n / 16, w));
        assert(hex_capitals(n, width).drop_last() =~= hex_capitals(n / 16, w));
    }
}

/// What is held of a text is the longest part from its beginning that fits:
/// one more character would be too many bytes.
pub proof fn law_held_text_is_longest(s: Seq<char>, room: int)
    requires
        0 <= room,
        held(s, room).len() < s.len(),
    ensures
        encode_utf8(s.take((held(s, room).len() + 1) as int)).len() > room,
    decreases s.len(),
{
    let front = s.drop_last();
    if held(front, room).len() < front.len() {
        law_held_text_is_longest(front, room);
        law_held_text_fits(front, room);
        let n = held(s, room).len() + 1;
        assert(s.take(n as int) =~= front.take(n as int));
    } else {
        law_held_text_fits(front, room);
        assert(s.take(s.len() as int) =~= s);
    }
}

/// Trimming takes off white space alone, and all of it at either end: what is
/// left is the same text between its first and its last character that is
/// not white space.
pub proof fn law_trimming(front: Seq<char>, middle: Seq<char>, back: Seq<char>)
    requires
        forall|i: int| 0 <= i < front.len() ==> white_space(#[trigger] front[i]),
        forall|i: int| 0 <= i < back.len() ==> white_space(#[trigger] back[i]),
        middle.len() > 0 ==> !white_space(middle[0]) && !white_space(middle.last()),
    ensures
        trimmed(front + middle + back) == middle,
    decreases front.len() + back.len(),
{
    let s = front + middle + back;
    if front.len() > 0 {
        assert(s[0] == front[0]);
        assert(s.drop_first() =~= front.drop_first() + middle + back);
        assert forall|i: int| 0 <= i < front.drop_first().len() implies white_space(
            #[trigger] front.drop_first()[i],
        ) by {
            assert(front.drop_first()[i] == front[i + 1]);
        }
        law_trimming(front.drop_first(), middle, back);
    } else if middle.len() == 0 {
        if back.len() > 0 {
            assert(s =~= back);
            assert(s.drop_first() =~= front + middle + back.drop_first());
            assert forall|i: int| 0 <= i < back.drop_first().len() implies white_space(
                #[trigger] back.drop_first()[i],
            ) by {
                assert(back.drop_first()[i] == back[i + 1]);
            }
            law_trimming(front, middle, back.drop_first());
        } else {
            assert(s =~= middle);
        }
    } else {
        assert(s[0] == middle[0]);
        assert(trim_start(s) == s);
        if back.len() > 0 {
            assert(s.last() == back.last());
            assert(s.drop_last() =~= front + middle + back.drop_last());
            assert forall|i: int| 0 <= i < back.drop_last().len() implies white_space(
                #[trigger] back.drop_last()[i],
            ) by {
                assert(back.drop_last()[i] == back[i]);
            }
            law_trimming(front, middle, back.drop_last());
            assert(s.drop_last()[0] == middle[0]);
        } else {
            assert(s =~= middle);
        }
    }
}

/// A number that was written is read as it was, up to the largest value asked
/// for, with or without a plus sign in front; what is larger or no numeral is
/// refused.
pub proof fn law_numeral_is_read(n: int, max: int, digits: Seq<char>, radix: int)
    requires
        0 <= n,
        radix == 10 || radix == 16,
    ensures
        n <= max ==> parsed(dec(n), 10, max) == Some(n),
        n <= max ==> parsed(seq!['+'] + dec(n), 10, max) == Some(n),
        n > max ==> parsed(dec(n), 10, max) is None,
        parsed(seq![], radix, max) is None,
        parsed(digits, radix, max) matches Some(v) ==> 0 <= v <= max,
        !all_digits(digits, radix) && digits.len() > 0 && digits[0] != '+' ==> parsed(
            digits,
            radix,
            max,
        ) is None,
{
    law_number_reads_back(n);
    assert((seq!['+'] + dec(n)).drop_first() =~= dec(n));
    assert(dec(n)[0] != '+');
    let d = if digits.len() > 0 && digits[0] == '+' {
        digits.drop_first()
    } else {
        digits
    };
    lemma_numeral_grows(d, radix, 0);
}

/// Zeros in front do not change the number that a numeral writes.
pub proof fn law_zeros_do_not_count(n: int, z: int)
    requires
        0 <= n,
        0 <= z,
    ensures
        numeral_value(repeat('0', z) + dec(n), 10) == n,
        all_digits(repeat('0', z) + dec(n), 10),
        dec(n).len() > 0,
    decreases n,
{
    let s = repeat('0', z) + dec(n);
    if n < 10 {
        lemma_zeros(z);
        assert(s.drop_last() =~= repeat('0', z));
        assert(s.last() == digit(n));
        assert(digit_value(digit(n)) == n);
        assert forall|i: int| 0 <= i < s.len() implies digit_value(#[trigger] s[i]) < 10 by {}
    } else {
        law_zeros_do_not_count(n / 10, z);
        let front = repeat('0', z) + dec(n / 10);
        assert(s.drop_last() =~= front);
        assert(s.last() == digit(n % 10));
        assert(digit_value(digit(n % 10)) == n % 10);
        assert forall|i: int| 0 <= i < s.len() implies digit_value(#[trigger] s[i]) < 10 by {
            if i < front.len() {
                assert(s[i] == front[i]);
            }
        }
    }
}

/// Zeros write zero.
proof fn lemma_zeros(z: int)
    requires
        0 <= z,
    ensures
        numeral_value(repeat('0', z), 10) == 0,
    decreases z,
{
    if z > 0 {
        lemma_zeros(z - 1);
        assert(repeat('0', z).drop_last() =~= repeat('0', z - 1));
    }
}

/// The texts of a list are its strings, all of them and each of them whole.
pub proof fn law_texts_are_whole(v: Seq<String>)
    ensures
        texts(v).len() == v.len(),
        forall|i: int| 0 <= i < v.len() ==> #[trigger] texts(v)[i] == v[i]@,
{
}

/// The first characters of a text: all of a short one, and as many as are asked
/// for of a longer one.
pub proof fn law_first_characters(s: Seq<char>, n: int)
    requires
        0 <= n,
    ensures
        s.len() <= n ==> first_chars(s, n) == s,
        s.len() > n ==> first_chars(s, n).len() == n,
        forall|i: int| 0 <= i < n && i < s.len() ==> #[trigger] first_chars(s, n)[i] == s[i],
{
}

/// Two texts are the same but for case where they are equally long and each
/// character is the same or the same letter of the other case.
pub proof fn law_same_but_case(a: Seq<char>, b: Seq<char>)
    ensures
        same_but_case(a, b) <==> {
            &&& a.len() == b.len()
            &&& forall|i: int|
                0 <= i < a.len() ==> {
                    ||| #[trigger] a[i] == b[i]
                    ||| 'A' <= a[i] <= 'Z' && b[i] as u32 == (a[i] as u32) + 32
                    ||| 'A' <= b[i] <= 'Z' && a[i] as u32 == (b[i] as u32) + 32
                }
        },
{
    let la = a.map_values(|c: char| lower(c));
    let lb = b.map_values(|c: char| lower(c));
    if same_but_case(a, b) {
        assert(la.len() == lb.len());
        assert forall|i: int| 0 <= i < a.len() implies {
            ||| #[trigger] a[i] == b[i]
            ||| 'A' <= a[i] <= 'Z' && b[i] as u32 == (a[i] as u32) + 32
            ||| 'A' <= b[i] <= 'Z' && a[i] as u32 == (b[i] as u32) + 32
        } by {
            assert(la[i] == lower(a[i]));
            assert(lb[i] == lower(b[i]));
        }
    }
    if a.len() == b.len() && forall|i: int|
        0 <= i < a.len() ==> {
            ||| #[trigger] a[i] == b[i]
            ||| 'A' <= a[i] <= 'Z' && b[i] as u32 == (a[i] as u32) + 32
            ||| 'A' <= b[i] <= 'Z' && a[i] as u32 == (b[i] as u32) + 32
        } {
        assert forall|i: int| 0 <= i < a.len() implies la[i] == lb[i] by {
            assert(a[i] == a[i]);
        }
        assert(la =~= lb);
    }
}

/// Trimming the end takes off all white space there and nothing else.
pub proof fn law_trimming_the_end(s: Seq<char>, back: Seq<char>)
    requires
        forall|i: int| 0 <= i < back.len() ==> white_space(#[trigger] back[i]),
        s.len() > 0 ==> !white_space(s.last()),
    ensures
        trim_end(s + back) == s,
    decreases back.len(),
{
    if back.len() > 0 {
        let front = back.drop_last();
        assert((s + back).last() == back[back.len() - 1]);
        assert((s + back).drop_last() =~= s + front);
        assert forall|i: int| 0 <= i < front.len() implies white_space(#[trigger] front[i]) by {
            assert(front[i] == back[i]);
        }
        law_trimming_the_end(s, front);
    } else {
        assert(s + back =~= s);
    }
}

} // verus!
