use t5s3_epaper_ui::text::{
    char_len, digit_of, hold, parse_numeral, push_dec, push_dec_padded, push_hex, push_hex_capitals,
    push_int, push_padded, push_plus, str_eq, take_chars, trim,
};
use t5s3_epaper_ui::wrap::wrap_ranges;

fn written(f: impl Fn(&mut String)) -> String {
    let mut s = String::from(">");
    f(&mut s);
    s
}

#[test]
fn numerals_are_written() {
    assert_eq!(written(|s| push_dec(s, 0)), ">0");
    assert_eq!(written(|s| push_dec(s, 9)), ">9");
    assert_eq!(written(|s| push_dec(s, 10)), ">10");
    assert_eq!(written(|s| push_dec(s, u64::MAX)), ">18446744073709551615");
    assert_eq!(written(|s| push_int(s, -120)), ">-120");
    assert_eq!(written(|s| push_int(s, i64::MIN)), ">-9223372036854775808");
    assert_eq!(written(|s| push_plus(s, 0)), ">+0");
    assert_eq!(written(|s| push_plus(s, -7)), ">-7");
    assert_eq!(written(|s| push_dec_padded(s, 7, 4)), ">0007");
    assert_eq!(written(|s| push_dec_padded(s, 12345, 4)), ">12345");
    assert_eq!(written(|s| push_hex(s, 0xbeef, 8)), ">0000beef");
    assert_eq!(written(|s| push_hex(s, 0x12345678, 4)), ">5678");
    assert_eq!(written(|s| push_hex_capitals(s, 0xabcd, 6)), ">00ABCD");
    assert_eq!(written(|s| push_padded(s, "ab\u{e9}", 6)), ">ab\u{e9}   ");
    assert_eq!(written(|s| push_padded(s, "abcdef", 3)), ">abcdef");
}

fn read(s: &str, radix: u64, max: u64) -> Option<u64> {
    let chars: Vec<char> = s.chars().collect();
    parse_numeral(&chars, 0, chars.len(), radix, max)
}

#[test]
fn numerals_are_read() {
    assert_eq!(read("0", 10, 100), Some(0));
    assert_eq!(read("+42", 10, 100), Some(42));
    assert_eq!(read("101", 10, 100), None);
    assert_eq!(read("", 10, 100), None);
    assert_eq!(read("+", 10, 100), None);
    assert_eq!(read("-1", 10, 100), None);
    assert_eq!(read("1 ", 10, 100), None);
    assert_eq!(read("fF", 16, 1000), Some(255));
    assert_eq!(read("fg", 16, 1000), None);
    assert_eq!(read("18446744073709551615", 10, u64::MAX), Some(u64::MAX));
    assert_eq!(read("18446744073709551616", 10, u64::MAX), None);
    assert_eq!(digit_of('x'), 16);
}

#[test]
fn white_space_is_trimmed() {
    let chars: Vec<char> = " \t\u{a0}ab c\u{3000}\n".chars().collect();
    let (a, b) = trim(&chars, 0, chars.len());
    let kept: String = chars[a..b].iter().collect();
    assert_eq!(kept, "ab c");
    let blank: Vec<char> = " \r\n".chars().collect();
    let (a, b) = trim(&blank, 0, 3);
    assert_eq!(a, b);
}

#[test]
fn white_space_is_what_unicode_says() {
    // The characters of every plane that trimming takes away.
    let mut white = Vec::new();
    for v in 0..=0x10ffffu32 {
        if let Some(c) = char::from_u32(v) {
            let (a, b) = trim(&[c], 0, 1);
            if a == b {
                white.push(v);
            }
        }
    }
    let listed: Vec<u32> = vec![
        0x9, 0xa, 0xb, 0xc, 0xd, 0x20, 0x85, 0xa0, 0x1680, 0x2000, 0x2001, 0x2002, 0x2003, 0x2004,
        0x2005, 0x2006, 0x2007, 0x2008, 0x2009, 0x200a, 0x2028, 0x2029, 0x202f, 0x205f, 0x3000,
    ];
    assert_eq!(white, listed);
}

#[test]
fn texts_compare() {
    assert!(str_eq("na\u{ef}ve", "na\u{ef}ve"));
    assert!(!str_eq("naive", "na\u{ef}ve"));
    assert!(!str_eq("a", ""));
    assert_eq!(take_chars("\u{e9}\u{e9}\u{e9}", 2), "\u{e9}\u{e9}");
    assert_eq!(take_chars("ab", 5), "ab");
    assert_eq!(char_len('a'), 1);
    assert_eq!(char_len('\u{e9}'), 2);
    assert_eq!(char_len('\u{20ac}'), 3);
    assert_eq!(char_len('\u{1f600}'), 4);
}

fn lines(text: &str, cols: usize) -> Vec<&str> {
    wrap_ranges(text, cols).into_iter().map(|(a, b)| &text[a..b]).collect()
}

#[test]
fn text_wraps_at_spaces() {
    assert_eq!(lines("", 5), vec![""]);
    assert_eq!(lines("hello world", 5), vec!["hello", "", "world"]);
    assert_eq!(lines("hello world", 6), vec!["hello", "world"]);
    assert_eq!(lines("hello world again", 11), vec!["hello", "world again"]);
    assert_eq!(lines("abcdefgh", 3), vec!["abc", "def", "gh"]);
    assert_eq!(lines("ab\ncd\n", 10), vec!["ab", "cd", ""]);
    assert_eq!(lines("abc\nd", 3), vec!["abc", "d"]);
    assert_eq!(lines("\u{e9}\u{e9} \u{e9}", 3), vec!["\u{e9}\u{e9}", "\u{e9}"]);
}

#[test]
fn no_room_for_a_character() {
    assert_eq!(wrap_ranges("ab\n\nc", 0), vec![(0, 0), (0, 2), (3, 3), (4, 4), (4, 5)]);
}

// The lines as the field's cursor walks them, one character after another.
fn wrap_by_walking(text: &str, cols: usize) -> Vec<(usize, usize)> {
    let mut out = Vec::new();
    let mut start = 0;
    let mut count = 0;
    let mut last_space = None;
    for (i, c) in text.char_indices() {
        if c == '\n' {
            out.push((start, i));
            start = i + 1;
            count = 0;
            last_space = None;
            continue;
        }
        if count == cols {
            match last_space {
                Some(s) => {
                    out.push((start, s));
                    start = s + 1;
                }
                None => {
                    out.push((start, i));
                    start = i;
                }
            }
            count = text[start..i].chars().count();
            last_space = None;
        }
        if c == ' ' {
            last_space = Some(i);
        }
        count += 1;
    }
    out.push((start, text.len()));
    out
}

#[test]
fn wrapping_agrees_with_walking() {
    let letters = ['a', ' ', '\n', '\u{e9}', 'b', ' '];
    let mut seed = 12345u64;
    for _ in 0..3000 {
        let mut text = String::new();
        seed = seed.wrapping_mul(6364136223846793005).wrapping_add(1442695040888963407);
        let n = (seed >> 33) % 24;
        for _ in 0..n {
            seed = seed.wrapping_mul(6364136223846793005).wrapping_add(1442695040888963407);
            text.push(letters[((seed >> 33) % 6) as usize]);
        }
        for cols in 0..8 {
            assert_eq!(wrap_ranges(&text, cols), wrap_by_walking(&text, cols), "{:?}", text);
        }
    }
}

#[test]
fn held_text_fits() {
    assert_eq!(hold(String::from("abc"), 3), "abc");
    assert_eq!(hold(String::from("abcd"), 3), "abc");
    assert_eq!(hold(String::from("ab\u{e9}"), 3), "ab");
    assert_eq!(hold(String::from("\u{e9}"), 1), "");
}
