//! Word wrap: cutting a text into lines of at most so many characters.
use vstd::prelude::*;
use vstd::string::*;
use vstd::utf8::*;

use crate::text::{
    byte_offset, char_len, chars_of, lemma_byte_offset_bounds, lemma_byte_offset_step,
};

verus! {

/// A line: the characters from the first number up to the second.
pub type Line = (int, int);

/// The first line break at or after `p`, or the end of the text.
pub open spec fn paragraph_end(s: Seq<char>, p: int) -> int
    decreases s.len() - p,
{
    if p >= s.len() || s[p] == '\n' {
        p
    } else {
        paragraph_end(s, p + 1)
    }
}

/// The last space from `p` up to `i`, or less than `p` where there is none.
pub open spec fn last_space(s: Seq<char>, p: int, i: int) -> int
    decreases i - p,
{
    if i <= p {
        p - 1
    } else if s[i - 1] == ' ' {
        i - 1
    } else {
        last_space(s, p, i - 1)
    }
}

/// The lines of a text from character `p` on. A line ends at a line break; one
/// that would hold more than `cols` characters ends at the last space among
/// its first `cols` characters, which is dropped, or behind those characters
/// where they have none. The last line is there even when it is empty. With
/// no room for any character, each paragraph that has some is one empty line
/// and then itself.
pub open spec fn wrapped(s: Seq<char>, p: int, cols: int) -> Seq<Line>
    decreases s.len() - p,
{
    if p < 0 || p > s.len() {
        seq![]
    } else {
        let e = paragraph_end(s, p);
        if e - p <= cols || cols <= 0 || p + cols >= s.len() {
            let line = if cols <= 0 && e > p {
                seq![(p, p), (p, e)]
            } else {
                seq![(p, e)]
            };
            if p <= e < s.len() {
                line + wrapped(s, e + 1, cols)
            } else {
                line
            }
        } else {
            let space = last_space(s, p, p + cols);
            if p <= space < p + cols {
                seq![(p, space)] + wrapped(s, space + 1, cols)
            } else {
                seq![(p, p + cols)] + wrapped(s, p + cols, cols)
            }
        }
    }
}

/// What a paragraph's end is.
pub proof fn lemma_paragraph_end(s: Seq<char>, p: int)
    requires
        0 <= p <= s.len(),
    ensures
        p <= paragraph_end(s, p) <= s.len(),
        forall|k: int| p <= k < paragraph_end(s, p) ==> s[k] != '\n',
        paragraph_end(s, p) < s.len() ==> s[paragraph_end(s, p)] == '\n',
    decreases s.len() - p,
{
    if p < s.len() && s[p] != '\n' {
        lemma_paragraph_end(s, p + 1);
    }
}

/// A paragraph's end is known by what stands there.
pub proof fn lemma_paragraph_end_is(s: Seq<char>, p: int, e: int)
    requires
        0 <= p <= e <= s.len(),
        forall|k: int| p <= k < e ==> s[k] != '\n',
        e < s.len() ==> s[e] == '\n',
    ensures
        paragraph_end(s, p) == e,
{
    lemma_paragraph_end(s, p);
}

/// What the last space is.
pub proof fn lemma_last_space(s: Seq<char>, p: int, i: int)
    requires
        0 <= p <= i <= s.len(),
    ensures
        p - 1 <= last_space(s, p, i) < i || i == p,
        last_space(s, p, i) >= p ==> s[last_space(s, p, i)] == ' ',
        forall|k: int| last_space(s, p, i) < k < i ==> s[k] != ' ',
    decreases i - p,
{
    if i > p && s[i - 1] != ' ' {
        lemma_last_space(s, p, i - 1);
    }
}

/// Cuts the characters of a text into lines.
pub fn wrap_chars(chars: &[char], cols: usize) -> (r: Vec<(usize, usize)>)
    ensures
        r@.map_values(|l: (usize, usize)| (l.0 as int, l.1 as int)) == wrapped(
            chars@,
            0,
            cols as int,
        ),
{
    let n: usize = chars.len();
    let mut lines: Vec<(usize, usize)> = Vec::new();
    let mut p: usize = 0;
    let mut done: bool = false;
    let ghost as_line = |l: (usize, usize)| (l.0 as int, l.1 as int);
    assert(lines@.map_values(as_line) + wrapped(chars@, 0, cols as int) =~= wrapped(
        chars@,
        0,
        cols as int,
    ));
    while !done
        invariant
            n == chars@.len(),
            p <= n,
            as_line == (|l: (usize, usize)| (l.0 as int, l.1 as int)),
            !done ==> lines@.map_values(as_line) + wrapped(chars@, p as int, cols as int)
                == wrapped(chars@, 0, cols as int),
            done ==> lines@.map_values(as_line) == wrapped(chars@, 0, cols as int),
        decreases n - p + (if done { 0int } else { 1int }),
    {
        let ghost so_far = lines@.map_values(as_line);
        let ghost whole = wrapped(chars@, 0, cols as int);
        let ghost start = p as int;
        let mut e: usize = p;
        while e < n && chars[e] != '\n' && (cols == 0 || e - p <= cols)
            invariant
                p <= e <= n,
                n == chars@.len(),
                cols > 0 ==> e - p <= cols + 1,
                forall|k: int| p <= k < e ==> chars@[k] != '\n',
            decreases n - e,
        {
            e = e + 1;
        }
        proof {
            lemma_paragraph_end(chars@, p as int);
        }
        if cols == 0 || e - p <= cols {
            proof {
                lemma_paragraph_end_is(chars@, p as int, e as int);
            }
            if cols == 0 && e > p {
                lines.push((p, p));
            }
            lines.push((p, e));
            let ghost line = if cols <= 0 && e > p {
                seq![(p as int, p as int), (p as int, e as int)]
            } else {
                seq![(p as int, e as int)]
            };
            assert(lines@.map_values(as_line) =~= so_far + line);
            if e < n {
                p = e + 1;
                assert(lines@.map_values(as_line) + wrapped(chars@, p as int, cols as int)
                    =~= so_far + wrapped(chars@, start, cols as int));
            } else {
                done = true;
            }
        } else {
            let i: usize = p + cols;
            let mut s: usize = i;
            while s > p && chars[s - 1] != ' '
                invariant
                    p <= s <= i <= n,
                    n == chars@.len(),
                    last_space(chars@, p as int, i as int) == last_space(
                        chars@,
                        p as int,
                        s as int,
                    ),
                decreases s,
            {
                s = s - 1;
            }
            if s > p {
                lines.push((p, s - 1));
                assert(lines@.map_values(as_line) =~= so_far.push((p as int, s - 1)));
                p = s;
            } else {
                lines.push((p, i));
                assert(lines@.map_values(as_line) =~= so_far.push((p as int, i as int)));
                p = i;
            }
            assert(lines@.map_values(as_line) + wrapped(chars@, p as int, cols as int) =~= so_far
                + wrapped(chars@, start, cols as int));
        }
    }
    lines
}

/// The byte offset at which each character of a text begins, and its length.
pub fn byte_offsets(chars: &[char]) -> (r: Vec<usize>)
    requires
        encode_utf8(chars@).len() <= usize::MAX,
    ensures
        r@.len() == chars@.len() + 1,
        forall|k: int| 0 <= k <= chars@.len() ==> #[trigger] r@[k] == byte_offset(chars@, k),
{
    let mut offsets: Vec<usize> = Vec::new();
    let mut at: usize = 0;
    offsets.push(0);
    proof {
        lemma_byte_offset_bounds(chars@, 0);
    }
    let mut i: usize = 0;
    while i < chars.len()
        invariant
            i <= chars@.len(),
            offsets@.len() == i + 1,
            at == byte_offset(chars@, i as int),
            encode_utf8(chars@).len() <= usize::MAX,
            forall|k: int| 0 <= k <= i ==> #[trigger] offsets@[k] == byte_offset(chars@, k),
        decreases chars@.len() - i,
    {
        proof {
            lemma_byte_offset_step(chars@, i as int);
            lemma_byte_offset_bounds(chars@, i + 1);
        }
        at = at + char_len(chars[i]);
        offsets.push(at);
        i = i + 1;
    }
    offsets
}

/// Cuts a text into lines of at most `cols` characters, each given by the
/// byte at which it begins and the byte at which it ends.
pub fn wrap_ranges(text: &str, cols: usize) -> (r: Vec<(usize, usize)>)
    ensures
        r@.len() == wrapped(text@, 0, cols as int).len(),
        forall|k: int|
            0 <= k < r@.len() ==> (#[trigger] r@[k]).0 == byte_offset(
                text@,
                wrapped(text@, 0, cols as int)[k].0,
            ) && r@[k].1 == byte_offset(text@, wrapped(text@, 0, cols as int)[k].1),
{
    let total: usize = text.as_bytes().len();
    let chars: Vec<char> = chars_of(text);
    let lines: Vec<(usize, usize)> = wrap_chars(chars.as_slice(), cols);
    let offsets: Vec<usize> = byte_offsets(chars.as_slice());
    let ghost whole = wrapped(text@, 0, cols as int);
    let ghost as_line = |l: (usize, usize)| (l.0 as int, l.1 as int);
    assert(lines@.map_values(as_line) =~= whole);
    let mut out: Vec<(usize, usize)> = Vec::new();
    let mut i: usize = 0;
    while i < lines.len()
        invariant
            i <= lines@.len(),
            out@.len() == i,
            chars@ == text@,
            whole == wrapped(text@, 0, cols as int),
            as_line == (|l: (usize, usize)| (l.0 as int, l.1 as int)),
            lines@.map_values(as_line) == whole,
            lines@.len() == whole.len(),
            offsets@.len() == chars@.len() + 1,
            forall|k: int|
                0 <= k <= chars@.len() ==> #[trigger] offsets@[k] == byte_offset(chars@, k),
            forall|k: int|
                0 <= k < i ==> (#[trigger] out@[k]).0 == byte_offset(text@, whole[k].0)
                    && out@[k].1 == byte_offset(text@, whole[k].1),
        decreases lines@.len() - i,
    {
        let line: (usize, usize) = lines[i];
        proof {
            assert(lines@.map_values(as_line)[i as int] == whole[i as int]);
            law_lines_lie_in_text(text@, 0, cols as int);
        }
        out.push((offsets[line.0], offsets[line.1]));
        i = i + 1;
    }
    out
}

/// Every line is a part of the text from `p` on: it begins no earlier than
/// `p`, ends no earlier than it begins, and ends in the text. There is at
/// least one line, and the last one ends where the text does.
pub proof fn law_lines_lie_in_text(s: Seq<char>, p: int, cols: int)
    requires
        0 <= p <= s.len(),
    ensures
        wrapped(s, p, cols).len() > 0,
        wrapped(s, p, cols)[0].0 == p,
        wrapped(s, p, cols).last().1 == s.len(),
        forall|k: int|
            0 <= k < wrapped(s, p, cols).len() ==> p <= (#[trigger] wrapped(s, p, cols)[k]).0
                <= wrapped(s, p, cols)[k].1 <= s.len(),
    decreases s.len() - p,
{
    let e = paragraph_end(s, p);
    lemma_paragraph_end(s, p);
    if e - p <= cols || cols <= 0 {
        if e < s.len() {
            law_lines_lie_in_text(s, e + 1, cols);
        }
    } else {
        let space = last_space(s, p, p + cols);
        lemma_last_space(s, p, p + cols);
        if p <= space < p + cols {
            law_lines_lie_in_text(s, space + 1, cols);
        } else {
            law_lines_lie_in_text(s, p + cols, cols);
        }
    }
}

/// No line holds a line break, and none is longer than there is room for.
pub proof fn law_lines_fit(s: Seq<char>, p: int, cols: int)
    requires
        0 <= p <= s.len(),
        cols > 0,
    ensures
        forall|k: int|
            0 <= k < wrapped(s, p, cols).len() ==> (#[trigger] wrapped(s, p, cols)[k]).1
                - wrapped(s, p, cols)[k].0 <= cols,
        forall|k: int, c: int|
            0 <= k < wrapped(s, p, cols).len() && (#[trigger] wrapped(s, p, cols)[k]).0 <= c
                < wrapped(s, p, cols)[k].1 ==> #[trigger] s[c] != '\n',
    decreases s.len() - p,
{
    let lines = wrapped(s, p, cols);
    let e = paragraph_end(s, p);
    lemma_paragraph_end(s, p);
    let next = if e - p <= cols {
        e + 1
    } else {
        let space = last_space(s, p, p + cols);
        lemma_last_space(s, p, p + cols);
        if p <= space < p + cols {
            space + 1
        } else {
            p + cols
        }
    };
    if next <= s.len() {
        law_lines_fit(s, next, cols);
        let rest = wrapped(s, next, cols);
        assert forall|k: int| 0 <= k < lines.len() implies (#[trigger] lines[k]).1 - lines[k].0
            <= cols by {
            if k > 0 {
                assert(lines[k] == rest[k - 1]);
            }
        }
        assert forall|k: int, c: int|
            0 <= k < lines.len() && (#[trigger] lines[k]).0 <= c < lines[k].1 implies
            #[trigger] s[c] != '\n' by {
            if k > 0 {
                assert(lines[k] == rest[k - 1]);
            }
        }
    }
}

/// Each line begins where the one in front of it ended, or one character
/// further on; that character is then a line break or a space, and it is all
/// that wrapping drops.
pub proof fn law_only_breaks_are_dropped(s: Seq<char>, p: int, cols: int)
    requires
        0 <= p <= s.len(),
        cols > 0,
    ensures
        forall|k: int|
            0 <= k < wrapped(s, p, cols).len() - 1 ==> {
                let end = (#[trigger] wrapped(s, p, cols)[k]).1;
                let next = wrapped(s, p, cols)[k + 1].0;
                next == end || (next == end + 1 && end < s.len() && (s[end] == '\n' || s[end]
                    == ' '))
            },
    decreases s.len() - p,
{
    let lines = wrapped(s, p, cols);
    let e = paragraph_end(s, p);
    lemma_paragraph_end(s, p);
    let next = if e - p <= cols {
        e + 1
    } else {
        let space = last_space(s, p, p + cols);
        lemma_last_space(s, p, p + cols);
        if p <= space < p + cols {
            space + 1
        } else {
            p + cols
        }
    };
    if next <= s.len() {
        law_only_breaks_are_dropped(s, next, cols);
        law_lines_lie_in_text(s, next, cols);
        let rest = wrapped(s, next, cols);
        assert forall|k: int| 0 <= k < lines.len() - 1 implies {
            let end = (#[trigger] lines[k]).1;
            let after = lines[k + 1].0;
            after == end || (after == end + 1 && end < s.len() && (s[end] == '\n' || s[end]
                == ' '))
        } by {
            assert(lines[k + 1] == rest[k]);
            if k > 0 {
                assert(lines[k] == rest[k - 1]);
            }
        }
    }
}

/// Lines are as long as they can be. Where the rest of a paragraph fits in a
/// line, it is one; where it does not, the line ends at the last space within
/// its columns, which is dropped, and where there is none, after its last
/// column. The text behind it is cut into lines in the same way.
pub proof fn law_lines_are_filled(s: Seq<char>, p: int, e: int, cols: int, at: int)
    requires
        0 <= p <= e <= s.len(),
        forall|k: int| p <= k < e ==> #[trigger] s[k] != '\n',
        e < s.len() ==> s[e] == '\n',
        cols > 0,
        p - 1 <= at < p + cols,
        at >= p ==> s[at] == ' ',
        e - p > cols ==> forall|k: int| at < k < p + cols ==> #[trigger] s[k] != ' ',
    ensures
        e - p <= cols && e < s.len() ==> wrapped(s, p, cols) == seq![(p, e)] + wrapped(
            s,
            e + 1,
            cols,
        ),
        e - p <= cols && e == s.len() ==> wrapped(s, p, cols) == seq![(p, e)],
        e - p > cols && at >= p ==> wrapped(s, p, cols) == seq![(p, at)] + wrapped(
            s,
            at + 1,
            cols,
        ),
        e - p > cols && at < p ==> wrapped(s, p, cols) == seq![(p, p + cols)] + wrapped(
            s,
            p + cols,
            cols,
        ),
{
    lemma_paragraph_end_is(s, p, e);
    if e - p > cols {
        lemma_last_space(s, p, p + cols);
        let space = last_space(s, p, p + cols);
        if space < at {
            assert(s[at] == ' ');
        }
        if at < space {
            assert(s[space] == ' ');
        }
        assert(space == at);
    }
}

} // verus!
