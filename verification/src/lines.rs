//! The lines of a text.
use vstd::prelude::*;

verus! {

/// Where the first `c` at or after `i` stands, or the end.
pub open spec fn find_char(s: Seq<char>, c: char, i: int) -> int
    decreases s.len() - i,
{
    if i >= s.len() || s[i] == c {
        i
    } else {
        find_char(s, c, i + 1)
    }
}

/// What a search stops at.
pub proof fn lemma_find_char(s: Seq<char>, c: char, i: int)
    requires
        0 <= i <= s.len(),
    ensures
        i <= find_char(s, c, i) <= s.len(),
        forall|k: int| i <= k < find_char(s, c, i) ==> s[k] != c,
        find_char(s, c, i) < s.len() ==> s[find_char(s, c, i)] == c,
    decreases s.len() - i,
{
    if i < s.len() && s[i] != c {
        lemma_find_char(s, c, i + 1);
    }
}

/// A line without the carriage return at its end.
pub open spec fn without_return(s: Seq<char>) -> Seq<char> {
    if s.len() > 0 && s.last() == '\r' {
        s.drop_last()
    } else {
        s
    }
}

/// The lines of a text from character `i` on. Each but the last ends with a
/// line break, with or without a carriage return in front of it; the last one
/// is there where anything follows the last line break.
pub open spec fn text_lines(s: Seq<char>, i: int) -> Seq<Seq<char>>
    decreases s.len() - i,
{
    if i < 0 || i >= s.len() {
        seq![]
    } else {
        let e = find_char(s, '\n', i);
        if i <= e < s.len() {
            seq![without_return(s.subrange(i, e))] + text_lines(s, e + 1)
        } else {
            seq![s.subrange(i, s.len() as int)]
        }
    }
}

/// A search that starts at a place finds what a search from there finds in
/// what follows.
pub proof fn lemma_find_in_rest(s: Seq<char>, c: char, i: int, k: int)
    requires
        0 <= i <= s.len(),
        0 <= k <= s.len() - i,
    ensures
        find_char(s, c, i + k) == i + find_char(s.skip(i), c, k),
    decreases s.len() - i - k,
{
    if i + k < s.len() {
        assert(s.skip(i)[k] == s[i + k]);
        if s[i + k] != c {
            lemma_find_in_rest(s, c, i, k + 1);
        }
    }
}

/// The lines from a place on are the lines of what follows.
pub proof fn lemma_lines_of_rest(s: Seq<char>, i: int, k: int)
    requires
        0 <= i <= s.len(),
        0 <= k <= s.len() - i,
    ensures
        text_lines(s, i + k) == text_lines(s.skip(i), k),
    decreases s.len() - i - k,
{
    let t = s.skip(i);
    if i + k < s.len() {
        lemma_find_in_rest(s, '\n', i, k);
        lemma_find_char(t, '\n', k);
        let e = find_char(t, '\n', k);
        if e < t.len() {
            assert(s.subrange(i + k, i + e) =~= t.subrange(k, e));
            lemma_lines_of_rest(s, i, e + 1);
        } else {
            assert(s.subrange(i + k, s.len() as int) =~= t.subrange(k, t.len() as int));
        }
    }
}

/// A text that is empty or ends with a line break, so that what is added to it
/// begins a line.
pub open spec fn whole_lines(s: Seq<char>) -> bool {
    s.len() == 0 || s.last() == '\n'
}

/// Lines behind whole lines are added to them.
pub proof fn lemma_lines_concat(a: Seq<char>, b: Seq<char>, i: int)
    requires
        whole_lines(a),
        0 <= i <= a.len(),
    ensures
        text_lines(a + b, i) == text_lines(a, i) + text_lines(b, 0),
    decreases a.len() - i,
{
    let s = a + b;
    if i == a.len() {
        assert(s.skip(i) =~= b);
        lemma_lines_of_rest(s, i, 0);
        assert(text_lines(a, i) + text_lines(b, 0) =~= text_lines(b, 0));
    } else {
        lemma_find_char(a, '\n', i);
        lemma_find_char(s, '\n', i);
        let e = find_char(a, '\n', i);
        assert(e < a.len()) by {
            if e == a.len() {
                assert(a[a.len() - 1] != '\n');
            }
        }
        let f = find_char(s, '\n', i);
        assert(s[e] == '\n');
        assert(f <= e);
        if f < e {
            assert(a[f] == s[f]);
        }
        assert(s.subrange(i, e) =~= a.subrange(i, e));
        lemma_lines_concat(a, b, e + 1);
        assert(text_lines(s, i) =~= text_lines(a, i) + text_lines(b, 0));
    }
}

/// Splits a text into its lines, each given by where it begins and ends.
pub fn split_lines(chars: &[char]) -> (r: Vec<(usize, usize)>)
    ensures
        r@.len() == text_lines(chars@, 0).len(),
        forall|k: int|
            0 <= k < r@.len() ==> (#[trigger] r@[k]).0 <= r@[k].1 <= chars@.len()
                && chars@.subrange(r@[k].0 as int, r@[k].1 as int) == text_lines(chars@, 0)[k],
{
    let n: usize = chars.len();
    let ghost all = text_lines(chars@, 0);
    let mut ranges: Vec<(usize, usize)> = Vec::new();
    let mut start: usize = 0;
    let ghost mut done: int = 0;
    assert(all.skip(0) =~= all);
    while start < n
        invariant
            n == chars@.len(),
            start <= n,
            all == text_lines(chars@, 0),
            0 <= done <= all.len(),
            all.skip(done) == text_lines(chars@, start as int),
            ranges@.len() == done,
            forall|k: int|
                0 <= k < done ==> (#[trigger] ranges@[k]).0 <= ranges@[k].1 <= chars@.len()
                    && chars@.subrange(ranges@[k].0 as int, ranges@[k].1 as int) == all[k],
        decreases n - start,
    {
        let ghost rest = text_lines(chars@, start as int);
        let mut e: usize = start;
        while e < n && chars[e] != '\n'
            invariant
                start <= e <= n,
                n == chars@.len(),
                find_char(chars@, '\n', start as int) == find_char(chars@, '\n', e as int),
            decreases n - e,
        {
            e = e + 1;
        }
        let ghost piece = chars@.subrange(start as int, e as int);
        let broken: bool = e < n;
        let end: usize = if broken && e > start && chars[e - 1] == '\r' {
            e - 1
        } else {
            e
        };
        proof {
            if broken && e > start {
                assert(piece.last() == chars@[e - 1]);
            }
            if end < e {
                assert(chars@.subrange(start as int, end as int) =~= piece.drop_last());
            }
            assert(rest[0] == chars@.subrange(start as int, end as int));
            assert(all.skip(done).len() == all.len() - done);
            assert(all[done] == all.skip(done)[0]);
            assert(all.skip(done + 1) =~= rest.skip(1));
        }
        ranges.push((start, end));
        if broken {
            start = e + 1;
        } else {
            start = n;
        }
        proof {
            assert(rest.skip(1) =~= text_lines(chars@, start as int));
            done = done + 1;
        }
    }
    assert(all.skip(done).len() == 0);
    ranges
}

/// A text is read line by line: a line break ends a line, and a carriage return
/// in front of it belongs to it; what follows the last line break is a line too
/// unless it is empty.
pub proof fn law_line_breaks_end_lines(line: Seq<char>, rest: Seq<char>)
    requires
        forall|i: int| 0 <= i < line.len() ==> #[trigger] line[i] != '\n',
    ensures
        text_lines(line.push('\n') + rest, 0) == seq![without_return(line)] + text_lines(rest, 0),
        line.len() > 0 ==> text_lines(line, 0) == seq![line],
        text_lines(seq![], 0).len() == 0,
        line.len() > 0 && line.last() == '\r' ==> without_return(line) == line.take(
            line.len() - 1,
        ),
        line.len() == 0 || line.last() != '\r' ==> without_return(line) == line,
{
    let whole = line.push('\n');
    let n = line.len() as int;
    lemma_find_char(whole, '\n', 0);
    assert(whole[n] == '\n');
    assert forall|i: int| 0 <= i < n implies whole[i] != '\n' by {
        assert(whole[i] == line[i]);
    }
    assert(find_char(whole, '\n', 0) == n);
    assert(whole.subrange(0, n) =~= line);
    assert(text_lines(whole, n + 1) =~= seq![]);
    assert(text_lines(whole, 0) =~= seq![without_return(line)]);
    lemma_lines_concat(whole, rest, 0);
    if n > 0 {
        lemma_find_char(line, '\n', 0);
        assert(line.subrange(0, n) =~= line);
        assert(line.drop_last() =~= line.take(n - 1));
    }
}

} // verus!
