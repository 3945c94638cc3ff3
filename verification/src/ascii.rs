//! Decimal digits among bytes.
use vstd::prelude::*;
use vstd::utf8::*;

use crate::text::{dec, digit, lemma_encode_concat};

verus! {

/// Whether every byte is a decimal digit.
pub open spec fn ascii_digits(s: Seq<u8>) -> bool {
    forall|i: int| 0 <= i < s.len() ==> 0x30 <= #[trigger] s[i] <= 0x39
}

/// The number that decimal digits write.
pub open spec fn ascii_value(s: Seq<u8>) -> int
    decreases s.len(),
{
    if s.len() == 0 {
        0
    } else {
        ascii_value(s.drop_last()) * 10 + (s.last() - 0x30)
    }
}

/// The longest run of decimal digits at the start.
pub open spec fn digit_prefix(s: Seq<u8>) -> Seq<u8>
    decreases s.len(),
{
    if s.len() == 0 || !(0x30 <= s[0] <= 0x39) {
        seq![]
    } else {
        seq![s[0]] + digit_prefix(s.drop_first())
    }
}

/// Digits in front of other digits write no larger number.
pub proof fn lemma_ascii_value_grows(s: Seq<u8>, i: int)
    requires
        0 <= i <= s.len(),
        ascii_digits(s),
    ensures
        0 <= ascii_value(s.take(i)) <= ascii_value(s),
    decreases s.len(),
{
    if s.len() == 0 {
        assert(s.take(i) =~= s);
    } else {
        let front = s.drop_last();
        assert(ascii_digits(front)) by {
            assert forall|k: int| 0 <= k < front.len() implies 0x30 <= #[trigger] front[k]
                <= 0x39 by {
                assert(front[k] == s[k]);
            }
        }
        assert(0x30 <= s[s.len() - 1] <= 0x39);
        if i == s.len() {
            assert(s.take(i) =~= s);
            lemma_ascii_value_grows(front, front.len() as int);
            assert(front.take(front.len() as int) =~= front);
        } else {
            assert(s.take(i) =~= front.take(i));
            lemma_ascii_value_grows(front, i);
        }
    }
}

/// The run of digits at the start reaches as far as digits do.
pub proof fn lemma_digit_prefix(s: Seq<u8>, i: int)
    requires
        0 <= i <= s.len(),
        ascii_digits(s.take(i)),
    ensures
        digit_prefix(s).len() >= i,
        digit_prefix(s).len() <= s.len(),
        digit_prefix(s) == s.take(digit_prefix(s).len() as int),
        ascii_digits(digit_prefix(s)),
    decreases s.len(),
{
    if s.len() == 0 {
    } else if !(0x30 <= s[0] <= 0x39) {
        if i > 0 {
            assert(s.take(i)[0] == s[0]);
        }
    } else {
        let rest = s.drop_first();
        let j = if i > 0 {
            i - 1
        } else {
            0
        };
        assert forall|k: int| 0 <= k < j implies 0x30 <= #[trigger] rest.take(j)[k] <= 0x39 by {
            assert(rest.take(j)[k] == s.take(i)[k + 1]);
        }
        lemma_digit_prefix(rest, j);
        assert(digit_prefix(s) =~= s.take(digit_prefix(s).len() as int));
        assert forall|k: int| 0 <= k < digit_prefix(s).len() implies 0x30
            <= #[trigger] digit_prefix(s)[k] <= 0x39 by {
            if k > 0 {
                assert(digit_prefix(s)[k] == digit_prefix(rest)[k - 1]);
            }
        }
    }
}

/// A number that was written in decimal is read from its bytes as it was, and
/// its bytes are all digits.
pub proof fn law_written_number_is_read(n: int)
    requires
        0 <= n,
    ensures
        ascii_digits(encode_utf8(dec(n))),
        ascii_value(encode_utf8(dec(n))) == n,
        encode_utf8(dec(n)).len() == dec(n).len(),
    decreases n,
{
    let last = seq![digit(n % 10)];
    assert(last.drop_first() =~= Seq::<char>::empty());
    assert(encode_utf8(Seq::<char>::empty()) =~= seq![]);
    let b = (48 + n % 10) as u8;
    let u = last[0] as u32;
    assert((u & 0x7f) as u8 == u) by (bit_vector)
        requires
            u < 0x80,
    ;
    assert(encode_utf8(last) =~= encode_scalar(u));
    assert(encode_utf8(last) =~= seq![b]);
    if n < 10 {
        assert(dec(n) =~= last);
        assert(seq![b].drop_last() =~= Seq::<u8>::empty());
        assert(ascii_value(Seq::<u8>::empty()) == 0);
        assert(ascii_value(seq![b]) == n);
    } else {
        law_written_number_is_read(n / 10);
        let front = encode_utf8(dec(n / 10));
        let whole = encode_utf8(dec(n));
        assert(dec(n) =~= dec(n / 10) + last);
        lemma_encode_concat(dec(n / 10), last);
        assert(whole =~= front.push(b));
        assert(whole.drop_last() =~= front);
        assert forall|i: int| 0 <= i < whole.len() implies 0x30 <= #[trigger] whole[i] <= 0x39 by {
            if i < front.len() {
                assert(whole[i] == front[i]);
            }
        }
    }
}

/// The digits that a text begins with are all of them and nothing else: the
/// byte behind them, if there is one, is no digit.
pub proof fn law_leading_digits_are_all(s: Seq<u8>)
    ensures
        ({
            let n = digit_prefix(s).len() as int;
            &&& n <= s.len()
            &&& digit_prefix(s) == s.take(n)
            &&& forall|i: int| 0 <= i < n ==> 0x30 <= #[trigger] s[i] <= 0x39
            &&& n < s.len() ==> !(0x30 <= s[n] <= 0x39)
        }),
    decreases s.len(),
{
    if s.len() > 0 && 0x30 <= s[0] <= 0x39 {
        let rest = s.drop_first();
        law_leading_digits_are_all(rest);
        let n = digit_prefix(rest).len() as int;
        assert(digit_prefix(s) =~= s.take(n + 1));
        assert forall|i: int| 0 <= i < n + 1 implies 0x30 <= #[trigger] s[i] <= 0x39 by {
            if i > 0 {
                assert(rest[i - 1] == s[i]);
            }
        }
        if n + 1 < s.len() {
            assert(rest[n] == s[n + 1]);
        }
    } else {
        assert(digit_prefix(s) =~= s.take(0));
    }
}

} // verus!
