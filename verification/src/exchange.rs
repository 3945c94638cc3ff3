//! One exchange with a server: finding its address, connecting, sending the
//! request and reading the response. The exchange says what to do next, and is
//! told what came of it.
use vstd::prelude::*;
use vstd::string::*;

use crate::http::{plain_request, read_on, request_text, response_body, tls_request, ReadOutcome,
    ResponseReader, HEADER_ROOM};
use crate::text::{chars_of, dec, digit, digit_value, digit_of};
use crate::wifi::Leg;

verus! {

// ---------------------------------------------------------------------------
// Addresses.
// ---------------------------------------------------------------------------

/// The text of an address: four numerals with dots between them.
pub open spec fn dotted(a: int, b: int, c: int, d: int) -> Seq<char> {
    dec(a).push('.') + dec(b).push('.') + dec(c).push('.') + dec(d)
}

/// Whether there is a digit at `i`.
pub open spec fn digit_at(s: Seq<char>, i: int) -> bool {
    0 <= i < s.len() && digit_value(s[i]) < 10
}

/// The numeral up to 255 that stands at `i`, without a zero in front, and where
/// it ends.
pub open spec fn octet_at(s: Seq<char>, i: int) -> Option<(int, int)> {
    let x = digit_value(s[i]);
    let y = digit_value(s[i + 1]);
    let z = digit_value(s[i + 2]);
    if !digit_at(s, i) {
        None
    } else if !digit_at(s, i + 1) {
        Some((x, i + 1))
    } else if x == 0 {
        None
    } else if !digit_at(s, i + 2) {
        Some((10 * x + y, i + 2))
    } else if digit_at(s, i + 3) || 100 * x + 10 * y + z > 255 {
        None
    } else {
        Some((100 * x + 10 * y + z, i + 3))
    }
}

/// A digit is the character of its value.
proof fn lemma_digit(c: char)
    ensures
        digit_value(c) < 10 ==> c == digit(digit_value(c)),
{
}

/// The digits of a number up to 255.
proof fn lemma_dec(n: int)
    requires
        0 <= n <= 255,
    ensures
        n < 10 ==> dec(n) == seq![digit(n)],
        10 <= n < 100 ==> dec(n) == seq![digit(n / 10), digit(n % 10)],
        100 <= n ==> dec(n) == seq![digit(n / 100), digit((n / 10) % 10), digit(n % 10)],
        forall|k: int| 0 <= k < dec(n).len() ==> digit_value(#[trigger] dec(n)[k]) < 10,
{
    reveal_with_fuel(dec, 3);
    if n >= 100 {
        assert(n / 10 / 10 == n / 100);
        assert(dec(n) =~= seq![digit(n / 100), digit((n / 10) % 10), digit(n % 10)]);
    } else if n >= 10 {
        assert(dec(n) =~= seq![digit(n / 10), digit(n % 10)]);
    }
}

/// A numeral that is found is that of its number.
proof fn lemma_octet_found(s: Seq<char>, i: int)
    requires
        0 <= i <= s.len(),
        octet_at(s, i) is Some,
    ensures
        ({
            let (n, j) = octet_at(s, i)->0;
            &&& 0 <= n <= 255
            &&& i < j <= s.len()
            &&& s.subrange(i, j) == dec(n)
        }),
{
    let (n, j) = octet_at(s, i)->0;
    let x = digit_value(s[i]);
    lemma_digit(s[i]);
    if j == i + 1 {
        assert(s.subrange(i, j) =~= seq![s[i]]);
    } else if j == i + 2 {
        let y = digit_value(s[i + 1]);
        lemma_digit(s[i + 1]);
        assert((10 * x + y) / 10 == x && (10 * x + y) % 10 == y);
        assert(s.subrange(i, j) =~= seq![s[i], s[i + 1]]);
    } else {
        let y = digit_value(s[i + 1]);
        let z = digit_value(s[i + 2]);
        lemma_digit(s[i + 1]);
        lemma_digit(s[i + 2]);
        assert((100 * x + 10 * y + z) / 100 == x);
        assert((100 * x + 10 * y + z) / 10 == 10 * x + y);
        assert((10 * x + y) % 10 == y);
        assert((100 * x + 10 * y + z) % 10 == z);
        assert(s.subrange(i, j) =~= seq![s[i], s[i + 1], s[i + 2]]);
    }
    lemma_dec(n);
}

/// A numeral that no digit follows is found.
proof fn lemma_octet_finds(s: Seq<char>, i: int, n: int)
    requires
        0 <= i,
        0 <= n <= 255,
        i + dec(n).len() <= s.len(),
        s.subrange(i, i + dec(n).len()) == dec(n),
        !digit_at(s, i + dec(n).len()),
    ensures
        octet_at(s, i) == Some((n, (i + dec(n).len()) as int)),
{
    lemma_dec(n);
    let t = s.subrange(i, i + dec(n).len());
    assert(t[0] == s[i]);
    if n >= 10 {
        assert(t[1] == s[i + 1]);
    }
    if n >= 100 {
        assert(t[2] == s[i + 2]);
    }
}

/// Reads the numeral up to 255 that stands at `i`.
fn read_octet(chars: &[char], i: usize) -> (r: Option<(u8, usize)>)
    requires
        i <= chars@.len(),
    ensures
        r is Some <==> octet_at(chars@, i as int) is Some,
        r matches Some(o) ==> octet_at(chars@, i as int) == Some((o.0 as int, o.1 as int))
            && i < o.1 <= chars@.len(),
{
    let len: usize = chars.len();
    if i >= len {
        return None;
    }
    let x: u64 = digit_of(chars[i]);
    if x >= 10 {
        return None;
    }
    let y: u64 = if len - i > 1 {
        digit_of(chars[i + 1])
    } else {
        16
    };
    if y >= 10 {
        return Some((x as u8, i + 1));
    }
    if x == 0 {
        return None;
    }
    let z: u64 = if len - i > 2 {
        digit_of(chars[i + 2])
    } else {
        16
    };
    if z >= 10 {
        return Some(((10 * x + y) as u8, i + 2));
    }
    let more: bool = len - i > 3 && digit_of(chars[i + 3]) < 10;
    let n: u64 = 100 * x + 10 * y + z;
    if more || n > 255 {
        None
    } else {
        Some((n as u8, i + 3))
    }
}

/// Reads an address in dotted decimal.
pub fn parse_ipv4(s: &str) -> (r: Option<(u8, u8, u8, u8)>)
    ensures
        r matches Some(o) ==> s@ == dotted(o.0 as int, o.1 as int, o.2 as int, o.3 as int),
        r is None ==> forall|a: u8, b: u8, c: u8, d: u8|
            s@ != #[trigger] dotted(a as int, b as int, c as int, d as int),
{
    let chars: Vec<char> = chars_of(s);
    let found: Option<(u8, u8, u8, u8)> = read_ipv4(chars.as_slice());
    proof {
        if found is Some {
            lemma_read_is_dotted(s@);
        } else {
            assert forall|a: u8, b: u8, c: u8, d: u8| s@ != #[trigger] dotted(
                a as int,
                b as int,
                c as int,
                d as int,
            ) by {
                if s@ == dotted(a as int, b as int, c as int, d as int) {
                    lemma_dotted_reads(s@, a as int, b as int, c as int, d as int);
                }
            }
        }
    }
    found
}

/// The address that a text is, read from the front.
pub open spec fn ipv4_at(s: Seq<char>) -> Option<(int, int, int, int)> {
    match octet_at(s, 0) {
        None => None,
        Some((a, i)) => if i >= s.len() || s[i] != '.' {
            None
        } else {
            match octet_at(s, i + 1) {
                None => None,
                Some((b, j)) => if j >= s.len() || s[j] != '.' {
                    None
                } else {
                    match octet_at(s, j + 1) {
                        None => None,
                        Some((c, k)) => if k >= s.len() || s[k] != '.' {
                            None
                        } else {
                            match octet_at(s, k + 1) {
                                None => None,
                                Some((d, l)) => if l == s.len() {
                                    Some((a, b, c, d))
                                } else {
                                    None
                                },
                            }
                        },
                    }
                },
            }
        },
    }
}

/// An address in dotted decimal is read.
proof fn lemma_dotted_reads(s: Seq<char>, a: int, b: int, c: int, d: int)
    requires
        s == dotted(a, b, c, d),
        0 <= a <= 255,
        0 <= b <= 255,
        0 <= c <= 255,
        0 <= d <= 255,
    ensures
        ipv4_at(s) == Some((a, b, c, d)),
{
    lemma_dec(a);
    lemma_dec(b);
    lemma_dec(c);
    lemma_dec(d);
    let i = dec(a).len() as int;
    let j = i + 1 + dec(b).len();
    let k = j + 1 + dec(c).len();
    let l = k + 1 + dec(d).len();
    assert(s.len() == l);
    assert(s[i] == '.');
    assert(s[j] == '.');
    assert(s[k] == '.');
    assert(s.subrange(0, i) =~= dec(a));
    lemma_octet_finds(s, 0, a);
    assert(s.subrange(i + 1, j) =~= dec(b));
    lemma_octet_finds(s, i + 1, b);
    assert(s.subrange(j + 1, k) =~= dec(c));
    lemma_octet_finds(s, j + 1, c);
    assert(s.subrange(k + 1, l) =~= dec(d));
    lemma_octet_finds(s, k + 1, d);
}

/// A text that is cut at dots is its parts with dots between them.
proof fn lemma_joined(s: Seq<char>, i: int, j: int, k: int)
    requires
        0 <= i < j < k < s.len(),
        s[i] == '.',
        s[j] == '.',
        s[k] == '.',
    ensures
        s == s.subrange(0, i).push('.') + s.subrange(i + 1, j).push('.') + s.subrange(
            j + 1,
            k,
        ).push('.') + s.subrange(k + 1, s.len() as int),
{
    let p = s.subrange(0, i).push('.');
    let q = s.subrange(i + 1, j).push('.');
    let t = s.subrange(j + 1, k).push('.');
    let u = s.subrange(k + 1, s.len() as int);
    assert(p =~= s.subrange(0, i + 1));
    assert(p + q =~= s.subrange(0, j + 1));
    assert(p + q + t =~= s.subrange(0, k + 1));
    assert(p + q + t + u =~= s);
}

/// An address that is read is the text it was read from.
proof fn lemma_read_is_dotted(s: Seq<char>)
    requires
        ipv4_at(s) is Some,
    ensures
        ({
            let (a, b, c, d) = ipv4_at(s)->0;
            s == dotted(a, b, c, d)
        }),
{
    let (a, i) = octet_at(s, 0)->0;
    lemma_octet_found(s, 0);
    let (b, j) = octet_at(s, i + 1)->0;
    lemma_octet_found(s, i + 1);
    let (c, k) = octet_at(s, j + 1)->0;
    lemma_octet_found(s, j + 1);
    let (d, l) = octet_at(s, k + 1)->0;
    lemma_octet_found(s, k + 1);
    lemma_joined(s, i, j, k);
}

/// Reads an address from the front of a text that has nothing behind it.
fn read_ipv4(chars: &[char]) -> (r: Option<(u8, u8, u8, u8)>)
    ensures
        r is Some <==> ipv4_at(chars@) is Some,
        r matches Some(o) ==> ipv4_at(chars@) == Some(
            (o.0 as int, o.1 as int, o.2 as int, o.3 as int),
        ),
{
    let len: usize = chars.len();
    let (a, i) = match read_octet(chars, 0) {
        Some(o) => o,
        None => {
            return None;
        },
    };
    if i >= len || chars[i] != '.' {
        return None;
    }
    let (b, j) = match read_octet(chars, i + 1) {
        Some(o) => o,
        None => {
            return None;
        },
    };
    if j >= len || chars[j] != '.' {
        return None;
    }
    let (c, k) = match read_octet(chars, j + 1) {
        Some(o) => o,
        None => {
            return None;
        },
    };
    if k >= len || chars[k] != '.' {
        return None;
    }
    let (d, l) = match read_octet(chars, k + 1) {
        Some(o) => o,
        None => {
            return None;
        },
    };
    if l != len {
        return None;
    }
    Some((a, b, c, d))
}

// ---------------------------------------------------------------------------
// The exchange.
// ---------------------------------------------------------------------------

/// What an exchange does next.
#[derive(Clone, Copy, Debug, PartialEq, Eq, Structural)]
pub enum Step {
    /// Ask for the address of the host.
    Resolve,
    /// Connect to it.
    Connect,
    /// Open the TLS session.
    Handshake,
    /// Send the request.
    Send,
    /// Push out what the session still holds.
    Flush,
    /// Read some of the response.
    Receive,
    /// Nothing: the exchange is over.
    Over,
}

/// The step after one that succeeded.
pub open spec fn step_after(leg: Leg, step: Step) -> Step {
    match step {
        Step::Resolve => Step::Connect,
        Step::Connect => if leg == Leg::Tls {
            Step::Handshake
        } else {
            Step::Send
        },
        Step::Handshake => Step::Send,
        Step::Send => if leg == Leg::Tls {
            Step::Flush
        } else {
            Step::Receive
        },
        Step::Flush => Step::Receive,
        Step::Receive => Step::Receive,
        Step::Over => Step::Over,
    }
}

/// An exchange under way.
pub struct Exchange {
    pub leg: Leg,
    pub step: Step,
    pub reader: ResponseReader,
}

impl Exchange {
    /// Nothing is read before the request is sent, and the exchange goes on
    /// reading as long as the reader does.
    pub open spec fn well_formed(&self) -> bool {
        &&& self.reader.max_body + HEADER_ROOM <= usize::MAX
        &&& self.step == Step::Receive ==> self.reader.reading
        &&& self.step != Step::Receive && self.step != Step::Over ==> {
            &&& self.reader.reading
            &&& self.reader.resp@.len() == 0
        }
    }

    /// The body that the exchange ends with.
    pub open spec fn outcome(&self) -> Option<Seq<u8>> {
        if self.step == Step::Over {
            response_body(self.reader.resp@, self.reader.closed)
        } else {
            None
        }
    }

    /// An exchange that is about to begin. A host that is an address need not
    /// be looked up.
    pub fn new(leg: Leg, host: &str, max_body: usize) -> (r: Self)
        requires
            max_body + HEADER_ROOM <= usize::MAX,
        ensures
            r.well_formed(),
            r.leg == leg,
            r.reader.max_body == max_body,
            r.step == Step::Connect <==> exists|a: u8, b: u8, c: u8, d: u8|
                host@ == #[trigger] dotted(a as int, b as int, c as int, d as int),
            r.step == Step::Connect || r.step == Step::Resolve,
    {
        let step: Step = match parse_ipv4(host) {
            Some(o) => {
                proof {
                    let (a, b, c, d) = o;
                    assert(host@ == dotted(a as int, b as int, c as int, d as int));
                }
                Step::Connect
            },
            None => Step::Resolve,
        };
        Exchange { leg, step, reader: ResponseReader::new(max_body) }
    }

    /// The request to send.
    pub fn request(&self, method: &str, path: &str, host: &str, token: Option<&str>) -> (r: String)
        ensures
            r@ == request_text(
                method@,
                path@,
                if self.leg == Leg::Tls {
                    "1.0"@
                } else {
                    "1.1"@
                },
                host@,
                match token {
                    Some(t) => Some(t@),
                    None => None,
                },
            ),
    {
        match self.leg {
            Leg::Tls => tls_request(method, path, host, token),
            Leg::Plain => plain_request(method, path, host, token),
        }
    }

    /// Takes the outcome of a step before the response: one that fails ends
    /// the exchange.
    pub fn advance(&mut self, ok: bool)
        requires
            old(self).well_formed(),
            old(self).step != Step::Receive,
        ensures
            final(self).well_formed(),
            final(self).leg == old(self).leg,
            final(self).reader == old(self).reader,
            final(self).step == if ok {
                step_after(old(self).leg, old(self).step)
            } else {
                Step::Over
            },
    {
        if !ok {
            self.step = Step::Over;
            return ;
        }
        self.step = match self.step {
            Step::Resolve => Step::Connect,
            Step::Connect => match self.leg {
                Leg::Tls => Step::Handshake,
                Leg::Plain => Step::Send,
            },
            Step::Handshake => Step::Send,
            Step::Send => match self.leg {
                Leg::Tls => Step::Flush,
                Leg::Plain => Step::Receive,
            },
            Step::Flush => Step::Receive,
            Step::Receive => Step::Receive,
            Step::Over => Step::Over,
        };
    }

    /// Takes what a read gave; when there is no more to read the exchange is
    /// over.
    pub fn receive(&mut self, outcome: ReadOutcome)
        requires
            old(self).well_formed(),
            old(self).step == Step::Receive,
        ensures
            final(self).well_formed(),
            final(self).leg == old(self).leg,
            final(self).reader.max_body == old(self).reader.max_body,
            ({
                let (resp, closed, goes_on) = read_on(
                    old(self).reader.resp@,
                    old(self).reader.closed,
                    old(self).reader.max_body as int,
                    outcome,
                );
                &&& final(self).reader.resp@ == resp
                &&& final(self).reader.closed == closed
                &&& final(self).step == Step::Receive <==> goes_on
            }),
            final(self).reader.resp@ == match outcome {
                ReadOutcome::Bytes(b) => old(self).reader.resp@ + b@,
                ReadOutcome::Failed => old(self).reader.resp@,
            },
            final(self).reader.closed == match outcome {
                ReadOutcome::Bytes(b) => b@.len() == 0,
                ReadOutcome::Failed => old(self).reader.closed,
            },
            final(self).step == match outcome {
                ReadOutcome::Bytes(b) => if b@.len() > 0 && final(self).reader.resp@.len()
                    <= final(self).reader.max_body + HEADER_ROOM {
                    Step::Receive
                } else {
                    Step::Over
                },
                ReadOutcome::Failed => Step::Over,
            },
    {
        self.reader.feed(outcome);
        if !self.reader.wants_more() {
            self.step = Step::Over;
        }
    }

    /// The body of the response, once the exchange is over.
    pub fn body(&self) -> (r: Option<Vec<u8>>)
        ensures
            r is Some <==> self.outcome() is Some,
            r matches Some(b) ==> self.outcome() == Some(b@),
    {
        match self.step {
            Step::Over => self.reader.finish(),
            _ => None,
        }
    }
}

/// An exchange that fails before the response has no body.
pub proof fn law_early_failure_has_no_body(before: Exchange, after: Exchange)
    requires
        before.well_formed(),
        before.step != Step::Receive,
        before.step != Step::Over,
        after.reader == before.reader,
        after.step == Step::Over,
    ensures
        after.outcome() is None,
{
}

/// An exchange that goes well takes its steps in order. It connects once the
/// address is known; in a TLS session it sends nothing before the handshake and
/// reads nothing before what it sent was pushed out; without TLS it sends as
/// soon as it is connected and reads as soon as it has sent.
pub proof fn law_steps_are_in_order(step: Step)
    ensures
        step_after(Leg::Tls, step) == Step::Connect <==> step == Step::Resolve,
        step_after(Leg::Tls, step) == Step::Handshake <==> step == Step::Connect,
        step_after(Leg::Tls, step) == Step::Send <==> step == Step::Handshake,
        step_after(Leg::Tls, step) == Step::Flush <==> step == Step::Send,
        step_after(Leg::Tls, step) == Step::Receive <==> step == Step::Flush || step
            == Step::Receive,
        step_after(Leg::Plain, step) == Step::Connect <==> step == Step::Resolve,
        step_after(Leg::Plain, step) == Step::Send <==> step == Step::Connect || step
            == Step::Handshake,
        step_after(Leg::Plain, step) == Step::Receive <==> step == Step::Send || step
            == Step::Flush || step == Step::Receive,
        step_after(Leg::Tls, step) == Step::Over <==> step == Step::Over,
        step_after(Leg::Plain, step) == Step::Over <==> step == Step::Over,
{
}

/// What an exchange brings is the body of all that was read, as soon as it is
/// over, and nothing before.
pub proof fn law_exchange_brings_the_body(x: Exchange)
    ensures
        x.step == Step::Over ==> x.outcome() == response_body(x.reader.resp@, x.reader.closed),
        x.step != Step::Over ==> x.outcome() is None,
{
}

/// An address is four numbers with dots between them.
pub proof fn law_form_of_an_address(a: int, b: int, c: int, d: int)
    ensures
        dotted(a, b, c, d) == dec(a) + seq!['.'] + dec(b) + seq!['.'] + dec(c) + seq!['.'] + dec(
            d,
        ),
{
    assert(dotted(a, b, c, d) =~= dec(a) + seq!['.'] + dec(b) + seq!['.'] + dec(c) + seq!['.']
        + dec(d));
}

} // verus!
