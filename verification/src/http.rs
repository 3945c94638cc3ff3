//! The requests that the device sends and the responses that it accepts.
use vstd::prelude::*;
use vstd::string::*;
use vstd::utf8::*;

use crate::lines::{find_char, lemma_find_char};
use crate::text::{
    self, chars_of, dec, lower, parse_numeral, parsed, same_but_case, trim, trim_end, trim_start,
    trimmed, white_space,
};

verus! {

/// The text of a request. `version` is the protocol's version, and `token`
/// goes along where there is one.
pub open spec fn request_text(
    method: Seq<char>,
    path: Seq<char>,
    version: Seq<char>,
    host: Seq<char>,
    token: Option<Seq<char>>,
) -> Seq<char> {
    method + " "@ + path + " HTTP/"@ + version + "\r\nHost: "@ + host + "\r\n"@ + (match token {
        Some(t) => "Authorization: Bearer "@ + t + "\r\n"@,
        None => seq![],
    }) + "Connection: close\r\n\r\n"@
}

/// Writes a request.
pub fn write_request(
    method: &str,
    path: &str,
    version: &str,
    host: &str,
    token: Option<&str>,
) -> (r: String)
    ensures
        r@ == request_text(
            method@,
            path@,
            version@,
            host@,
            match token {
                Some(t) => Some(t@),
                None => None,
            },
        ),
{
    let mut req: String = text::own(method);
    req.append(" ");
    req.append(path);
    req.append(" HTTP/");
    req.append(version);
    req.append("\r\nHost: ");
    req.append(host);
    req.append("\r\n");
    let ghost head = req@;
    if let Some(t) = token {
        req.append("Authorization: Bearer ");
        req.append(t);
        req.append("\r\n");
        assert(req@ =~= head + ("Authorization: Bearer "@ + t@ + "\r\n"@));
    } else {
        assert(req@ =~= head + Seq::<char>::empty());
    }
    req.append("Connection: close\r\n\r\n");
    req
}

/// Writes the request for a server on the local network.
pub fn plain_request(method: &str, path: &str, host: &str, token: Option<&str>) -> (r: String)
    ensures
        r@ == request_text(
            method@,
            path@,
            "1.1"@,
            host@,
            match token {
                Some(t) => Some(t@),
                None => None,
            },
        ),
{
    write_request(method, path, "1.1", host, token)
}

/// Writes the request for a server behind TLS, which asks for no chunked
/// body.
pub fn tls_request(method: &str, path: &str, host: &str, token: Option<&str>) -> (r: String)
    ensures
        r@ == request_text(
            method@,
            path@,
            "1.0"@,
            host@,
            match token {
                Some(t) => Some(t@),
                None => None,
            },
        ),
{
    write_request(method, path, "1.0", host, token)
}

// ---------------------------------------------------------------------------
// Responses.
// ---------------------------------------------------------------------------

/// Where the first `c` at or after `i` stands, or the end.
pub open spec fn find_byte(s: Seq<u8>, c: u8, i: int) -> int
    decreases s.len() - i,
{
    if i >= s.len() || s[i] == c {
        i
    } else {
        find_byte(s, c, i + 1)
    }
}

/// What a search stops at.
pub proof fn lemma_find_byte(s: Seq<u8>, c: u8, i: int)
    requires
        0 <= i <= s.len(),
    ensures
        i <= find_byte(s, c, i) <= s.len(),
        forall|k: int| i <= k < find_byte(s, c, i) ==> s[k] != c,
        find_byte(s, c, i) < s.len() ==> s[find_byte(s, c, i)] == c,
    decreases s.len() - i,
{
    if i < s.len() && s[i] != c {
        lemma_find_byte(s, c, i + 1);
    }
}

/// The length that one header line declares: a line of text with a colon, in
/// front of it the name, in any case, and behind it a numeral, each with or
/// without white space around it.
pub open spec fn line_length(line: Seq<u8>) -> Option<int> {
    let s = decode_utf8(line);
    let colon = find_char(s, ':', 0);
    if !valid_utf8(line) || colon >= s.len() {
        None
    } else if !same_but_case(trimmed(s.take(colon)), "content-length"@) {
        None
    } else {
        parsed(trimmed(s.skip(colon + 1)), 10, usize::MAX as int)
    }
}

/// The length that the first header line to declare one declares, from byte
/// `i` on.
pub open spec fn declared_length(headers: Seq<u8>, i: int) -> Option<int>
    decreases headers.len() - i,
{
    if i < 0 || i > headers.len() {
        None
    } else {
        let e = find_byte(headers, 0x0a, i);
        match line_length(headers.subrange(i, e)) {
            Some(n) => Some(n),
            None => if i <= e < headers.len() {
                declared_length(headers, e + 1)
            } else {
                None
            },
        }
    }
}

/// Whether the empty line that ends the headers stands at `i`.
pub open spec fn blank_line_at(b: Seq<u8>, i: int) -> bool {
    &&& 0 <= i
    &&& i + 4 <= b.len()
    &&& b[i] == 0x0d
    &&& b[i + 1] == 0x0a
    &&& b[i + 2] == 0x0d
    &&& b[i + 3] == 0x0a
}

/// Where the headers end, at byte `i` at the earliest.
pub open spec fn headers_end(b: Seq<u8>, i: int) -> Option<int>
    decreases b.len() - i,
{
    if i + 4 > b.len() {
        None
    } else if blank_line_at(b, i) {
        Some(i)
    } else {
        headers_end(b, i + 1)
    }
}

/// The body of a response: there is one where the status begins with a two and
/// the headers are complete. A declared length must be reached, and is what
/// the body is cut to; where none is declared the server must have closed the
/// connection.
pub open spec fn response_body(resp: Seq<u8>, closed: bool) -> Option<Seq<u8>> {
    if resp.len() <= 9 || resp[9] != 0x32 {
        None
    } else {
        match headers_end(resp, 0) {
            None => None,
            Some(split) => {
                let body = resp.skip(split + 4);
                match declared_length(resp.take(split), 0) {
                    Some(n) => if body.len() >= n {
                        Some(body.take(n))
                    } else {
                        None
                    },
                    None => if closed {
                        Some(body)
                    } else {
                        None
                    },
                }
            },
        }
    }
}

/// Whether two runs of characters are the same but for the case of Latin
/// letters.
fn eq_ignore_case(chars: &[char], from: usize, to: usize, name: &[char]) -> (r: bool)
    requires
        from <= to <= chars@.len(),
    ensures
        r == same_but_case(chars@.subrange(from as int, to as int), name@),
{
    let ghost a = chars@.subrange(from as int, to as int);
    let ghost la = a.map_values(|c: char| lower(c));
    let ghost lb = name@.map_values(|c: char| lower(c));
    if to - from != name.len() {
        assert(la.len() != lb.len());
        return false;
    }
    let mut i: usize = 0;
    while i < name.len()
        invariant
            from <= to <= chars@.len(),
            to - from == name@.len(),
            i <= name@.len(),
            a == chars@.subrange(from as int, to as int),
            la == a.map_values(|c: char| lower(c)),
            lb == name@.map_values(|c: char| lower(c)),
            forall|k: int| 0 <= k < i ==> la[k] == lb[k],
        decreases name@.len() - i,
    {
        assert(la[i as int] == lower(chars@[from + i]));
        assert(lb[i as int] == lower(name@[i as int]));
        if lower_char(chars[from + i]) != lower_char(name[i]) {
            return false;
        }
        i = i + 1;
    }
    assert(la =~= lb);
    true
}

/// Makes a Latin letter small.
fn lower_char(c: char) -> (r: char)
    ensures
        r == lower(c),
{
    if 'A' <= c && c <= 'Z' {
        let v: u32 = (c as u32) + 32;
        (v as u8) as char
    } else {
        c
    }
}

/// The length that one header line declares.
fn length_in_line(line: &[u8]) -> (r: Option<usize>)
    ensures
        r is Some <==> line_length(line@) is Some,
        r matches Some(n) ==> line_length(line@) == Some(n as int),
{
    match text::from_utf8(line) {
        None => None,
        Some(s) => {
            proof {
                encode_utf8_decode_utf8(s@);
            }
            let chars: Vec<char> = chars_of(s);
            let mut colon: usize = 0;
            while colon < chars.len() && chars[colon] != ':'
                invariant
                    colon <= chars@.len(),
                    find_char(chars@, ':', 0) == find_char(chars@, ':', colon as int),
                decreases chars@.len() - colon,
            {
                colon = colon + 1;
            }
            if colon >= chars.len() {
                return None;
            }
            let (a, b) = trim(chars.as_slice(), 0, colon);
            let name: Vec<char> = chars_of("content-length");
            assert(chars@.subrange(0, colon as int) =~= chars@.take(colon as int));
            if !eq_ignore_case(chars.as_slice(), a, b, name.as_slice()) {
                return None;
            }
            let (a, b) = trim(chars.as_slice(), colon + 1, chars.len());
            assert(chars@.subrange(colon + 1, chars@.len() as int) =~= chars@.skip(colon + 1));
            match parse_numeral(chars.as_slice(), a, b, 10, usize::MAX as u64) {
                Some(n) => Some(n as usize),
                None => None,
            }
        },
    }
}

/// The length that the headers declare for the body.
pub fn content_length(headers: &[u8]) -> (r: Option<usize>)
    ensures
        r is Some <==> declared_length(headers@, 0) is Some,
        r matches Some(n) ==> declared_length(headers@, 0) == Some(n as int),
{
    let mut start: usize = 0;
    let total: usize = headers.len();
    loop
        invariant
            total == headers@.len(),
            start <= total,
            declared_length(headers@, 0) == declared_length(headers@, start as int),
        decreases total - start,
    {
        let mut e: usize = start;
        while e < total && headers[e] != 0x0a
            invariant
                total == headers@.len(),
                start <= e <= total,
                find_byte(headers@, 0x0a, start as int) == find_byte(headers@, 0x0a, e as int),
            decreases total - e,
        {
            e = e + 1;
        }
        let line: &[u8] = &headers[start..e];
        assert(line@ =~= headers@.subrange(start as int, e as int));
        match length_in_line(line) {
            Some(n) => {
                return Some(n);
            },
            None => {},
        }
        if e >= total {
            return None;
        }
        start = e + 1;
    }
}

/// Where the headers end.
fn find_headers_end(b: &[u8]) -> (r: Option<usize>)
    ensures
        r is Some <==> headers_end(b@, 0) is Some,
        r matches Some(i) ==> headers_end(b@, 0) == Some(i as int) && i + 4 <= b@.len(),
{
    let total: usize = b.len();
    if total < 4 {
        return None;
    }
    let mut i: usize = 0;
    while i <= total - 4
        invariant
            total == b@.len(),
            4 <= total,
            i <= total - 3,
            headers_end(b@, 0) == headers_end(b@, i as int),
        decreases total - i,
    {
        if b[i] == 0x0d && b[i + 1] == 0x0a && b[i + 2] == 0x0d && b[i + 3] == 0x0a {
            return Some(i);
        }
        i = i + 1;
    }
    None
}

/// A copy of the bytes from `from` up to `to`.
pub fn copy_range(b: &[u8], from: usize, to: usize) -> (r: Vec<u8>)
    requires
        from <= to <= b@.len(),
    ensures
        r@ == b@.subrange(from as int, to as int),
{
    let mut out: Vec<u8> = Vec::new();
    let mut i: usize = from;
    while i < to
        invariant
            from <= i <= to <= b@.len(),
            out@ == b@.subrange(from as int, i as int),
        decreases to - i,
    {
        out.push(b[i]);
        i = i + 1;
        assert(b@.subrange(from as int, i as int) =~= b@.subrange(from as int, i - 1).push(
            b@[i - 1],
        ));
    }
    out
}

/// The body of a response.
pub fn body_of(resp: &[u8], closed: bool) -> (r: Option<Vec<u8>>)
    ensures
        r is Some <==> response_body(resp@, closed) is Some,
        r matches Some(b) ==> response_body(resp@, closed) == Some(b@),
{
    if resp.len() <= 9 || resp[9] != 0x32 {
        return None;
    }
    match find_headers_end(resp) {
        None => None,
        Some(split) => {
            let total: usize = resp.len();
            let start: usize = split + 4;
            let ghost body = resp@.skip(start as int);
            let headers: &[u8] = &resp[0..split];
            assert(headers@ =~= resp@.take(split as int));
            match content_length(headers) {
                Some(n) => {
                    if total - start >= n {
                        assert(resp@.subrange(start as int, start + n) =~= body.take(n as int));
                        Some(copy_range(resp, start, start + n))
                    } else {
                        None
                    }
                },
                None => {
                    if closed {
                        assert(resp@.subrange(start as int, total as int) =~= body);
                        Some(copy_range(resp, start, total))
                    } else {
                        None
                    }
                },
            }
        },
    }
}

/// What a read of the connection gave.
pub enum ReadOutcome {
    /// Bytes, none where the server closed the connection.
    Bytes(Vec<u8>),
    /// An error.
    Failed,
}

/// Bytes of headers that are buffered on top of the body.
pub const HEADER_ROOM: usize = 2048;

/// A response that is being read. Bytes are buffered until the server closes
/// the connection, a read fails, or there are more than fit.
pub struct ResponseReader {
    pub resp: Vec<u8>,
    pub max_body: usize,
    pub closed: bool,
    pub reading: bool,
}

/// What was read, whether the server closed the connection, and whether the
/// response is read on, after a read.
pub open spec fn read_on(
    resp: Seq<u8>,
    closed: bool,
    max_body: int,
    outcome: ReadOutcome,
) -> (Seq<u8>, bool, bool) {
    match outcome {
        ReadOutcome::Bytes(b) => (
            resp + b@,
            b@.len() == 0,
            b@.len() > 0 && resp.len() + b@.len() <= max_body + HEADER_ROOM,
        ),
        ReadOutcome::Failed => (resp, closed, false),
    }
}

impl ResponseReader {
    /// Nothing read yet.
    pub fn new(max_body: usize) -> (r: Self)
        ensures
            r.resp@ == Seq::<u8>::empty(),
            r.max_body == max_body,
            !r.closed,
            r.reading,
    {
        ResponseReader { resp: Vec::new(), max_body, closed: false, reading: true }
    }

    /// Whether the response is read on.
    pub fn wants_more(&self) -> (r: bool)
        ensures
            r == self.reading,
    {
        self.reading
    }

    /// Takes what a read gave.
    pub fn feed(&mut self, outcome: ReadOutcome)
        requires
            old(self).reading,
            old(self).max_body + HEADER_ROOM <= usize::MAX,
        ensures
            (final(self).resp@, final(self).closed, final(self).reading) == read_on(
                old(self).resp@,
                old(self).closed,
                old(self).max_body as int,
                outcome,
            ),
            final(self).max_body == old(self).max_body,
            final(self).resp@ == match outcome {
                ReadOutcome::Bytes(b) => old(self).resp@ + b@,
                _ => old(self).resp@,
            },
            final(self).closed == match outcome {
                ReadOutcome::Bytes(b) => b@.len() == 0,
                ReadOutcome::Failed => old(self).closed,
            },
            final(self).reading == match outcome {
                ReadOutcome::Bytes(b) => b@.len() > 0 && final(self).resp@.len()
                    <= final(self).max_body + HEADER_ROOM,
                _ => false,
            },
    {
        match outcome {
            ReadOutcome::Bytes(b) => {
                if b.len() == 0 {
                    self.closed = true;
                    self.reading = false;
                    assert(self.resp@ =~= old(self).resp@ + b@);
                } else {
                    self.closed = false;
                    push_all(&mut self.resp, b.as_slice());
                    if self.resp.len() > self.max_body + HEADER_ROOM {
                        self.reading = false;
                    }
                }
            },
            ReadOutcome::Failed => {
                self.reading = false;
            },
        }
    }

    /// The body of what was read.
    pub fn finish(&self) -> (r: Option<Vec<u8>>)
        ensures
            r is Some <==> response_body(self.resp@, self.closed) is Some,
            r matches Some(b) ==> response_body(self.resp@, self.closed) == Some(b@),
    {
        body_of(self.resp.as_slice(), self.closed)
    }
}

/// Appends all bytes of `src`.
pub fn push_all(out: &mut Vec<u8>, src: &[u8])
    ensures
        final(out)@ == old(out)@ + src@,
{
    let mut i: usize = 0;
    while i < src.len()
        invariant
            i <= src@.len(),
            out@ == old(out)@ + src@.take(i as int),
        decreases src@.len() - i,
    {
        out.push(src[i]);
        i = i + 1;
        assert(src@.take(i as int) =~= src@.take(i - 1).push(src@[i - 1]));
    }
    assert(src@.take(src@.len() as int) =~= src@);
}

// ---------------------------------------------------------------------------
// What holds of responses.
// ---------------------------------------------------------------------------

/// The end of the headers is where the first empty line stands.
proof fn lemma_headers_end(b: Seq<u8>, i: int)
    requires
        0 <= i,
    ensures
        headers_end(b, i) matches Some(s) ==> i <= s && blank_line_at(b, s) && forall|k: int|
            i <= k < s ==> !blank_line_at(b, k),
        headers_end(b, i) is None ==> forall|k: int| i <= k ==> !blank_line_at(b, k),
    decreases b.len() - i,
{
    if i + 4 <= b.len() && !blank_line_at(b, i) {
        lemma_headers_end(b, i + 1);
    }
}

/// The end of the headers of a part of a response that reaches it is that of
/// the whole, and a part that does not reach it has none.
proof fn lemma_headers_end_of_part(b: Seq<u8>, n: int)
    requires
        0 <= n <= b.len(),
    ensures
        headers_end(b.take(n), 0) == match headers_end(b, 0) {
            Some(s) => if s + 4 <= n {
                Some(s)
            } else {
                None
            },
            None => None,
        },
{
    let p = b.take(n);
    lemma_headers_end(b, 0);
    lemma_headers_end(p, 0);
    match headers_end(p, 0) {
        Some(t) => {
            assert(blank_line_at(b, t));
            match headers_end(b, 0) {
                Some(s) => {
                    assert(s <= t);
                    assert(blank_line_at(p, s));
                },
                None => {},
            }
        },
        None => {
            match headers_end(b, 0) {
                Some(s) => {
                    if s + 4 <= n {
                        assert(blank_line_at(p, s));
                    }
                },
                None => {},
            }
        },
    }
}

/// A response cut short is never taken for a whole one: of one whose headers
/// declare a length, no part that lacks a byte of that length has a body,
/// whether or not the connection was closed; of one that declares none, no
/// part has a body unless the connection was closed.
pub proof fn law_no_partial_body(resp: Seq<u8>, n: int, closed: bool)
    requires
        0 <= n <= resp.len(),
        headers_end(resp, 0) is Some,
    ensures
        ({
            let split = headers_end(resp, 0)->0;
            match declared_length(resp.take(split), 0) {
                Some(len) => n < split + 4 + len ==> response_body(resp.take(n), closed) is None,
                None => !closed ==> response_body(resp.take(n), closed) is None,
            }
        }),
{
    let split = headers_end(resp, 0)->0;
    lemma_headers_end(resp, 0);
    lemma_headers_end_of_part(resp, n);
    if split + 4 <= n {
        assert(resp.take(n).take(split) =~= resp.take(split));
    }
}

/// Trimming does not make a text longer.
proof fn lemma_trimmed_len(s: Seq<char>)
    ensures
        trim_start(s).len() <= s.len(),
        trim_end(s).len() <= s.len(),
    decreases s.len(),
{
    if s.len() > 0 {
        lemma_trimmed_len(s.drop_first());
        lemma_trimmed_len(s.drop_last());
    }
}

/// A line that declares a length has room for the header's name, and the
/// length is not negative.
proof fn lemma_line_length(line: Seq<u8>)
    ensures
        line_length(line) matches Some(n) ==> n >= 0 && line.len() > 14,
{
    if line_length(line) is Some {
        let s = decode_utf8(line);
        let colon = find_char(s, ':', 0);
        let name = trimmed(s.take(colon));
        lemma_find_char(s, ':', 0);
        lemma_trimmed_len(s.take(colon));
        lemma_trimmed_len(trim_start(s.take(colon)));
        reveal_strlit("content-length");
        assert(name.map_values(|c: char| lower(c)).len() == name.len());
        assert("content-length"@.map_values(|c: char| lower(c)).len() == 14);
        decode_utf8_encode_utf8(line);
        text::lemma_len_le_bytes(s);
        let v = trimmed(s.skip(colon + 1));
        let digits = if v.len() > 0 && v[0] == '+' {
            v.drop_first()
        } else {
            v
        };
        text::lemma_numeral_grows(digits, 10, 0);
    }
}

/// Headers that declare a length have room for the header's name, and the
/// length is not negative.
proof fn lemma_declared_length(headers: Seq<u8>, i: int)
    requires
        0 <= i,
    ensures
        declared_length(headers, i) matches Some(n) ==> n >= 0 && headers.len() > 14,
    decreases headers.len() - i,
{
    if i <= headers.len() {
        let e = find_byte(headers, 0x0a, i);
        lemma_find_byte(headers, 0x0a, i);
        lemma_line_length(headers.subrange(i, e));
        if e < headers.len() {
            lemma_declared_length(headers, e + 1);
        }
    }
}

/// What follows a body of declared length does not matter.
pub proof fn law_surplus_is_ignored(resp: Seq<u8>, n: int, closed: bool, still: bool)
    requires
        0 <= n <= resp.len(),
        headers_end(resp, 0) matches Some(split) && declared_length(
            resp.take(split),
            0,
        ) matches Some(len) && split + 4 + len <= n,
    ensures
        response_body(resp.take(n), closed) == response_body(resp, still),
{
    let split = headers_end(resp, 0)->0;
    let len = declared_length(resp.take(split), 0)->0;
    lemma_headers_end(resp, 0);
    lemma_headers_end_of_part(resp, n);
    lemma_declared_length(resp.take(split), 0);
    let p = resp.take(n);
    assert(p.take(split) =~= resp.take(split));
    assert(p.skip(split + 4).take(len) =~= resp.skip(split + 4).take(len));
    assert(p[9] == resp[9]);
}

/// A response is accepted only if its status begins with a two.
pub proof fn law_only_success_has_a_body(resp: Seq<u8>, closed: bool)
    requires
        response_body(resp, closed) is Some,
    ensures
        resp.len() > 9,
        resp[9] == 0x32,
{
}

/// A whole response has its body: of one whose status begins with a two and
/// whose headers end at the first empty line, the body is exactly as many bytes
/// behind that line as the headers declare, however many, once they are all
/// there; and all bytes behind that line where the headers declare no length
/// and the connection was closed. Nothing else is a body.
pub proof fn law_whole_response_has_its_body(resp: Seq<u8>, split: int, closed: bool)
    requires
        resp.len() > 9,
        0 <= split,
        split + 4 <= resp.len(),
        resp[split] == 0x0d,
        resp[split + 1] == 0x0a,
        resp[split + 2] == 0x0d,
        resp[split + 3] == 0x0a,
        forall|k: int|
            0 <= k < split ==> #[trigger] resp[k] != 0x0d || resp[k + 1] != 0x0a || resp[k + 2]
                != 0x0d || resp[k + 3] != 0x0a,
    ensures
        ({
            let body = response_body(resp, closed);
            let there = resp.len() - (split + 4);
            if resp[9] != 0x32 {
                body is None
            } else {
                match declared_length(resp.take(split), 0) {
                    Some(n) => {
                        &&& 0 <= n
                        &&& n <= there ==> body == Some(resp.subrange(split + 4, split + 4 + n))
                        &&& n > there ==> body is None
                    },
                    None => body == if closed {
                        Some(resp.subrange(split + 4, resp.len() as int))
                    } else {
                        None
                    },
                }
            }
        }),
{
    assert(blank_line_at(resp, split));
    lemma_headers_end(resp, 0);
    let end = headers_end(resp, 0)->0;
    if end < split {
        assert(resp[end] == 0x0d);
    }
    assert(headers_end(resp, 0) == Some(split));
    lemma_declared_length(resp.take(split), 0);
    let rest = resp.skip(split + 4);
    assert(rest =~= resp.subrange(split + 4, resp.len() as int));
    match declared_length(resp.take(split), 0) {
        Some(n) => {
            if n <= rest.len() {
                assert(rest.take(n) =~= resp.subrange(split + 4, split + 4 + n));
            }
        },
        None => {},
    }
}

/// The headers are read line by line, and the first line that declares a
/// length counts.
pub proof fn law_first_declared_length_counts(line: Seq<u8>, rest: Seq<u8>)
    requires
        forall|i: int| 0 <= i < line.len() ==> #[trigger] line[i] != 0x0a,
    ensures
        declared_length(line, 0) == line_length(line),
        declared_length(line + seq![0x0au8] + rest, 0) == match line_length(line) {
            Some(n) => Some(n),
            None => declared_length(rest, 0),
        },
{
    let whole = line + seq![0x0au8] + rest;
    let n = line.len() as int;
    lemma_find_byte(line, 0x0a, 0);
    assert(find_byte(line, 0x0a, 0) == n);
    assert(line.subrange(0, n) =~= line);
    lemma_find_byte(whole, 0x0a, 0);
    assert(whole[n] == 0x0a);
    assert forall|i: int| 0 <= i < n implies whole[i] != 0x0a by {
        assert(whole[i] == line[i]);
    }
    assert(find_byte(whole, 0x0a, 0) == n);
    assert(whole.subrange(0, n) =~= line);
    assert(whole.skip(n + 1) =~= rest);
    lemma_declared_in_rest(whole, n + 1, 0);
}

/// What is declared from a place on is what the headers from that place on
/// declare.
proof fn lemma_declared_in_rest(b: Seq<u8>, i: int, k: int)
    requires
        0 <= i <= b.len(),
        0 <= k <= b.len() - i,
    ensures
        declared_length(b, i + k) == declared_length(b.skip(i), k),
    decreases b.len() - i - k,
{
    let t = b.skip(i);
    lemma_find_byte(b, 0x0a, i + k);
    lemma_find_byte(t, 0x0a, k);
    let e = find_byte(t, 0x0a, k);
    let f = find_byte(b, 0x0a, i + k);
    assert(f == i + e) by {
        if f < i + e {
            assert(t[f - i] == b[f]);
        }
        if i + e < f {
            assert(t[e] == b[i + e]);
        }
    }
    assert(b.subrange(i + k, f) =~= t.subrange(k, e));
    if e < t.len() {
        lemma_declared_in_rest(b, i, e + 1);
    }
}

/// A header line that names a length declares it, whatever the length is, in
/// whatever case the name is written, and with any white space around the name
/// and the number.
pub proof fn law_length_is_declared(
    spaces: Seq<Seq<char>>,
    name: Seq<char>,
    n: int,
)
    requires
        spaces.len() == 4,
        forall|k: int, i: int|
            0 <= k < 4 && 0 <= i < spaces[k].len() ==> white_space(#[trigger] spaces[k][i]),
        same_but_case(name, "content-length"@),
        0 <= n <= usize::MAX,
    ensures
        line_length(
            encode_utf8(
                (spaces[0] + name + spaces[1]).push(':') + (spaces[2] + dec(n) + spaces[3]),
            ),
        ) == Some(n),
{
    let field = spaces[0] + name + spaces[1];
    let value = spaces[2] + dec(n) + spaces[3];
    let s = field.push(':') + value;
    let colon = field.len() as int;
    encode_utf8_decode_utf8(s);
    encode_utf8_valid_utf8(s);
    reveal_strlit("content-length");
    let cl = "content-length"@;
    let la = name.map_values(|c: char| lower(c));
    let lb = cl.map_values(|c: char| lower(c));
    assert(la.len() == lb.len());
    assert forall|i: int| 0 <= i < name.len() implies name[i] != ':' && !white_space(name[i]) by {
        assert(la[i] == lower(name[i]));
        assert(lb[i] == lower(cl[i]));
    }
    assert forall|i: int| 0 <= i < colon implies s[i] != ':' by {
        if i < spaces[0].len() {
            assert(s[i] == spaces[0][i]);
        } else if i < spaces[0].len() + name.len() {
            assert(s[i] == name[i - spaces[0].len()]);
        } else {
            assert(s[i] == spaces[1][i - spaces[0].len() - name.len()]);
        }
    }
    assert(s[colon] == ':');
    lemma_find_char(s, ':', 0);
    assert(find_char(s, ':', 0) == colon);
    assert(s.take(colon) =~= field);
    assert(s.skip(colon + 1) =~= value);
    text::law_number_reads_back(n);
    text::law_trimming(spaces[0], name, spaces[1]);
    text::law_trimming(spaces[2], dec(n), spaces[3]);
    text::law_numeral_is_read(n, usize::MAX as int, seq![], 10);
}

/// A request names its method, path and host whole, in this order, each at its
/// place in the first two lines, and carries a token in a line of its own where
/// there is one; it ends with an empty line and holds no other text.
pub proof fn law_request_carries_its_parts(
    method: Seq<char>,
    path: Seq<char>,
    version: Seq<char>,
    host: Seq<char>,
    token: Seq<char>,
)
    ensures
        ({
            let plain = request_text(method, path, version, host, None);
            let signed = request_text(method, path, version, host, Some(token));
            let m = method.len() as int;
            let p = m + 1 + path.len();
            let v = p + 6 + version.len();
            let h = v + 8 + host.len();
            let t = h + 24 + token.len();
            &&& plain.take(m) == method
            &&& plain[m] == ' '
            &&& plain.subrange(m + 1, p) == path
            &&& plain.subrange(p, p + 6) == " HTTP/"@
            &&& plain.subrange(p + 6, v) == version
            &&& plain.subrange(v, v + 8) == "\r\nHost: "@
            &&& plain.subrange(v + 8, h) == host
            &&& plain.subrange(h, h + 2) == "\r\n"@
            &&& plain.skip(h + 2) == "Connection: close\r\n\r\n"@
            &&& signed.take(h + 2) == plain.take(h + 2)
            &&& signed.subrange(h + 2, h + 24) == "Authorization: Bearer "@
            &&& signed.subrange(h + 24, t) == token
            &&& signed.subrange(t, t + 2) == "\r\n"@
            &&& signed.skip(t + 2) == "Connection: close\r\n\r\n"@
        }),
{
    reveal_strlit(" ");
    reveal_strlit(" HTTP/");
    reveal_strlit("\r\nHost: ");
    reveal_strlit("\r\n");
    reveal_strlit("Authorization: Bearer ");
    reveal_strlit("Connection: close\r\n\r\n");
    let plain = request_text(method, path, version, host, None);
    let signed = request_text(method, path, version, host, Some(token));
    let m = method.len() as int;
    let p = m + 1 + path.len();
    let v = p + 6 + version.len();
    let h = v + 8 + host.len();
    let t = h + 24 + token.len();
    assert(plain.take(m) =~= method);
    assert(plain.subrange(m + 1, p) =~= path);
    assert(plain.subrange(p, p + 6) =~= " HTTP/"@);
    assert(plain.subrange(p + 6, v) =~= version);
    assert(plain.subrange(v, v + 8) =~= "\r\nHost: "@);
    assert(plain.subrange(v + 8, h) =~= host);
    assert(plain.subrange(h, h + 2) =~= "\r\n"@);
    assert(plain.skip(h + 2) =~= "Connection: close\r\n\r\n"@);
    assert(signed.take(h + 2) =~= plain.take(h + 2));
    assert(signed.subrange(h + 2, h + 24) =~= "Authorization: Bearer "@);
    assert(signed.subrange(h + 24, t) =~= token);
    assert(signed.subrange(t, t + 2) =~= "\r\n"@);
    assert(signed.skip(t + 2) =~= "Connection: close\r\n\r\n"@);
}

/// A response may come in any pieces: reading two pieces is reading their bytes
/// at once. It is read on until the server closes the connection, a read fails,
/// or more than the body and 2048 bytes of headers were read; what was read
/// stays, in every case.
pub proof fn law_pieces_do_not_matter(
    resp: Seq<u8>,
    closed: bool,
    max_body: int,
    a: Vec<u8>,
    b: Vec<u8>,
)
    requires
        a@.len() > 0,
        b@.len() > 0,
    ensures
        ({
            let one = read_on(resp, closed, max_body, ReadOutcome::Bytes(a));
            let two = read_on(one.0, one.1, max_body, ReadOutcome::Bytes(b));
            let failed = read_on(resp, closed, max_body, ReadOutcome::Failed);
            &&& one.0 == resp + a@
            &&& two.0 == resp + (a@ + b@)
            &&& !one.1 && !two.1
            &&& one.2 <==> resp.len() + a@.len() <= max_body + 2048
            &&& two.2 <==> resp.len() + a@.len() + b@.len() <= max_body + 2048
            &&& failed.0 == resp
            &&& failed.1 == closed
            &&& !failed.2
        }),
        forall|end: Vec<u8>|
            end@.len() == 0 ==> {
                let over = #[trigger] read_on(resp, closed, max_body, ReadOutcome::Bytes(end));
                over.0 == resp && over.1 && !over.2
            },
{
    assert(resp + a@ + b@ =~= resp + (a@ + b@));
}

/// No other line declares a length: not one that is no text, has no colon, has
/// another name in front of it, or no number behind it.
pub proof fn law_other_lines_declare_nothing(line: Seq<u8>, field: Seq<char>, value: Seq<char>)
    requires
        forall|i: int| 0 <= i < field.len() ==> #[trigger] field[i] != ':',
    ensures
        !valid_utf8(line) ==> line_length(line) is None,
        line_length(encode_utf8(field)) is None,
        !same_but_case(trimmed(field), "content-length"@) ==> line_length(
            encode_utf8(field.push(':') + value),
        ) is None,
        parsed(trimmed(value), 10, usize::MAX as int) is None ==> line_length(
            encode_utf8(field.push(':') + value),
        ) is None,
{
    let s = field.push(':') + value;
    let n = field.len() as int;
    encode_utf8_decode_utf8(field);
    encode_utf8_decode_utf8(s);
    lemma_find_char(field, ':', 0);
    lemma_find_char(s, ':', 0);
    assert(s[n] == ':');
    assert forall|i: int| 0 <= i < n implies s[i] != ':' by {
        assert(s[i] == field[i]);
    }
    assert(find_char(s, ':', 0) == n);
    assert(s.take(n) =~= field);
    assert(s.skip(n + 1) =~= value);
}

/// A response whose headers do not end, or that is too short for a status, has
/// no body, whether or not the connection was closed.
pub proof fn law_headers_must_end(resp: Seq<u8>, closed: bool)
    requires
        resp.len() <= 9 || forall|k: int|
            0 <= k <= resp.len() - 4 ==> #[trigger] resp[k] != 0x0d || resp[k + 1] != 0x0a || resp[k
                + 2] != 0x0d || resp[k + 3] != 0x0a,
    ensures
        response_body(resp, closed) is None,
{
    lemma_headers_end(resp, 0);
    if resp.len() > 9 && headers_end(resp, 0) is Some {
        let s = headers_end(resp, 0)->0;
        assert(resp[s] == 0x0d);
    }
}

} // verus!
