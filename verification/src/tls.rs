//! The pieces of a TLS session that are no cryptography: the wall clock that
//! certificates are checked against, random bytes out of random words, and the
//! end of a stream.
use vstd::prelude::*;

verus! {

/// Bytes of the buffer for records read: one may be 16 KiB plus expansion.
pub const READ_BUF: usize = 16_640;

/// Bytes of the buffer for records written.
pub const WRITE_BUF: usize = 4_096;

/// Seconds since 1970 for the validity of certificates, zero while the clock
/// was never set.
pub struct WallClock {
    pub unix: u32,
}

impl WallClock {
    /// A clock that was never set.
    pub fn new() -> (r: Self)
        ensures
            r.unix == 0,
    {
        WallClock { unix: 0 }
    }

    /// Sets the clock, keeping the low 32 bits.
    pub fn set_now_unix(&mut self, unix: u64)
        ensures
            final(self).unix == unix % 0x1_0000_0000,
    {
        let low: u64 = unix % 0x1_0000_0000;
        self.unix = low as u32;
    }

    /// The time, or nothing while the clock was never set, so that validity
    /// is not checked.
    pub fn now(&self) -> (r: Option<u64>)
        ensures
            r == if self.unix == 0 {
                None
            } else {
                Some(self.unix as u64)
            },
    {
        if self.unix == 0 {
            None
        } else {
            Some(self.unix as u64)
        }
    }
}

/// Byte `i` of a word, the lowest first.
pub open spec fn word_byte(word: u32, i: int) -> int {
    if i == 0 {
        word as int % 256
    } else if i == 1 {
        (word as int / 256) % 256
    } else if i == 2 {
        (word as int / 65536) % 256
    } else {
        (word as int / 16777216) % 256
    }
}

/// Byte `i` of a word, the lowest first.
fn byte_of(word: u32, i: usize) -> (r: u8)
    requires
        i < 4,
    ensures
        r == word_byte(word, i as int),
{
    if i == 0 {
        (word % 256) as u8
    } else if i == 1 {
        ((word / 256) % 256) as u8
    } else if i == 2 {
        ((word / 65536) % 256) as u8
    } else {
        ((word / 16777216) % 256) as u8
    }
}

/// Two random words as one number, the first of them on top.
pub fn next_u64(first: u32, second: u32) -> (r: u64)
    ensures
        r == first * 0x1_0000_0000 + second,
{
    first as u64 * 0x1_0000_0000 + second as u64
}

/// How many words fill `len` bytes.
pub fn words_for(len: usize) -> (r: usize)
    ensures
        r == (len + 3) / 4,
{
    if len % 4 == 0 {
        len / 4
    } else {
        len / 4 + 1
    }
}

/// Fills a buffer with the bytes of words, the lowest byte of each first. Of
/// the last word as many are used as there is room for.
pub fn fill_bytes(dest: &mut [u8], words: &[u32])
    requires
        words@.len() == (old(dest)@.len() + 3) / 4,
    ensures
        final(dest)@.len() == old(dest)@.len(),
        forall|i: int|
            0 <= i < final(dest)@.len() ==> #[trigger] final(dest)@[i] == word_byte(
                words@[i / 4],
                i % 4,
            ),
{
    let n: usize = dest.len();
    let mut i: usize = 0;
    while i < n
        invariant
            i <= n,
            n == dest@.len(),
            n == old(dest)@.len(),
            words@.len() == (n + 3) / 4,
            forall|k: int|
                0 <= k < i ==> #[trigger] dest@[k] == word_byte(words@[k / 4], k % 4),
        decreases n - i,
    {
        dest[i] = byte_of(words[i / 4], i % 4);
        i = i + 1;
    }
}

/// How a read of a session can fail.
#[derive(Clone, Copy, Debug, PartialEq, Eq, Structural)]
pub enum StreamError {
    /// The server said that it closes the session.
    ConnectionClosed,
    /// Anything else.
    Broken,
}

/// Presents a session as a plain stream of bytes: that the server closes the
/// session marks the stream complete, so it reads as its end.
pub fn stream_read(result: Result<usize, StreamError>) -> (r: Result<usize, StreamError>)
    ensures
        r == if result == Err::<usize, StreamError>(StreamError::ConnectionClosed) {
            Ok(0)
        } else {
            result
        },
{
    match result {
        Err(StreamError::ConnectionClosed) => Ok(0),
        other => other,
    }
}

/// The four bytes of a word make up the word, the least significant first.
pub proof fn law_bytes_make_up_the_word(word: u32)
    ensures
        word_byte(word, 0) + 256 * word_byte(word, 1) + 65536 * word_byte(word, 2) + 16777216
            * word_byte(word, 3) == word,
        forall|i: int| 0 <= i < 4 ==> 0 <= #[trigger] word_byte(word, i) < 256,
{
}

} // verus!
