//! One remembered network: an SSID and a passphrase in arrays of fixed size.
use vstd::prelude::*;
use vstd::string::*;
use vstd::utf8::*;

use crate::text;

verus! {

/// Bytes that an SSID may have.
pub const SSID_CAP: usize = 32;

/// Bytes kept of a passphrase: one more than the longest there is, for a round
/// size.
pub const PASSWORD_CAP: usize = 64;

/// The smaller of two numbers.
pub open spec fn least(a: int, b: int) -> int {
    if a <= b {
        a
    } else {
        b
    }
}

/// `src` cut to `cap` bytes, in front of what the rest of `dst` holds.
pub open spec fn copied(dst: Seq<u8>, src: Seq<u8>) -> Seq<u8> {
    let n = least(src.len() as int, dst.len() as int);
    src.take(n) + dst.skip(n)
}

/// Copies `src` into `dst`, cut to the bytes that fit, and returns how many
/// were written.
pub fn copy_str(dst: &mut [u8], src: &str) -> (r: u8)
    ensures
        final(dst)@ == copied(old(dst)@, src.spec_bytes()),
        r == least(src.spec_bytes().len() as int, old(dst)@.len() as int) as u8,
{
    let bytes: &[u8] = src.as_bytes();
    let n: usize = if bytes.len() < dst.len() {
        bytes.len()
    } else {
        dst.len()
    };
    let mut i: usize = 0;
    while i < n
        invariant
            i <= n,
            n == least(bytes@.len() as int, old(dst)@.len() as int),
            dst@.len() == old(dst)@.len(),
            dst@ == bytes@.take(i as int) + old(dst)@.skip(i as int),
        decreases n - i,
    {
        dst[i] = bytes[i];
        i = i + 1;
    }
    n as u8
}

/// One remembered network. The length bytes say how much of each array
/// counts.
#[derive(Clone, Copy)]
pub struct WifiNetwork {
    pub ssid: [u8; 32],
    pub ssid_len: u8,
    pub password: [u8; 64],
    pub password_len: u8,
}

/// What one remembered network holds.
#[verifier::ext_equal]
pub struct NetworkView {
    pub ssid: Seq<u8>,
    pub ssid_len: int,
    pub password: Seq<u8>,
    pub password_len: int,
}

impl View for WifiNetwork {
    type V = NetworkView;

    open spec fn view(&self) -> NetworkView {
        NetworkView {
            ssid: self.ssid@,
            ssid_len: self.ssid_len as int,
            password: self.password@,
            password_len: self.password_len as int,
        }
    }
}

/// The text of `bytes`, which is empty where they are not well-formed UTF-8.
pub open spec fn text_or_empty(bytes: Seq<u8>) -> Seq<char> {
    if valid_utf8(bytes) {
        decode_utf8(bytes)
    } else {
        seq![]
    }
}

impl NetworkView {
    /// The SSID's text.
    pub open spec fn ssid_text(self) -> Seq<char> {
        text_or_empty(self.ssid.take(least(self.ssid_len, 32)))
    }

    /// The passphrase's text.
    pub open spec fn password_text(self) -> Seq<char> {
        text_or_empty(self.password.take(least(self.password_len, 64)))
    }

    /// The entry that remembers nothing.
    pub open spec fn empty() -> NetworkView {
        NetworkView {
            ssid: Seq::new(32, |i: int| 0u8),
            ssid_len: 0,
            password: Seq::new(64, |i: int| 0u8),
            password_len: 0,
        }
    }

    /// The entry for an SSID and a passphrase, each cut to the bytes that fit.
    pub open spec fn remembering(ssid: Seq<char>, password: Seq<char>) -> NetworkView {
        let s = encode_utf8(ssid);
        let p = encode_utf8(password);
        NetworkView {
            ssid: copied(NetworkView::empty().ssid, s),
            ssid_len: least(s.len() as int, 32),
            password: copied(NetworkView::empty().password, p),
            password_len: least(p.len() as int, 64),
        }
    }

    /// Both length bytes stay within their arrays.
    pub open spec fn well_formed(self) -> bool {
        &&& self.ssid.len() == 32
        &&& 0 <= self.ssid_len <= 32
        &&& self.password.len() == 64
        &&& 0 <= self.password_len <= 64
    }
}

/// The text of the first `len` bytes, or no text where they are not
/// well-formed UTF-8.
pub fn text_of(bytes: &[u8], len: usize) -> (r: &str)
    requires
        len <= bytes@.len(),
    ensures
        r@ == text_or_empty(bytes@.take(len as int)),
{
    let head: &[u8] = &bytes[0..len];
    assert(head@ =~= bytes@.take(len as int));
    match text::from_utf8(head) {
        Some(s) => {
            proof {
                encode_utf8_decode_utf8(s@);
            }
            s
        },
        None => {
            proof {
                reveal_strlit("");
            }
            assert(""@ =~= seq![]);
            ""
        },
    }
}

impl WifiNetwork {
    /// The entry that remembers nothing.
    pub fn empty() -> (r: Self)
        ensures
            r@ == NetworkView::empty(),
    {
        let r: WifiNetwork = WifiNetwork {
            ssid: [0u8; 32],
            ssid_len: 0,
            password: [0u8; 64],
            password_len: 0,
        };
        assert(r@ =~= NetworkView::empty());
        r
    }

    /// The entry for an SSID and a passphrase.
    pub fn new(ssid: &str, password: &str) -> (r: Self)
        ensures
            r@ == NetworkView::remembering(ssid@, password@),
    {
        let mut net: WifiNetwork = WifiNetwork::empty();
        net.ssid_len = copy_str(&mut net.ssid, ssid);
        net.password_len = copy_str(&mut net.password, password);
        net
    }

    /// The SSID, or no text where its bytes are not well-formed UTF-8.
    pub fn ssid(&self) -> (r: &str)
        ensures
            r@ == self@.ssid_text(),
    {
        let len: usize = if self.ssid_len < 32 {
            self.ssid_len as usize
        } else {
            32
        };
        text_of(&self.ssid, len)
    }

    /// The passphrase, or no text where its bytes are not well-formed UTF-8.
    pub fn password(&self) -> (r: &str)
        ensures
            r@ == self@.password_text(),
    {
        let len: usize = if self.password_len < 64 {
            self.password_len as usize
        } else {
            64
        };
        text_of(&self.password, len)
    }
}

/// A remembered SSID and passphrase that fit read back as they were given.
pub proof fn law_network_reads_back(ssid: Seq<char>, password: Seq<char>)
    ensures
        NetworkView::remembering(ssid, password).well_formed(),
        encode_utf8(ssid).len() <= SSID_CAP ==> NetworkView::remembering(
            ssid,
            password,
        ).ssid_text() == ssid,
        encode_utf8(password).len() <= PASSWORD_CAP ==> NetworkView::remembering(
            ssid,
            password,
        ).password_text() == password,
{
    let s = encode_utf8(ssid);
    let p = encode_utf8(password);
    let net = NetworkView::remembering(ssid, password);
    encode_utf8_valid_utf8(ssid);
    encode_utf8_decode_utf8(ssid);
    encode_utf8_valid_utf8(password);
    encode_utf8_decode_utf8(password);
    if s.len() <= 32 {
        assert(net.ssid.take(s.len() as int) =~= s);
    }
    if p.len() <= 64 {
        assert(net.password.take(p.len() as int) =~= p);
    }
}

/// What is stored of a text are its bytes from the first on, as many as there
/// is room for; the room that is left stays as it was.
pub proof fn law_bytes_are_stored_from_the_first(dst: Seq<u8>, src: Seq<u8>)
    ensures
        copied(dst, src).len() == dst.len(),
        forall|i: int|
            0 <= i < dst.len() ==> #[trigger] copied(dst, src)[i] == if i < src.len() {
                src[i]
            } else {
                dst[i]
            },
{
}

/// What is stored is read as text where it is well-formed, and as nothing where
/// it is not.
pub proof fn law_stored_text_is_read(text: Seq<char>, bytes: Seq<u8>)
    ensures
        text_or_empty(encode_utf8(text)) == text,
        !valid_utf8(bytes) ==> text_or_empty(bytes).len() == 0,
{
    encode_utf8_valid_utf8(text);
    encode_utf8_decode_utf8(text);
}

} // verus!
