//! The bytes that settings are stored as: two magic bytes, a version, the
//! fields in order and a checksum over all of them. Blobs of the four layouts
//! before the present one are read too; anything else is refused.
use vstd::prelude::*;

use super::choices::{
    law_choice_codes, FontFamily, FontSize, IconSize, IconStyle, Io48Action, LineSpacing,
};
use super::networks::{least, NetworkView, WifiNetwork};
use super::{Settings, SettingsView};

verus! {

/// Bytes of a stored blob.
pub const BLOB_LEN: usize = 518;

/// The layout version that is written.
pub const VERSION: u8 = 9;

/// The exclusive-or of all bytes.
pub open spec fn checksum(s: Seq<u8>) -> u8
    decreases s.len(),
{
    if s.len() == 0 {
        0
    } else {
        checksum(s.drop_last()) ^ s.last()
    }
}

/// Whether the byte at `at` is the checksum of those in front of it.
pub open spec fn sealed(b: Seq<u8>, at: int) -> bool {
    checksum(b.take(at)) == b[at]
}

/// The network entry stored from `off` on.
pub open spec fn network_at(b: Seq<u8>, off: int) -> NetworkView {
    NetworkView {
        ssid: b.subrange(off + 1, off + 33),
        ssid_len: least(b[off] as int, 32),
        password: b.subrange(off + 34, off + 98),
        password_len: least(b[off + 33] as int, 64),
    }
}

/// The five network entries stored from `off` on.
pub open spec fn networks_at(b: Seq<u8>, off: int) -> Seq<NetworkView> {
    Seq::new(5, |i: int| network_at(b, off + i * 98))
}

/// The scalar fields that every layout has at the same place, with the rest
/// as it is before any settings were saved.
pub open spec fn scalars(b: Seq<u8>) -> SettingsView {
    SettingsView {
        tz_offset_hours: b[3] as i8,
        time_24h: b[4] != 0,
        brightness: least(b[5] as int, 100),
        reader_font_size: FontSize::of_code(b[6]),
        reader_font_family: FontFamily::of_code(b[7]),
        reader_line_spacing: LineSpacing::of_code(b[8]),
        icon_style: IconStyle::of_code(b[9]),
        icon_size: IconSize::of_code(b[10]),
        io48_action: Io48Action::Sleep,
        mesh_background: false,
        alias: Seq::new(12, |i: int| 0u8),
        alias_len: 0,
        networks: Seq::new(5, |i: int| NetworkView::empty()),
        count: 0,
    }
}

/// What a blob of the present layout holds.
pub open spec fn read_v9(b: Seq<u8>) -> Option<SettingsView> {
    if !sealed(b, 517) {
        None
    } else {
        Some(
            SettingsView {
                mesh_background: b[11] != 0,
                io48_action: Io48Action::of_code(b[12]),
                alias: b.subrange(14, 26),
                alias_len: least(b[13] as int, 12),
                networks: networks_at(b, 27),
                count: least(b[26] as int, 5),
                ..scalars(b)
            },
        )
    }
}

/// What a blob of layout 8 holds: no auxiliary button yet, so the alias stands
/// one byte earlier.
pub open spec fn read_v8(b: Seq<u8>) -> Option<SettingsView> {
    if !sealed(b, 516) {
        None
    } else {
        Some(
            SettingsView {
                mesh_background: b[11] != 0,
                alias: b.subrange(13, 25),
                alias_len: least(b[12] as int, 12),
                networks: networks_at(b, 26),
                count: least(b[25] as int, 5),
                ..scalars(b)
            },
        )
    }
}

/// What a blob of layout 7 holds: no alias either.
pub open spec fn read_v7(b: Seq<u8>) -> Option<SettingsView> {
    if !sealed(b, 503) {
        None
    } else {
        Some(
            SettingsView {
                mesh_background: b[11] != 0,
                networks: networks_at(b, 13),
                count: least(b[12] as int, 5),
                ..scalars(b)
            },
        )
    }
}

/// What a blob of layout 6 holds: no background flag for the mesh either.
pub open spec fn read_v6(b: Seq<u8>) -> Option<SettingsView> {
    if !sealed(b, 502) {
        None
    } else {
        Some(
            SettingsView {
                networks: networks_at(b, 12),
                count: least(b[11] as int, 5),
                ..scalars(b)
            },
        )
    }
}

/// What a blob of layout 5 holds: one network, which becomes the first entry
/// of the table where it has an SSID.
pub open spec fn read_v5(b: Seq<u8>) -> Option<SettingsView> {
    if !sealed(b, 109) {
        None
    } else {
        Some(
            SettingsView {
                networks: Seq::new(
                    5,
                    |i: int|
                        if i == 0 {
                            network_at(b, 11)
                        } else {
                            NetworkView::empty()
                        },
                ),
                count: if b[11] > 0 {
                    1
                } else {
                    0
                },
                ..scalars(b)
            },
        )
    }
}

/// What a stored blob holds, where it is one.
pub open spec fn read_blob(b: Seq<u8>) -> Option<SettingsView> {
    if b[0] != 0x54 || b[1] != 0x35 {
        None
    } else if b[2] == 9 {
        read_v9(b)
    } else if b[2] == 8 {
        read_v8(b)
    } else if b[2] == 7 {
        read_v7(b)
    } else if b[2] == 6 {
        read_v6(b)
    } else if b[2] == 5 {
        read_v5(b)
    } else {
        None
    }
}

/// The bytes of one network entry.
pub open spec fn network_bytes(n: NetworkView) -> Seq<u8> {
    seq![least(n.ssid_len, 32) as u8] + n.ssid + seq![least(n.password_len, 64) as u8]
        + n.password
}

/// The bytes of `n` entries of the table.
pub open spec fn table_bytes(table: Seq<NetworkView>, n: int) -> Seq<u8>
    decreases n,
{
    if n <= 0 {
        seq![]
    } else {
        table_bytes(table, n - 1) + network_bytes(table[n - 1])
    }
}

/// A flag as a byte.
pub open spec fn flag(b: bool) -> u8 {
    if b {
        1
    } else {
        0
    }
}

/// The first bytes of a blob, up to the alias.
pub open spec fn header(s: SettingsView) -> Seq<u8> {
    seq![
        0x54u8,
        0x35u8,
        9u8,
        s.tz_offset_hours as u8,
        flag(s.time_24h),
        least(s.brightness, 100) as u8,
        s.reader_font_size.code(),
        s.reader_font_family.code(),
        s.reader_line_spacing.code(),
        s.icon_style.code(),
        s.icon_size.code(),
        flag(s.mesh_background),
        s.io48_action.code(),
    ]
}

/// The bytes of a blob in front of its checksum.
pub open spec fn blob_body(s: SettingsView) -> Seq<u8> {
    header(s) + seq![least(s.alias_len, 12) as u8] + s.alias + seq![least(s.count, 5) as u8]
        + table_bytes(s.networks, 5)
}

/// The bytes that settings are stored as.
pub open spec fn blob(s: SettingsView) -> Seq<u8> {
    blob_body(s).push(checksum(blob_body(s)))
}

/// The checksum of the first `n` bytes.
fn checksum_of(bytes: &[u8], n: usize) -> (r: u8)
    requires
        n <= bytes@.len(),
    ensures
        r == checksum(bytes@.take(n as int)),
{
    let mut acc: u8 = 0;
    let mut i: usize = 0;
    while i < n
        invariant
            i <= n <= bytes@.len(),
            acc == checksum(bytes@.take(i as int)),
        decreases n - i,
    {
        acc = acc ^ bytes[i];
        i = i + 1;
        assert(bytes@.take(i as int).drop_last() =~= bytes@.take(i - 1));
    }
    acc
}

/// Appends all bytes of `src`.
fn push_bytes(out: &mut Vec<u8>, src: &[u8])
    ensures
        final(out)@ == old(out)@ + src@,
{
    let mut i: usize = 0;
    while i < src.len()
        invariant
            i <= src@.len(),
            out@ == old(out)@ + src@.take(i as int),
        decreases src@.len() - i,
    {
        out.push(src[i]);
        i = i + 1;
        assert(src@.take(i as int) =~= src@.take(i - 1).push(src@[i - 1]));
    }
    assert(src@.take(src@.len() as int) =~= src@);
}

/// Copies bytes from `off` on over all of `dst`.
fn fill_from(dst: &mut [u8], src: &[u8], off: usize)
    requires
        off + old(dst)@.len() <= src@.len(),
    ensures
        final(dst)@ == src@.subrange(off as int, off + old(dst)@.len()),
{
    let n: usize = dst.len();
    let total: usize = src.len();
    let mut i: usize = 0;
    while i < n
        invariant
            i <= n,
            n == dst@.len(),
            n == old(dst)@.len(),
            off + n <= total,
            total == src@.len(),
            forall|k: int| 0 <= k < i ==> dst@[k] == src@[off + k],
        decreases n - i,
    {
        dst[i] = src[off + i];
        i = i + 1;
    }
    assert(dst@ =~= src@.subrange(off as int, off + old(dst)@.len()));
}

/// The smaller of two bytes.
fn min_u8(a: u8, b: u8) -> (r: u8)
    ensures
        r == least(a as int, b as int),
{
    if a < b {
        a
    } else {
        b
    }
}

/// A flag as a byte.
fn flag_byte(b: bool) -> (r: u8)
    ensures
        r == flag(b),
{
    if b {
        1
    } else {
        0
    }
}

/// Reads the network entry stored from `off` on.
fn read_network(buf: &[u8; 518], off: usize) -> (r: WifiNetwork)
    requires
        off + 98 <= 518,
    ensures
        r@ == network_at(buf@, off as int),
{
    let mut net: WifiNetwork = WifiNetwork::empty();
    net.ssid_len = min_u8(buf[off], 32);
    fill_from(&mut net.ssid, buf, off + 1);
    net.password_len = min_u8(buf[off + 33], 64);
    fill_from(&mut net.password, buf, off + 34);
    net
}

/// Reads the five network entries stored from `off` on.
fn read_networks(buf: &[u8; 518], off: usize) -> (r: [WifiNetwork; 5])
    requires
        off + 490 <= 518,
    ensures
        Seq::new(5, |i: int| r@[i]@) == networks_at(buf@, off as int),
{
    let empty: WifiNetwork = WifiNetwork::empty();
    let mut nets: [WifiNetwork; 5] = [empty; 5];
    let mut i: usize = 0;
    while i < 5
        invariant
            i <= 5,
            off + 490 <= 518,
            forall|k: int|
                0 <= k < i ==> (#[trigger] nets@[k])@ == network_at(buf@, off + k * 98),
        decreases 5 - i,
    {
        nets[i] = read_network(buf, off + i * 98);
        i = i + 1;
    }
    assert(Seq::new(5, |i: int| nets@[i]@) =~= networks_at(buf@, off as int));
    nets
}

impl Settings {
    /// The fields that every layout has at the same place, with the rest as it
    /// is before any settings were saved.
    fn read_scalars(buf: &[u8; 518]) -> (r: Self)
        ensures
            r@ == scalars(buf@),
    {
        let empty: WifiNetwork = WifiNetwork::empty();
        let r: Settings = Settings {
            tz_offset_hours: buf[3] as i8,
            time_24h: buf[4] != 0,
            brightness: min_u8(buf[5], 100),
            reader_font_size: FontSize::from_byte(buf[6]),
            reader_font_family: FontFamily::from_byte(buf[7]),
            reader_line_spacing: LineSpacing::from_byte(buf[8]),
            icon_style: IconStyle::from_byte(buf[9]),
            icon_size: IconSize::from_byte(buf[10]),
            io48_action: Io48Action::Sleep,
            mesh_background: false,
            mesh_alias: [0u8; 12],
            mesh_alias_len: 0,
            wifi_networks: [empty; 5],
            wifi_network_count: 0,
        };
        assert(r@ =~= scalars(buf@));
        r
    }

    /// The bytes that the settings are stored as.
    pub fn encode(&self) -> (r: [u8; 518])
        ensures
            r@ == blob(self@),
    {
        let mut out: Vec<u8> = Vec::new();
        out.push(0x54);
        out.push(0x35);
        out.push(VERSION);
        out.push(self.tz_offset_hours as u8);
        out.push(flag_byte(self.time_24h));
        out.push(min_u8(self.brightness, 100));
        out.push(self.reader_font_size.to_byte());
        out.push(self.reader_font_family.to_byte());
        out.push(self.reader_line_spacing.to_byte());
        out.push(self.icon_style.to_byte());
        out.push(self.icon_size.to_byte());
        out.push(flag_byte(self.mesh_background));
        out.push(self.io48_action.to_byte());
        assert(out@ =~= header(self@));
        out.push(min_u8(self.mesh_alias_len, 12));
        push_bytes(&mut out, &self.mesh_alias);
        out.push(min_u8(self.wifi_network_count, 5));
        let ghost front = out@;
        assert(front =~= header(self@) + seq![least(self@.alias_len, 12) as u8] + self@.alias
            + seq![least(self@.count, 5) as u8]);
        let mut i: usize = 0;
        while i < 5
            invariant
                i <= 5,
                out@ == front + table_bytes(self@.networks, i as int),
                out@.len() == 27 + 98 * i,
            decreases 5 - i,
        {
            let net: &WifiNetwork = &self.wifi_networks[i];
            let ghost so_far = out@;
            out.push(min_u8(net.ssid_len, 32));
            push_bytes(&mut out, &net.ssid);
            out.push(min_u8(net.password_len, 64));
            push_bytes(&mut out, &net.password);
            assert(self@.networks[i as int] == net@);
            assert(out@ =~= so_far + network_bytes(net@));
            i = i + 1;
            assert(front + table_bytes(self@.networks, i as int) =~= so_far + network_bytes(net@));
        }
        assert(out@ == blob_body(self@));
        let sum: u8 = checksum_of(out.as_slice(), 517);
        assert(out@.take(517) =~= out@);
        out.push(sum);
        let mut buf: [u8; 518] = [0u8; 518];
        fill_from(&mut buf, out.as_slice(), 0);
        assert(out@.subrange(0, 518) =~= out@);
        buf
    }

    /// Reads a stored blob, of the present layout or one of the four before
    /// it.
    pub fn decode(buf: &[u8; 518]) -> (r: Option<Self>)
        ensures
            r is Some <==> read_blob(buf@) is Some,
            r matches Some(s) ==> read_blob(buf@) == Some(s@) && s@.well_formed(),
    {
        proof {
            law_read_is_well_formed(buf@);
        }
        if buf[0] != 0x54 || buf[1] != 0x35 {
            return None;
        }
        if buf[2] == 5 {
            return Settings::decode_v5(buf);
        }
        if buf[2] == 8 {
            return Settings::decode_v8(buf);
        }
        if buf[2] == 7 {
            return Settings::decode_v7(buf);
        }
        if buf[2] == 6 {
            return Settings::decode_v6(buf);
        }
        if buf[2] != VERSION {
            return None;
        }
        if checksum_of(buf, 517) != buf[517] {
            return None;
        }
        let mut s: Settings = Settings::read_scalars(buf);
        s.mesh_background = buf[11] != 0;
        s.io48_action = Io48Action::from_byte(buf[12]);
        fill_from(&mut s.mesh_alias, buf, 14);
        s.mesh_alias_len = min_u8(buf[13], 12);
        s.wifi_networks = read_networks(buf, 27);
        s.wifi_network_count = min_u8(buf[26], 5);
        Some(s)
    }

    /// Reads a blob of layout 8.
    pub fn decode_v8(buf: &[u8; 518]) -> (r: Option<Self>)
        ensures
            r is Some <==> read_v8(buf@) is Some,
            r matches Some(s) ==> read_v8(buf@) == Some(s@),
    {
        if checksum_of(buf, 516) != buf[516] {
            return None;
        }
        let mut s: Settings = Settings::read_scalars(buf);
        s.mesh_background = buf[11] != 0;
        fill_from(&mut s.mesh_alias, buf, 13);
        s.mesh_alias_len = min_u8(buf[12], 12);
        s.wifi_networks = read_networks(buf, 26);
        s.wifi_network_count = min_u8(buf[25], 5);
        Some(s)
    }

    /// Reads a blob of layout 7.
    pub fn decode_v7(buf: &[u8; 518]) -> (r: Option<Self>)
        ensures
            r is Some <==> read_v7(buf@) is Some,
            r matches Some(s) ==> read_v7(buf@) == Some(s@),
    {
        if checksum_of(buf, 503) != buf[503] {
            return None;
        }
        let mut s: Settings = Settings::read_scalars(buf);
        s.mesh_background = buf[11] != 0;
        s.wifi_networks = read_networks(buf, 13);
        s.wifi_network_count = min_u8(buf[12], 5);
        Some(s)
    }

    /// Reads a blob of layout 6.
    pub fn decode_v6(buf: &[u8; 518]) -> (r: Option<Self>)
        ensures
            r is Some <==> read_v6(buf@) is Some,
            r matches Some(s) ==> read_v6(buf@) == Some(s@),
    {
        if checksum_of(buf, 502) != buf[502] {
            return None;
        }
        let mut s: Settings = Settings::read_scalars(buf);
        s.wifi_networks = read_networks(buf, 12);
        s.wifi_network_count = min_u8(buf[11], 5);
        Some(s)
    }

    /// Reads a blob of layout 5.
    pub fn decode_v5(buf: &[u8; 518]) -> (r: Option<Self>)
        ensures
            r is Some <==> read_v5(buf@) is Some,
            r matches Some(s) ==> read_v5(buf@) == Some(s@),
    {
        if checksum_of(buf, 109) != buf[109] {
            return None;
        }
        let mut s: Settings = Settings::read_scalars(buf);
        let ghost before = s@.networks;
        let net: WifiNetwork = read_network(buf, 11);
        let count: u8 = if net.ssid_len > 0 {
            1
        } else {
            0
        };
        s.wifi_networks[0] = net;
        assert(s@.networks =~= before.update(0, net@));
        s.wifi_network_count = count;
        proof {
            let expected = read_v5(buf@)->0;
            assert(s@.networks =~= expected.networks);
        }
        Some(s)
    }

    /// The settings to start with: those that the stored blob holds, and
    /// `fresh` ones where it could not be read or is no blob.
    pub fn from_stored(stored: Option<[u8; 518]>, fresh: Settings) -> (r: Self)
        ensures
            r@ == match stored {
                Some(b) => match read_blob(b@) {
                    Some(s) => s,
                    None => fresh@,
                },
                None => fresh@,
            },
    {
        match stored {
            Some(b) => match Settings::decode(&b) {
                Some(s) => s,
                None => fresh,
            },
            None => fresh,
        }
    }
}

// ---------------------------------------------------------------------------
// What holds of blobs.
// ---------------------------------------------------------------------------

impl NetworkView {
    /// The entry with its lengths cut to what its arrays hold.
    pub open spec fn clamped(self) -> NetworkView {
        NetworkView {
            ssid_len: least(self.ssid_len, 32),
            password_len: least(self.password_len, 64),
            ..self
        }
    }
}

impl SettingsView {
    /// The settings with every length and count cut to what it counts, and the
    /// brightness to a percentage.
    pub open spec fn clamped(self) -> SettingsView {
        SettingsView {
            brightness: least(self.brightness, 100),
            alias_len: least(self.alias_len, 12),
            networks: self.networks.map_values(|n: NetworkView| n.clamped()),
            count: least(self.count, 5),
            ..self
        }
    }
}

/// Entry `i` of the table stands 98 bytes after entry `i - 1`.
proof fn lemma_table_bytes(table: Seq<NetworkView>, n: int)
    requires
        0 <= n <= table.len(),
        forall|i: int|
            0 <= i < n ==> (#[trigger] table[i]).ssid.len() == 32 && table[i].password.len() == 64,
    ensures
        table_bytes(table, n).len() == 98 * n,
        forall|i: int, j: int|
            0 <= i < n && 0 <= j < 98 ==> #[trigger] table_bytes(table, n)[98 * i + j]
                == #[trigger] network_bytes(table[i])[j],
    decreases n,
{
    if n > 0 {
        lemma_table_bytes(table, n - 1);
        assert(network_bytes(table[n - 1]).len() == 98);
        assert forall|i: int, j: int| 0 <= i < n && 0 <= j < 98 implies #[trigger] table_bytes(
            table,
            n,
        )[98 * i + j] == #[trigger] network_bytes(table[i])[j] by {
            if i < n - 1 {
                assert(table_bytes(table, n - 1)[98 * i + j] == network_bytes(table[i])[j]);
            }
        }
    }
}

/// Settings read back from the bytes they are stored as, with lengths, count
/// and brightness cut to what they count. Those of well-formed settings are
/// unchanged.
pub proof fn law_settings_read_back(s: Settings)
    ensures
        read_blob(blob(s@)) == Some(s@.clamped()),
        s@.well_formed() ==> read_blob(blob(s@)) == Some(s@),
{
    let v = s@;
    let b = blob(v);
    let body = blob_body(v);
    assert forall|i: int| 0 <= i < 5 implies (#[trigger] v.networks[i]).ssid.len() == 32
        && v.networks[i].password.len() == 64 by {
        assert(v.networks[i] == s.wifi_networks@[i]@);
    }
    lemma_table_bytes(v.networks, 5);
    let tb = table_bytes(v.networks, 5);
    assert(body.len() == 517);
    assert(b.take(517) =~= body);
    assert(sealed(b, 517));
    let r = read_blob(b)->0;
    let c = v.clamped();
    let tz = v.tz_offset_hours;
    assert((tz as u8) as i8 == tz) by (bit_vector);
    assert(r.alias =~= v.alias);
    assert forall|i: int| 0 <= i < 5 implies r.networks[i] == c.networks[i] by {
        let n = v.networks[i];
        let off = 27 + i * 98;
        let nb = network_bytes(n);
        assert forall|j: int| 0 <= j < 98 implies b[off + j] == nb[j] by {
            assert(b[off + j] == tb[98 * i + j]);
        }
        assert(b[off + 0] == nb[0]);
        assert(b[off + 33] == nb[33]);
        assert(r.networks[i].ssid =~= n.ssid) by {
            assert forall|k: int| 0 <= k < 32 implies r.networks[i].ssid[k] == n.ssid[k] by {
                assert(b[off + (k + 1)] == nb[k + 1]);
            }
        }
        assert(r.networks[i].password =~= n.password) by {
            assert forall|k: int| 0 <= k < 64 implies r.networks[i].password[k]
                == n.password[k] by {
                assert(b[off + (k + 34)] == nb[k + 34]);
            }
        }
    }
    assert(r.networks =~= c.networks);
    law_choice_codes(
        v.reader_font_size,
        v.reader_font_family,
        v.reader_line_spacing,
        v.icon_style,
        v.icon_size,
        v.io48_action,
    );
    assert(r =~= c);
    if v.well_formed() {
        assert(c.networks =~= v.networks);
    }
}

/// Whatever a blob holds is well-formed, in every layout.
pub proof fn law_read_is_well_formed(b: Seq<u8>)
    requires
        b.len() == BLOB_LEN,
    ensures
        read_blob(b) matches Some(s) ==> s.well_formed(),
{
}

/// Settings that were read from a blob, of whatever layout, and are saved
/// again read back unchanged.
pub proof fn law_migrated_settings_are_kept(b: Seq<u8>, s: Settings)
    requires
        b.len() == BLOB_LEN,
        read_blob(b) == Some(s@),
    ensures
        read_blob(blob(s@)) == Some(s@),
{
    law_read_is_well_formed(b);
    law_settings_read_back(s);
}

/// Changing one byte changes the checksum by the difference of the two.
proof fn lemma_checksum_update(s: Seq<u8>, at: int, x: u8)
    requires
        0 <= at < s.len(),
    ensures
        checksum(s.update(at, x)) == checksum(s) ^ s[at] ^ x,
    decreases s.len(),
{
    let t = s.update(at, x);
    let front = s.drop_last();
    let last = s.last();
    let c = checksum(front);
    if at == s.len() - 1 {
        assert(t.drop_last() =~= front);
        assert(c ^ x == (c ^ last) ^ last ^ x) by (bit_vector);
    } else {
        assert(t.drop_last() =~= front.update(at, x));
        lemma_checksum_update(front, at, x);
        let y = s[at];
        assert((c ^ y ^ x) ^ last == (c ^ last) ^ y ^ x) by (bit_vector);
    }
}

/// A blob of the present layout with one byte changed, other than the version,
/// is refused.
pub proof fn law_corruption_is_refused(b: Seq<u8>, at: int, x: u8)
    requires
        b.len() == BLOB_LEN,
        b[2] == VERSION,
        read_blob(b) is Some,
        0 <= at < BLOB_LEN,
        at != 2,
        x != b[at],
    ensures
        read_blob(b.update(at, x)) is None,
{
    let t = b.update(at, x);
    if at == 517 {
        assert(t.take(517) =~= b.take(517));
    } else if at >= 2 {
        let front = b.take(517);
        assert(t.take(517) =~= front.update(at, x));
        lemma_checksum_update(front, at, x);
        let c = checksum(front);
        let y = b[at];
        assert(x != y ==> c ^ y ^ x != c) by (bit_vector);
    }
}

/// Where everything stands in a stored image: two bytes that mark it and its
/// version, the settings one byte each, the name of the node behind its length,
/// the number of networks, and five networks of 98 bytes: an SSID of 32 bytes
/// and a passphrase of 64, each behind its length. The last byte is what all
/// the others come to.
pub proof fn law_layout_of_an_image(s: Settings, i: int)
    requires
        s@.well_formed(),
        0 <= i < 5,
    ensures
        ({
            let b = blob(s@);
            let n = s@.networks[i];
            let at = 27 + 98 * i;
            &&& b.len() == 518
            &&& b[0] == 0x54
            &&& b[1] == 0x35
            &&& b[2] == 9
            &&& b[3] == s.tz_offset_hours as u8
            &&& b[4] == if s.time_24h {
                1u8
            } else {
                0u8
            }
            &&& b[5] == s.brightness
            &&& b[6] == s.reader_font_size.code()
            &&& b[7] == s.reader_font_family.code()
            &&& b[8] == s.reader_line_spacing.code()
            &&& b[9] == s.icon_style.code()
            &&& b[10] == s.icon_size.code()
            &&& b[11] == if s.mesh_background {
                1u8
            } else {
                0u8
            }
            &&& b[12] == s.io48_action.code()
            &&& b[13] == s.mesh_alias_len
            &&& b.subrange(14, 26) == s.mesh_alias@
            &&& b[26] == s.wifi_network_count
            &&& b[at] == n.ssid_len
            &&& b.subrange(at + 1, at + 33) == n.ssid
            &&& b[at + 33] == n.password_len
            &&& b.subrange(at + 34, at + 98) == n.password
            &&& b[517] == checksum(b.take(517))
        }),
{
    let b = blob(s@);
    let n = s@.networks[i];
    let at = 27 + 98 * i;
    let table = table_bytes(s@.networks, 5);
    lemma_table_bytes(s@.networks, 5);
    assert(blob_body(s@).len() == 517);
    assert(b.take(517) =~= blob_body(s@));
    assert(b.subrange(14, 26) =~= s.mesh_alias@);
    let nb = network_bytes(n);
    assert forall|j: int| 0 <= j < 98 implies b[at + j] == nb[j] by {
        assert(b[at + j] == table[98 * i + j]);
    }
    assert(b[at + 0] == nb[0]);
    assert(b[at + 33] == nb[33]);
    assert forall|k: int| 0 <= k < 32 implies b.subrange(at + 1, at + 33)[k] == n.ssid[k] by {
        assert(b[at + (k + 1)] == nb[k + 1]);
    }
    assert(b.subrange(at + 1, at + 33) =~= n.ssid);
    assert forall|k: int| 0 <= k < 64 implies b.subrange(at + 34, at + 98)[k]
        == n.password[k] by {
        assert(b[at + (k + 34)] == nb[k + 34]);
    }
    assert(b.subrange(at + 34, at + 98) =~= n.password);
}

/// Earlier images are read as they were written. They hold the settings one
/// byte each too, up to the size of the icons; the radio's mode from version 7
/// on; the name of the node from version 8 on; the button's action in version 9
/// alone; and the networks behind all these, one of them in version 5.
pub proof fn law_earlier_images_are_read(b: Seq<u8>, i: int)
    requires
        b.len() == 518,
        b[0] == 0x54,
        b[1] == 0x35,
        5 <= b[2] <= 9,
        read_blob(b) is Some,
        0 <= i < 5,
    ensures
        ({
            let v = b[2] as int;
            let s = read_blob(b)->0;
            let counted = if v == 9 {
                26int
            } else if v == 8 {
                25
            } else if v == 7 {
                12
            } else {
                11
            };
            let at = if v == 5 {
                11int
            } else {
                counted + 1 + 98 * i
            };
            &&& s.tz_offset_hours == b[3] as i8
            &&& s.time_24h == (b[4] != 0)
            &&& s.brightness == if b[5] < 100 {
                b[5] as int
            } else {
                100
            }
            &&& s.reader_font_size == FontSize::of_code(b[6])
            &&& s.reader_font_family == FontFamily::of_code(b[7])
            &&& s.reader_line_spacing == LineSpacing::of_code(b[8])
            &&& s.icon_style == IconStyle::of_code(b[9])
            &&& s.icon_size == IconSize::of_code(b[10])
            &&& s.mesh_background == (v >= 7 && b[11] != 0)
            &&& s.io48_action == if v == 9 {
                Io48Action::of_code(b[12])
            } else {
                Io48Action::Sleep
            }
            &&& v == 9 ==> s.alias == b.subrange(14, 26) && s.alias_len == least(
                b[13] as int,
                12,
            )
            &&& v == 8 ==> s.alias == b.subrange(13, 25) && s.alias_len == least(
                b[12] as int,
                12,
            )
            &&& v < 8 ==> s.alias_len == 0
            &&& v > 5 ==> s.count == least(b[counted] as int, 5)
            &&& v == 5 ==> s.count == if b[11] > 0 {
                1int
            } else {
                0
            }
            &&& v > 5 || i == 0 ==> {
                &&& s.networks[i].ssid == b.subrange(at + 1, at + 33)
                &&& s.networks[i].ssid_len == least(b[at] as int, 32)
                &&& s.networks[i].password == b.subrange(at + 34, at + 98)
                &&& s.networks[i].password_len == least(b[at + 33] as int, 64)
            }
            &&& v == 5 && i > 0 ==> s.networks[i].ssid_len == 0 && s.networks[i].password_len == 0
        }),
{
}

/// An image is read exactly where it is marked as one, is of a version that is
/// known and is not damaged.
pub proof fn law_what_images_are_read(b: Seq<u8>)
    ensures
        read_blob(b) is Some <==> {
            &&& b[0] == 0x54
            &&& b[1] == 0x35
            &&& {
                ||| b[2] == 9 && checksum(b.take(517)) == b[517]
                ||| b[2] == 8 && checksum(b.take(516)) == b[516]
                ||| b[2] == 7 && checksum(b.take(503)) == b[503]
                ||| b[2] == 6 && checksum(b.take(502)) == b[502]
                ||| b[2] == 5 && checksum(b.take(109)) == b[109]
            }
        },
{
}

/// What bytes come to: each of them counts, and in no order.
pub proof fn law_every_byte_counts(a: Seq<u8>, b: Seq<u8>)
    ensures
        checksum(a + b) == checksum(a) ^ checksum(b),
        a.len() == 1 ==> checksum(a) == a[0],
    decreases b.len(),
{
    if a.len() == 1 {
        let x = a[0];
        assert(a.drop_last() =~= Seq::<u8>::empty());
        assert(checksum(Seq::<u8>::empty()) == 0);
        assert(0u8 ^ x == x) by (bit_vector);
    }
    let ca = checksum(a);
    if b.len() == 0 {
        assert(a + b =~= a);
        assert(ca ^ 0u8 == ca) by (bit_vector);
    } else {
        let front = b.drop_last();
        law_every_byte_counts(a, front);
        assert((a + b).drop_last() =~= a + front);
        let cf = checksum(front);
        let l = b.last();
        assert((ca ^ cf) ^ l == ca ^ (cf ^ l)) by (bit_vector);
    }
}

} // verus!
