//! The device's saved settings: what they hold, the table of known networks
//! and the bytes they are stored as.
use vstd::prelude::*;
use vstd::string::*;
use vstd::utf8::*;

use crate::ascii::{
    ascii_digits, ascii_value, digit_prefix, lemma_ascii_value_grows, lemma_digit_prefix,
};
use crate::text::str_eq;
use choices::{FontFamily, FontSize, IconSize, IconStyle, Io48Action, LineSpacing};
use networks::{copied, copy_str, least, text_of, text_or_empty, NetworkView, WifiNetwork};

pub mod choices;
pub mod codec;
pub mod laws;
pub mod networks;

verus! {

/// How many joined networks are remembered, the most recently used first.
pub const WIFI_NETWORK_CAP: usize = 5;

/// Bytes that a mesh display name may have.
pub const ALIAS_CAP: usize = 12;

/// The reader's text styling in one value.
#[derive(Clone, Copy)]
pub struct ReaderStyle {
    pub size: FontSize,
    pub family: FontFamily,
    pub spacing: LineSpacing,
}

/// The saved settings.
#[derive(Clone, Copy)]
pub struct Settings {
    /// Hours from UTC.
    pub tz_offset_hours: i8,
    pub time_24h: bool,
    pub brightness: u8,
    pub reader_font_size: FontSize,
    pub reader_font_family: FontFamily,
    pub reader_line_spacing: LineSpacing,
    pub icon_style: IconStyle,
    pub icon_size: IconSize,
    pub io48_action: Io48Action,
    /// Keep the radio and mesh membership alive on every screen instead of
    /// only while the LoRa page is open.
    pub mesh_background: bool,
    /// The mesh display name; empty for the id alone.
    pub mesh_alias: [u8; 12],
    pub mesh_alias_len: u8,
    pub wifi_networks: [WifiNetwork; 5],
    pub wifi_network_count: u8,
}

/// What settings hold.
#[verifier::ext_equal]
pub struct SettingsView {
    pub tz_offset_hours: i8,
    pub time_24h: bool,
    pub brightness: int,
    pub reader_font_size: FontSize,
    pub reader_font_family: FontFamily,
    pub reader_line_spacing: LineSpacing,
    pub icon_style: IconStyle,
    pub icon_size: IconSize,
    pub io48_action: Io48Action,
    pub mesh_background: bool,
    pub alias: Seq<u8>,
    pub alias_len: int,
    pub networks: Seq<NetworkView>,
    pub count: int,
}

impl View for Settings {
    type V = SettingsView;

    open spec fn view(&self) -> SettingsView {
        SettingsView {
            tz_offset_hours: self.tz_offset_hours,
            time_24h: self.time_24h,
            brightness: self.brightness as int,
            reader_font_size: self.reader_font_size,
            reader_font_family: self.reader_font_family,
            reader_line_spacing: self.reader_line_spacing,
            icon_style: self.icon_style,
            icon_size: self.icon_size,
            io48_action: self.io48_action,
            mesh_background: self.mesh_background,
            alias: self.mesh_alias@,
            alias_len: self.mesh_alias_len as int,
            networks: Seq::new(5, |i: int| self.wifi_networks@[i]@),
            count: self.wifi_network_count as int,
        }
    }
}

/// The first entry of `table` whose SSID reads `ssid`, or the table's length
/// where there is none.
pub open spec fn find_ssid(table: Seq<NetworkView>, ssid: Seq<char>) -> int
    decreases table.len(),
{
    if table.len() == 0 {
        0
    } else if table[0].ssid_text() == ssid {
        0
    } else {
        1 + find_ssid(table.drop_first(), ssid)
    }
}

/// Whether some entry of `table` has an SSID that reads `ssid`.
pub open spec fn knows(table: Seq<NetworkView>, ssid: Seq<char>) -> bool {
    find_ssid(table, ssid) < table.len()
}

/// The passphrase that `table` has for `ssid`.
pub open spec fn saved_password(table: Seq<NetworkView>, ssid: Seq<char>) -> Option<Seq<char>> {
    if knows(table, ssid) {
        Some(table[find_ssid(table, ssid)].password_text())
    } else {
        None
    }
}

/// No two entries of `table` have SSIDs that read the same.
pub open spec fn distinct_ssids(table: Seq<NetworkView>) -> bool {
    forall|i: int, j: int|
        0 <= i < j < table.len() ==> (#[trigger] table[i]).ssid_text()
            != (#[trigger] table[j]).ssid_text()
}

/// `table` with `entry` in front, in place of the entry for its SSID; of a
/// full table without one, the last entry goes.
pub open spec fn used_most_recently(
    table: Seq<NetworkView>,
    ssid: Seq<char>,
    entry: NetworkView,
) -> Seq<NetworkView> {
    if knows(table, ssid) {
        seq![entry] + table.remove(find_ssid(table, ssid))
    } else {
        seq![entry] + table.take(least(table.len() as int, 4))
    }
}

/// `table` without the first entry for `ssid`.
pub open spec fn forgotten(table: Seq<NetworkView>, ssid: Seq<char>) -> Seq<NetworkView> {
    if knows(table, ssid) {
        table.remove(find_ssid(table, ssid))
    } else {
        table
    }
}

impl SettingsView {
    /// The remembered networks, the most recently used first.
    pub open spec fn table(self) -> Seq<NetworkView> {
        self.networks.take(least(self.count, 5))
    }

    /// The mesh display name.
    pub open spec fn alias_text(self) -> Seq<char> {
        text_or_empty(self.alias.take(least(self.alias_len, 12)))
    }

    /// The same settings under another display name, cut to the bytes that
    /// fit.
    pub open spec fn with_alias(self, name: Seq<char>) -> SettingsView {
        SettingsView {
            alias: copied(Seq::new(12, |i: int| 0u8), encode_utf8(name)),
            alias_len: least(encode_utf8(name).len() as int, 12),
            ..self
        }
    }

    /// Every length and count stays within what it counts, and the brightness
    /// is a percentage.
    pub open spec fn well_formed(self) -> bool {
        &&& 0 <= self.brightness <= 100
        &&& self.alias.len() == 12
        &&& 0 <= self.alias_len <= 12
        &&& self.networks.len() == 5
        &&& forall|i: int| 0 <= i < 5 ==> (#[trigger] self.networks[i]).well_formed()
        &&& 0 <= self.count <= 5
    }

    /// The settings before any were saved, given the hours from UTC and the
    /// network that the build names.
    pub open spec fn fresh(tz: i8, ssid: Seq<char>, password: Seq<char>) -> SettingsView {
        SettingsView {
            tz_offset_hours: tz,
            time_24h: true,
            brightness: 0,
            reader_font_size: FontSize::Medium,
            reader_font_family: FontFamily::Sans,
            reader_line_spacing: LineSpacing::Normal,
            icon_style: IconStyle::Lucide,
            icon_size: IconSize::Regular,
            io48_action: Io48Action::Sleep,
            mesh_background: false,
            alias: Seq::new(12, |i: int| 0u8),
            alias_len: 0,
            networks: Seq::new(
                5,
                |i: int|
                    if i == 0 && ssid.len() > 0 {
                        NetworkView::remembering(ssid, password)
                    } else {
                        NetworkView::empty()
                    },
            ),
            count: if ssid.len() > 0 {
                1
            } else {
                0
            },
        }
    }
}

/// Hours from UTC before any were saved, where the build names none that can
/// be read.
pub const FALLBACK_TZ: i8 = -7;

/// `s` without a sign in front.
pub open spec fn unsigned_part(s: Seq<u8>) -> Seq<u8> {
    if s.len() > 0 && (s[0] == 0x2d || s[0] == 0x2b) {
        s.drop_first()
    } else {
        s
    }
}

/// The hours from UTC that a text names: a decimal numeral, with or without a
/// sign, of a number from -12 up to 14.
pub open spec fn tz_hours(s: Seq<u8>) -> Option<int> {
    let digits = unsigned_part(s);
    let n = if s.len() > 0 && s[0] == 0x2d {
        -ascii_value(digits)
    } else {
        ascii_value(digits)
    };
    if digits.len() == 0 || !ascii_digits(digits) || n < -12 || n > 14 {
        None
    } else {
        Some(n)
    }
}

/// Reads the hours from UTC that a text names.
pub fn konst_parse_i8(s: &str) -> (r: Option<i8>)
    requires
        ascii_value(digit_prefix(unsigned_part(s.spec_bytes()))) <= i32::MAX,
    ensures
        r is Some <==> tz_hours(s.spec_bytes()) is Some,
        r matches Some(h) ==> tz_hours(s.spec_bytes()) == Some(h as int),
{
    let bytes: &[u8] = s.as_bytes();
    if bytes.len() == 0 {
        return None;
    }
    let neg: bool = bytes[0] == 0x2d;
    let start: usize = if bytes[0] == 0x2d || bytes[0] == 0x2b {
        1
    } else {
        0
    };
    let ghost digits = unsigned_part(bytes@);
    assert(digits =~= bytes@.skip(start as int));
    if start >= bytes.len() {
        return None;
    }
    let mut acc: i32 = 0;
    let mut i: usize = start;
    assert(digits.take(0) =~= Seq::<u8>::empty());
    while i < bytes.len()
        invariant
            start <= i <= bytes@.len(),
            digits == bytes@.skip(start as int),
            digits == unsigned_part(bytes@),
            ascii_value(digit_prefix(digits)) <= i32::MAX,
            ascii_digits(digits.take(i - start)),
            acc == ascii_value(digits.take(i - start)),
            acc >= 0,
            bytes@ == s.spec_bytes(),
        decreases bytes@.len() - i,
    {
        let d: u8 = bytes[i];
        assert(digits[i - start] == d);
        if d < 0x30 || d > 0x39 {
            return None;
        }
        let ghost next = digits.take(i - start + 1);
        proof {
            assert(next.drop_last() =~= digits.take(i - start));
            assert(next.last() == d);
            assert forall|k: int| 0 <= k < next.len() implies 0x30 <= #[trigger] next[k]
                <= 0x39 by {
                if k < i - start {
                    assert(next[k] == digits.take(i - start)[k]);
                }
            }
            lemma_digit_prefix(digits, i - start + 1);
            let p = digit_prefix(digits);
            assert(p.take(i - start + 1) =~= next);
            lemma_ascii_value_grows(p, i - start + 1);
        }
        acc = acc * 10 + (d - 0x30) as i32;
        i = i + 1;
    }
    assert(digits.take(bytes@.len() - start) =~= digits);
    proof {
        lemma_ascii_value_grows(digits, 0);
    }
    if neg {
        acc = -acc;
    }
    if acc < -12 || acc > 14 {
        return None;
    }
    Some(acc as i8)
}

/// The hours from UTC before any were saved, given what the build names.
pub fn default_tz_offset(build: Option<&str>) -> (r: i8)
    requires
        build matches Some(s) ==> ascii_value(digit_prefix(unsigned_part(s.spec_bytes())))
            <= i32::MAX,
    ensures
        r == match build {
            Some(s) => match tz_hours(s.spec_bytes()) {
                Some(h) => h,
                None => -7,
            },
            None => -7,
        },
{
    match build {
        Some(s) => match konst_parse_i8(s) {
            Some(v) => v,
            None => FALLBACK_TZ,
        },
        None => FALLBACK_TZ,
    }
}

/// Looking for an SSID stops at the first entry that reads so.
pub proof fn lemma_find_ssid(table: Seq<NetworkView>, ssid: Seq<char>)
    ensures
        0 <= find_ssid(table, ssid) <= table.len(),
        forall|i: int|
            0 <= i < find_ssid(table, ssid) ==> (#[trigger] table[i]).ssid_text() != ssid,
        knows(table, ssid) ==> table[find_ssid(table, ssid)].ssid_text() == ssid,
    decreases table.len(),
{
    if table.len() > 0 && table[0].ssid_text() != ssid {
        let rest = table.drop_first();
        lemma_find_ssid(rest, ssid);
        assert forall|i: int| 0 <= i < find_ssid(table, ssid) implies (
        #[trigger] table[i]).ssid_text() != ssid by {
            if i > 0 {
                assert(table[i] == rest[i - 1]);
            }
        }
    }
}

/// The first entry that reads `ssid` is where looking for it stops.
pub proof fn lemma_find_ssid_is(table: Seq<NetworkView>, ssid: Seq<char>, at: int)
    requires
        0 <= at <= table.len(),
        forall|i: int| 0 <= i < at ==> (#[trigger] table[i]).ssid_text() != ssid,
        at < table.len() ==> table[at].ssid_text() == ssid,
    ensures
        find_ssid(table, ssid) == at,
{
    lemma_find_ssid(table, ssid);
}

impl Settings {
    /// The settings before any were saved, given the hours from UTC and the
    /// network that the build names.
    pub fn fresh(tz: i8, ssid: &str, password: &str) -> (r: Self)
        ensures
            r@ == SettingsView::fresh(tz, ssid@, password@),
            r@.well_formed(),
    {
        let empty: WifiNetwork = WifiNetwork::empty();
        let mut wifi_networks: [WifiNetwork; 5] = [empty; 5];
        let mut wifi_network_count: u8 = 0;
        if !ssid.is_empty() {
            wifi_networks[0] = WifiNetwork::new(ssid, password);
            wifi_network_count = 1;
        }
        let r: Settings = Settings {
            tz_offset_hours: tz,
            time_24h: true,
            brightness: 0,
            reader_font_size: FontSize::Medium,
            reader_font_family: FontFamily::Sans,
            reader_line_spacing: LineSpacing::Normal,
            icon_style: IconStyle::Lucide,
            icon_size: IconSize::Regular,
            io48_action: Io48Action::Sleep,
            mesh_background: false,
            mesh_alias: [0u8; 12],
            mesh_alias_len: 0,
            wifi_networks,
            wifi_network_count,
        };
        assert(r@ =~= SettingsView::fresh(tz, ssid@, password@));
        r
    }

    /// The mesh display name, or no text when unset.
    pub fn mesh_alias(&self) -> (r: &str)
        ensures
            r@ == self@.alias_text(),
    {
        let len: usize = if self.mesh_alias_len < 12 {
            self.mesh_alias_len as usize
        } else {
            12
        };
        text_of(&self.mesh_alias, len)
    }

    /// Sets the mesh display name, cut to the bytes that fit.
    pub fn set_mesh_alias(&mut self, name: &str)
        ensures
            final(self)@ == old(self)@.with_alias(name@),
            old(self)@.well_formed() ==> final(self)@.well_formed(),
    {
        self.mesh_alias = [0u8; 12];
        let ghost cleared = self.mesh_alias@;
        assert(cleared =~= Seq::new(12, |i: int| 0u8));
        self.mesh_alias_len = copy_str(&mut self.mesh_alias, name);
        assert(self@.networks =~= old(self)@.networks);
    }

    /// How many networks the table holds.
    fn known(&self) -> (r: usize)
        ensures
            r == self@.table().len(),
            r == least(self@.count, 5),
            r <= 5,
    {
        if self.wifi_network_count < 5 {
            self.wifi_network_count as usize
        } else {
            5
        }
    }

    /// Where in the table the entry for `ssid` stands; past its end where
    /// there is none.
    fn position(&self, ssid: &str) -> (r: usize)
        ensures
            r == find_ssid(self@.table(), ssid@),
            r <= self@.table().len(),
    {
        let count: usize = self.known();
        let ghost table = self@.table();
        let mut i: usize = 0;
        while i < count
            invariant
                i <= count <= 5,
                table == self@.table(),
                count == table.len(),
                forall|k: int| 0 <= k < i ==> (#[trigger] table[k]).ssid_text() != ssid@,
            decreases count - i,
        {
            assert(table[i as int] == self.wifi_networks@[i as int]@);
            if str_eq(self.wifi_networks[i].ssid(), ssid) {
                proof {
                    lemma_find_ssid_is(table, ssid@, i as int);
                }
                return i;
            }
            i = i + 1;
        }
        proof {
            lemma_find_ssid_is(table, ssid@, count as int);
        }
        count
    }

    /// The most recently used network's SSID, or no text where none is saved.
    pub fn wifi_ssid(&self) -> (r: &str)
        ensures
            r@ == if self@.count == 0 {
                seq![]
            } else {
                self@.networks[0].ssid_text()
            },
    {
        if self.wifi_network_count == 0 {
            proof {
                reveal_strlit("");
            }
            ""
        } else {
            self.wifi_networks[0].ssid()
        }
    }

    /// The most recently used network's passphrase, or no text where none is
    /// saved.
    pub fn wifi_password(&self) -> (r: &str)
        ensures
            r@ == if self@.count == 0 {
                seq![]
            } else {
                self@.networks[0].password_text()
            },
    {
        if self.wifi_network_count == 0 {
            proof {
                reveal_strlit("");
            }
            ""
        } else {
            self.wifi_networks[0].password()
        }
    }

    /// The stored passphrase for `ssid`, where that network was joined before.
    pub fn saved_wifi_password(&self, ssid: &str) -> (r: Option<&str>)
        ensures
            r is Some <==> saved_password(self@.table(), ssid@) is Some,
            r matches Some(p) ==> saved_password(self@.table(), ssid@) == Some(p@),
    {
        let count: usize = self.known();
        let at: usize = self.position(ssid);
        if at < count {
            assert(self@.table()[at as int] == self.wifi_networks@[at as int]@);
            Some(self.wifi_networks[at].password())
        } else {
            None
        }
    }

    /// Saves credentials as the most recently used network, cut to what the
    /// fields hold. An entry for the SSID moves to the front; else the new one
    /// is put in front, and of a full table the least recently used goes.
    pub fn set_wifi(&mut self, ssid: &str, password: &str)
        ensures
            final(self)@ == (SettingsView {
                networks: final(self)@.networks,
                count: final(self)@.table().len() as int,
                ..old(self)@
            }),
            final(self)@.table() == used_most_recently(
                old(self)@.table(),
                ssid@,
                NetworkView::remembering(ssid@, password@),
            ),
            final(self)@.networks.skip(final(self)@.count) == old(self)@.networks.skip(
                final(self)@.count,
            ),
            old(self)@.well_formed() ==> final(self)@.well_formed(),
    {
        let count: usize = self.known();
        let at: usize = self.position(ssid);
        let vacated: usize = if at < count {
            at
        } else if count < 4 {
            count
        } else {
            4
        };
        let new_count: usize = if at < count || count == 5 {
            count
        } else {
            count + 1
        };
        let ghost before = self@;
        let mut i: usize = vacated;
        while i >= 1
            invariant
                i <= vacated <= 4,
                self@.networks.len() == 5,
                self@ == (SettingsView { networks: self@.networks, ..before }),
                before.networks.len() == 5,
                forall|k: int|
                    0 <= k < 5 ==> #[trigger] self@.networks[k] == if i < k <= vacated {
                        before.networks[k - 1]
                    } else {
                        before.networks[k]
                    },
            decreases i,
        {
            let moved: WifiNetwork = self.wifi_networks[i - 1];
            assert(self@.networks[i - 1] == moved@);
            let ghost prior = self@.networks;
            self.wifi_networks[i] = moved;
            assert(self@.networks =~= prior.update(i as int, moved@));
            i = i - 1;
        }
        let ghost prior = self@.networks;
        let entry: WifiNetwork = WifiNetwork::new(ssid, password);
        self.wifi_networks[0] = entry;
        assert(self@.networks =~= prior.update(0, entry@));
        self.wifi_network_count = new_count as u8;
        assert(self@.networks =~= prior.update(0, entry@));
        proof {
            lemma_find_ssid(before.table(), ssid@);
            assert(self@.table() =~= used_most_recently(before.table(), ssid@, entry@));
        }
    }

    /// Drops the saved entry for `ssid`, if there is one, and moves later
    /// entries up.
    pub fn forget_wifi(&mut self, ssid: &str)
        ensures
            final(self)@ == (SettingsView {
                networks: final(self)@.networks,
                count: final(self)@.count,
                ..old(self)@
            }),
            final(self)@.table() == forgotten(old(self)@.table(), ssid@),
            !knows(old(self)@.table(), ssid@) ==> *final(self) == *old(self),
            knows(old(self)@.table(), ssid@) ==> {
                &&& final(self)@.count == final(self)@.table().len()
                &&& final(self)@.networks[final(self)@.count] == NetworkView::empty()
                &&& final(self)@.networks.skip(final(self)@.count + 1)
                    == old(self)@.networks.skip(final(self)@.count + 1)
            },
            old(self)@.well_formed() ==> final(self)@.well_formed(),
    {
        let count: usize = self.known();
        let pos: usize = self.position(ssid);
        if pos >= count {
            return ;
        }
        let ghost before = self@;
        let mut i: usize = pos;
        while i < count - 1
            invariant
                pos <= i <= count - 1,
                1 <= count <= 5,
                self@.networks.len() == 5,
                self@ == (SettingsView { networks: self@.networks, ..before }),
                before.networks.len() == 5,
                forall|k: int|
                    0 <= k < 5 ==> #[trigger] self@.networks[k] == if pos <= k < i {
                        before.networks[k + 1]
                    } else {
                        before.networks[k]
                    },
            decreases count - 1 - i,
        {
            let moved: WifiNetwork = self.wifi_networks[i + 1];
            assert(self@.networks[i + 1] == moved@);
            let ghost prior = self@.networks;
            self.wifi_networks[i] = moved;
            assert(self@.networks =~= prior.update(i as int, moved@));
            i = i + 1;
        }
        let ghost prior = self@.networks;
        let empty: WifiNetwork = WifiNetwork::empty();
        self.wifi_networks[count - 1] = empty;
        assert(self@.networks =~= prior.update(count - 1, empty@));
        self.wifi_network_count = (count - 1) as u8;
        assert(self@.networks =~= prior.update(count - 1, empty@));
        assert(self@.table() =~= before.table().remove(pos as int));
    }

    /// The reader's text styling.
    pub fn reader_style(&self) -> (r: ReaderStyle)
        ensures
            r.size == self.reader_font_size,
            r.family == self.reader_font_family,
            r.spacing == self.reader_line_spacing,
    {
        ReaderStyle {
            size: self.reader_font_size,
            family: self.reader_font_family,
            spacing: self.reader_line_spacing,
        }
    }
}

} // verus!
