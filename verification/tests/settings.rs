use t5s3_epaper_ui::settings::choices::{
    FontFamily, FontSize, IconSize, IconStyle, Io48Action, LineSpacing,
};
use t5s3_epaper_ui::settings::networks::{copy_str, WifiNetwork};
use t5s3_epaper_ui::settings::{default_tz_offset, konst_parse_i8, Settings};

fn fresh() -> Settings {
    Settings::fresh(-7, "", "")
}

fn xor(bytes: &[u8]) -> u8 {
    bytes.iter().fold(0u8, |acc, &b| acc ^ b)
}

#[test]
fn choices_cycle_and_come_back() {
    assert!(FontSize::Small.next() == FontSize::Medium);
    assert!(FontSize::Medium.next() == FontSize::Large);
    assert!(FontSize::Large.next() == FontSize::Small);
    assert!(FontFamily::Mono.next() == FontFamily::Sans);
    assert!(LineSpacing::Relaxed.next() == LineSpacing::Compact);
    assert!(IconStyle::Material.next() == IconStyle::Lucide);
    assert!(IconSize::Regular.next() == IconSize::Small);
    let mut a = Io48Action::Sleep;
    for _ in 0..4 {
        a = a.next();
    }
    assert!(a == Io48Action::Sleep);
    assert!(Io48Action::Backlight.next() == Io48Action::LoraReceive);
}

#[test]
fn choices_have_labels() {
    assert_eq!(FontSize::Medium.label(), "Medium");
    assert_eq!(FontFamily::Serif.label(), "Serif");
    assert_eq!(LineSpacing::Compact.label(), "Compact");
    assert_eq!(IconStyle::Lucide.label(), "Lucide");
    assert_eq!(IconSize::Regular.label(), "Regular");
    assert_eq!(Io48Action::LoraReceive.label(), "LoRa RX");
}

#[test]
fn choices_survive_their_bytes() {
    for b in 0..3u8 {
        assert_eq!(FontSize::from_byte(b).to_byte(), b);
        assert_eq!(FontFamily::from_byte(b).to_byte(), b);
        assert_eq!(LineSpacing::from_byte(b).to_byte(), b);
    }
    for b in 0..4u8 {
        assert_eq!(Io48Action::from_byte(b).to_byte(), b);
    }
    assert!(FontSize::from_byte(77) == FontSize::Medium);
    assert!(FontFamily::from_byte(77) == FontFamily::Sans);
    assert!(LineSpacing::from_byte(77) == LineSpacing::Normal);
    assert!(IconStyle::from_byte(77) == IconStyle::Lucide);
    assert!(IconSize::from_byte(77) == IconSize::Regular);
    assert!(Io48Action::from_byte(77) == Io48Action::Sleep);
}

#[test]
fn text_is_cut_to_what_fits() {
    let mut four = [9u8; 4];
    assert_eq!(copy_str(&mut four, "abcdef"), 4);
    assert_eq!(&four, b"abcd");
    let mut six = [9u8; 6];
    assert_eq!(copy_str(&mut six, "ab"), 2);
    assert_eq!(&six, b"ab\x09\x09\x09\x09");
}

#[test]
fn network_reads_back() {
    let net = WifiNetwork::new("home", "secret phrase");
    assert_eq!(net.ssid(), "home");
    assert_eq!(net.password(), "secret phrase");
    let empty = WifiNetwork::empty();
    assert_eq!(empty.ssid(), "");
    assert_eq!(empty.password(), "");
}

#[test]
fn ssid_cut_inside_a_character_reads_as_nothing() {
    // 31 letters and a character of two bytes: the cut takes half of it.
    let ssid = "aaaaaaaaaaaaaaaaaaaaaaaaaaaaaaa\u{e9}";
    let net = WifiNetwork::new(ssid, "x");
    assert_eq!(net.ssid(), "");
    assert_eq!(net.ssid_len, 32);
}

#[test]
fn hours_from_utc_are_read() {
    assert_eq!(konst_parse_i8("5"), Some(5));
    assert_eq!(konst_parse_i8("-12"), Some(-12));
    assert_eq!(konst_parse_i8("+14"), Some(14));
    assert_eq!(konst_parse_i8("15"), None);
    assert_eq!(konst_parse_i8("-13"), None);
    assert_eq!(konst_parse_i8(""), None);
    assert_eq!(konst_parse_i8("-"), None);
    assert_eq!(konst_parse_i8("1x"), None);
    assert_eq!(default_tz_offset(None), -7);
    assert_eq!(default_tz_offset(Some("nonsense")), -7);
    assert_eq!(default_tz_offset(Some("3")), 3);
}

#[test]
fn fresh_settings() {
    let s = fresh();
    assert_eq!(s.tz_offset_hours, -7);
    assert!(s.time_24h);
    assert_eq!(s.brightness, 0);
    assert!(s.reader_font_size == FontSize::Medium);
    assert!(s.io48_action == Io48Action::Sleep);
    assert_eq!(s.mesh_alias(), "");
    assert_eq!(s.wifi_ssid(), "");
    assert_eq!(s.wifi_password(), "");
    let s = Settings::fresh(2, "home", "pw");
    assert_eq!(s.wifi_ssid(), "home");
    assert_eq!(s.wifi_password(), "pw");
    assert_eq!(s.wifi_network_count, 1);
}

#[test]
fn alias_reads_back_and_is_cut() {
    let mut s = fresh();
    s.set_mesh_alias("walker");
    assert_eq!(s.mesh_alias(), "walker");
    s.set_mesh_alias("a name of over twelve bytes");
    assert_eq!(s.mesh_alias(), "a name of ov");
    s.set_mesh_alias("");
    assert_eq!(s.mesh_alias(), "");
    assert_eq!(s.mesh_alias, [0u8; 12]);
}

#[test]
fn joined_network_comes_first() {
    let mut s = fresh();
    s.set_wifi("a", "1");
    s.set_wifi("b", "2");
    s.set_wifi("c", "3");
    assert_eq!(s.wifi_ssid(), "c");
    assert_eq!(s.wifi_network_count, 3);
    s.set_wifi("a", "4");
    assert_eq!(s.wifi_ssid(), "a");
    assert_eq!(s.wifi_password(), "4");
    assert_eq!(s.wifi_network_count, 3);
    assert_eq!(s.saved_wifi_password("b"), Some("2"));
    assert_eq!(s.saved_wifi_password("c"), Some("3"));
    assert_eq!(s.saved_wifi_password("d"), None);
    assert_eq!(s.wifi_networks[1].ssid(), "c");
    assert_eq!(s.wifi_networks[2].ssid(), "b");
}

#[test]
fn full_table_loses_its_last() {
    let mut s = fresh();
    for name in ["a", "b", "c", "d", "e", "f"] {
        s.set_wifi(name, name);
    }
    assert_eq!(s.wifi_network_count, 5);
    assert_eq!(s.saved_wifi_password("a"), None);
    for name in ["b", "c", "d", "e", "f"] {
        assert_eq!(s.saved_wifi_password(name), Some(name));
    }
}

#[test]
fn forgotten_network_is_gone() {
    let mut s = fresh();
    for name in ["a", "b", "c"] {
        s.set_wifi(name, name);
    }
    s.forget_wifi("b");
    assert_eq!(s.saved_wifi_password("b"), None);
    assert_eq!(s.saved_wifi_password("a"), Some("a"));
    assert_eq!(s.saved_wifi_password("c"), Some("c"));
    assert_eq!(s.wifi_network_count, 2);
    assert_eq!(s.wifi_networks[2].ssid_len, 0);
    s.forget_wifi("nowhere");
    assert_eq!(s.wifi_network_count, 2);
}

#[test]
fn reader_style_is_taken_over() {
    let mut s = fresh();
    s.reader_font_size = FontSize::Large;
    s.reader_font_family = FontFamily::Mono;
    s.reader_line_spacing = LineSpacing::Relaxed;
    let style = s.reader_style();
    assert!(style.size == FontSize::Large);
    assert!(style.family == FontFamily::Mono);
    assert!(style.spacing == LineSpacing::Relaxed);
}

fn sample() -> Settings {
    let mut s = Settings::fresh(-3, "home", "pw");
    s.time_24h = false;
    s.brightness = 42;
    s.reader_font_size = FontSize::Small;
    s.reader_font_family = FontFamily::Serif;
    s.reader_line_spacing = LineSpacing::Compact;
    s.icon_style = IconStyle::Material;
    s.icon_size = IconSize::Small;
    s.io48_action = Io48Action::Nothing;
    s.mesh_background = true;
    s.set_mesh_alias("walker");
    s.set_wifi("phone", "hotspot");
    s
}

#[test]
fn blob_has_its_layout() {
    let b = sample().encode();
    assert_eq!(b.len(), 518);
    assert_eq!(&b[..14], &[0x54, 0x35, 9, 0xfd, 0, 42, 0, 1, 0, 1, 0, 1, 3, 6]);
    assert_eq!(&b[14..20], b"walker");
    assert_eq!(b[26], 2);
    assert_eq!(b[27], 5);
    assert_eq!(&b[28..33], b"phone");
    assert_eq!(b[60], 7);
    assert_eq!(&b[61..68], b"hotspot");
    assert_eq!(b[517], xor(&b[..517]));
}

fn same(a: &Settings, b: &Settings) -> bool {
    a.encode() == b.encode()
        && a.tz_offset_hours == b.tz_offset_hours
        && a.time_24h == b.time_24h
        && a.brightness == b.brightness
        && a.mesh_background == b.mesh_background
        && a.wifi_ssid() == b.wifi_ssid()
        && a.mesh_alias() == b.mesh_alias()
}

#[test]
fn settings_read_back_from_their_blob() {
    let s = sample();
    let back = Settings::decode(&s.encode()).unwrap();
    assert!(same(&s, &back));
    assert_eq!(back.tz_offset_hours, -3);
    assert!(!back.time_24h);
    assert!(back.io48_action == Io48Action::Nothing);
    assert_eq!(back.saved_wifi_password("home"), Some("pw"));
    assert_eq!(back.saved_wifi_password("phone"), Some("hotspot"));
}

#[test]
fn overlong_values_are_cut_in_the_blob() {
    let mut s = sample();
    s.brightness = 250;
    s.wifi_network_count = 200;
    s.mesh_alias_len = 99;
    s.wifi_networks[0].ssid_len = 77;
    let back = Settings::decode(&s.encode()).unwrap();
    assert_eq!(back.brightness, 100);
    assert_eq!(back.wifi_network_count, 5);
    assert_eq!(back.mesh_alias_len, 12);
    assert_eq!(back.wifi_networks[0].ssid_len, 32);
}

#[test]
fn one_changed_byte_is_refused() {
    let good = sample().encode();
    for at in [0usize, 1, 3, 26, 27, 200, 516, 517] {
        let mut bad = good;
        bad[at] ^= 0x10;
        assert!(Settings::decode(&bad).is_none(), "byte {}", at);
    }
    let blank = [0xffu8; 518];
    assert!(Settings::decode(&blank).is_none());
    let mut later = good;
    later[2] = 10;
    assert!(Settings::decode(&later).is_none());
}

// A blob of an older layout: the scalars, then `rest`, sealed at `at`.
fn old_blob(version: u8, rest: &[u8], at: usize) -> [u8; 518] {
    let mut b = [0u8; 518];
    b[..11].copy_from_slice(&[0x54, 0x35, version, 2, 1, 30, 2, 2, 2, 1, 0]);
    b[11..11 + rest.len()].copy_from_slice(rest);
    b[at] = xor(&b[..at]);
    b
}

fn one_network(at: usize, rest: &mut Vec<u8>) {
    rest.resize(at - 11, 0);
    rest.push(4);
    rest.extend_from_slice(b"home");
    rest.resize(at - 11 + 33, 0);
    rest.push(2);
    rest.extend_from_slice(b"pw");
}

fn check_migrated(s: &Settings) {
    assert_eq!(s.tz_offset_hours, 2);
    assert!(s.time_24h);
    assert_eq!(s.brightness, 30);
    assert!(s.reader_font_size == FontSize::Large);
    assert!(s.reader_font_family == FontFamily::Mono);
    assert!(s.reader_line_spacing == LineSpacing::Relaxed);
    assert!(s.icon_style == IconStyle::Material);
    assert!(s.icon_size == IconSize::Small);
    assert!(s.io48_action == Io48Action::Sleep);
    assert_eq!(s.wifi_network_count, 1);
    assert_eq!(s.wifi_ssid(), "home");
    assert_eq!(s.wifi_password(), "pw");
}

#[test]
fn layout_eight_is_read() {
    let mut rest = vec![1u8, 3];
    rest.extend_from_slice(b"abc");
    rest.resize(25 - 11, 0);
    rest.push(1);
    one_network(26, &mut rest);
    let b = old_blob(8, &rest, 516);
    let s = Settings::decode(&b).unwrap();
    check_migrated(&s);
    assert!(s.mesh_background);
    assert_eq!(s.mesh_alias(), "abc");
    assert!(Settings::decode_v8(&b).is_some());
    let mut bad = b;
    bad[100] ^= 1;
    assert!(Settings::decode(&bad).is_none());
    assert!(Settings::decode_v8(&bad).is_none());
}

#[test]
fn layout_seven_is_read() {
    let mut rest = vec![1u8, 1];
    one_network(13, &mut rest);
    let b = old_blob(7, &rest, 503);
    let s = Settings::decode(&b).unwrap();
    check_migrated(&s);
    assert!(s.mesh_background);
    assert_eq!(s.mesh_alias(), "");
    let mut bad = b;
    bad[503] ^= 1;
    assert!(Settings::decode_v7(&bad).is_none());
}

#[test]
fn layout_six_is_read() {
    let mut rest = vec![1u8];
    one_network(12, &mut rest);
    let b = old_blob(6, &rest, 502);
    let s = Settings::decode(&b).unwrap();
    check_migrated(&s);
    assert!(!s.mesh_background);
    let mut bad = b;
    bad[5] ^= 1;
    assert!(Settings::decode_v6(&bad).is_none());
}

#[test]
fn layout_five_is_read() {
    let mut rest = Vec::new();
    one_network(11, &mut rest);
    let b = old_blob(5, &rest, 109);
    let s = Settings::decode(&b).unwrap();
    check_migrated(&s);
    // Saved again, the settings are those of the present layout.
    let again = Settings::decode(&s.encode()).unwrap();
    assert!(same(&s, &again));
    let none = old_blob(5, &[], 109);
    assert_eq!(Settings::decode(&none).unwrap().wifi_network_count, 0);
    let mut bad = b;
    bad[50] ^= 1;
    assert!(Settings::decode_v5(&bad).is_none());
}

#[test]
fn stored_settings_or_fresh_ones() {
    let stored = sample().encode();
    assert_eq!(Settings::from_stored(Some(stored), fresh()).brightness, 42);
    assert_eq!(Settings::from_stored(None, fresh()).brightness, 0);
    assert_eq!(Settings::from_stored(Some([0u8; 518]), fresh()).tz_offset_hours, -7);
}
