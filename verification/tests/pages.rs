use t5s3_epaper_ui::date::weekday;
use t5s3_epaper_ui::layout::NativeRect;
use t5s3_epaper_ui::pages::environment::{
    self, hardness, quality, EnvironmentView, Reading, Solids,
};
use t5s3_epaper_ui::pages::gps::{
    cell_key, cell_of, download_button_hit, draw_full_controls, draw_gps_data, draw_map,
    full_plan, full_touch, fullscreen_button_hit, map_area_tiles, map_cache_filename,
    map_cache_path, map_request_path, render_full_map, show_download_progress, tile_rect,
    zoom_ratio, FixKind, FullAction, GpsFix, MapView, Module,
};
use t5s3_epaper_ui::pages::info::{
    draw_info_screen, format_duration, read_info, ChargeStatus, Charger, Gauge, VbusStatus,
};
use t5s3_epaper_ui::pages::lora::{
    self, draw_list, draw_lora_screen, draw_recv_list, make_radio, message_field, recv_lines,
    recv_scroll_max, tab_hit, MeshInfo, Tab,
};
use t5s3_epaper_ui::pages::music::{self, parse, payload, MusicView, NowPlaying, Payload};
use t5s3_epaper_ui::pages::notes::{
    self, editor_field, entry_of, is_note, is_txt, list_hit, load_note, next_name, note_number,
    note_path, preview, save, sort_notes, Entry,
};
use t5s3_epaper_ui::pages::settings::{self as settings_page, mesh, reader, system, wifi, MenuHit};
use t5s3_epaper_ui::pages::weather::{
    self, condition, day_label, sky, Current, Daily, Weather, WeatherView,
};
use t5s3_epaper_ui::scene::{Font, Ink, Scene, Shape, Sky, BLACK, WHITE};
use t5s3_epaper_ui::settings::Settings;
use t5s3_epaper_ui::text_field::Flush;
use t5s3_epaper_ui::wifi::ScanEntry;

fn texts(scene: &Scene) -> Vec<String> {
    scene
        .shapes
        .iter()
        .filter_map(|s| match s {
            Shape::Text { text, .. } => Some(text.clone()),
            _ => None,
        })
        .collect()
}

fn strings(v: &[&str]) -> Vec<String> {
    v.iter().map(|s| String::from(*s)).collect()
}

// ---- LoRa -----------------------------------------------------------------

#[test]
fn tabs_are_touched() {
    assert_eq!(tab_hit(30, 64), Some(Tab::Info));
    assert_eq!(tab_hit(179, 111), Some(Tab::Info));
    assert_eq!(tab_hit(180, 64), None);
    assert_eq!(tab_hit(195, 64), Some(Tab::Send));
    assert_eq!(tab_hit(509, 64), Some(Tab::Recv));
    assert_eq!(tab_hit(30, 112), None);
    assert!(lora::recv_scroll_up_hit(470, 140));
    assert!(lora::recv_scroll_down_hit(529, 939));
    assert!(!lora::recv_scroll_down_hit(530, 939));
    assert!(lora::recv_clear_hit(470, 560));
    assert!(!lora::recv_clear_hit(470, 620));
}

#[test]
fn log_rows_are_newest_first() {
    let long = "x".repeat(150);
    let rows = recv_lines(&vec![String::from("old"), long]);
    assert_eq!(rows[0], "x".repeat(70));
    assert_eq!(rows[1], format!("  {}", "x".repeat(68)));
    assert_eq!(rows[2], "old");
    assert_eq!(rows.len(), 3);
    assert_eq!(recv_lines(&vec!["y".repeat(71)])[1], "  y");
    assert_eq!(recv_scroll_max(&vec![String::from("a"); 41]), 1);
    assert_eq!(recv_scroll_max(&vec![String::from("a"); 40]), 0);
    assert_eq!(lora::recv_visible_rows(), 40);
}

#[test]
fn log_is_painted() {
    let mut scene = Scene::new();
    draw_recv_list(&mut scene, &Vec::new(), 0, false);
    assert_eq!(texts(&scene), strings(&["no messages yet", "^", "v", "CLR", "0/0"]));
    let entries: Vec<String> = (0..50).map(|i| format!("m{}", i)).collect();
    let mut scene = Scene::new();
    draw_recv_list(&mut scene, &entries, 5, true);
    let t = texts(&scene);
    assert_eq!(t[0], "m44");
    assert_eq!(t[39], "m5");
    assert_eq!(&t[40..], &["^", "v", "SURE?", "45/50"]);
    let mut scene = Scene::new();
    draw_recv_list(&mut scene, &entries, 500, false);
    assert_eq!(texts(&scene), strings(&["m0", "^", "v", "CLR", "50/50"]));
}

#[test]
fn sent_messages_are_listed() {
    let mut scene = Scene::new();
    let long = "\u{e9}".repeat(67);
    draw_list(&mut scene, 368, "sent", &vec![String::from("first"), long]);
    assert_eq!(
        texts(&scene),
        vec![
            String::from("sent"),
            format!("> {}...", "\u{e9}".repeat(66)),
            String::from("> first")
        ]
    );
}

#[test]
fn lora_page_is_painted() {
    let field = message_field();
    let none = Vec::new();
    let mut scene = Scene::new();
    draw_lora_screen(&mut scene, Tab::Info, &field, "", "", &none, &none, 0, None);
    assert_eq!(scene.shapes[0], Shape::BackButton);
    assert_eq!(texts(&scene), strings(&["Info", "Send", "Receive", "mesh not running"]));
    let info = MeshInfo {
        identity: String::from("id"),
        timeline: String::from("slot"),
        counters: String::from("rx"),
        peers: Vec::new(),
    };
    let mut scene = Scene::new();
    draw_lora_screen(&mut scene, Tab::Info, &field, "", "", &none, &none, 0, Some(&info));
    assert_eq!(texts(&scene).last().unwrap(), "no peers heard yet");
    let mut scene = Scene::new();
    draw_lora_screen(&mut scene, Tab::Send, &field, "hi", "ready", &none, &none, 0, None);
    let t = texts(&scene);
    assert_eq!(&t[3..6], &["hi_", "ready", "sent"]);
    assert_eq!(t.last().unwrap(), "SEND");
    assert_eq!(lora::message_box_native_rect(), field.native_rect());
    assert_eq!(
        lora::recv_native_rect(),
        NativeRect { x: 136, y: 0, width: 808, height: 540 }
    );
}

#[test]
fn radio_is_tuned_as_the_mesh() {
    let r = make_radio(8, 250_000, 8, 12);
    assert_eq!(r.spreading_factor, lora::SpreadingFactor::Sf8);
    assert_eq!(r.bandwidth, lora::Bandwidth::Bw250);
    assert_eq!(r.coding_rate, lora::CodingRate::Cr4_8);
    assert_eq!(r.preamble_length, 12);
    assert_eq!(r.tx_power_dbm, 22);
    let r = make_radio(3, 7, 1, 8);
    assert_eq!(r.spreading_factor, lora::SpreadingFactor::Sf7);
    assert_eq!(r.bandwidth, lora::Bandwidth::Bw125);
    assert_eq!(r.coding_rate, lora::CodingRate::Cr4_5);
}

// ---- Notes ----------------------------------------------------------------

fn note(name: &str) -> Entry {
    Entry { name: String::from(name), preview: String::from("p") }
}

#[test]
fn notes_are_told_by_name() {
    assert!(is_txt("NOTE0001.TXT"));
    assert!(is_txt("a.b.tXt"));
    assert!(!is_txt("txt"));
    assert!(!is_txt("a.txt.bak"));
    assert!(!is_txt("a.txtx"));
    assert!(is_note("a.txt", false));
    assert!(!is_note("a.txt", true));
    assert_eq!(note_path("A.TXT"), "/NOTES/A.TXT");
    assert_eq!(note_number("NOTE0042.TXT"), Some(42));
    assert_eq!(note_number("NOTE.TXT"), None);
    assert_eq!(note_number("note0042.TXT"), None);
    assert_eq!(note_number("NOTE+7.TXT"), Some(7));
    assert_eq!(note_number("NOTE99999999999.TXT"), None);
}

#[test]
fn notes_have_previews() {
    assert_eq!(preview("\n  \n hello \r\nrest"), Some(String::from(" hello")));
    assert_eq!(preview(" \n\t"), None);
    assert_eq!(preview(&"\u{e9}".repeat(50)), Some("\u{e9}".repeat(40)));
    let e = entry_of(String::from("A.TXT"), Some(b"first\xff\nx"));
    assert_eq!(e.preview, "first\u{fffd}");
    assert_eq!(entry_of(String::from("A.TXT"), None).preview, "A.TXT");
    assert_eq!(entry_of(String::from("A.TXT"), Some(b" ")).preview, "A.TXT");
    assert_eq!(load_note(b"a\xffb"), "a\u{fffd}b");
    assert_eq!(load_note("gr\u{fc}n".as_bytes()), "gr\u{fc}n");
}

#[test]
fn notes_are_listed_newest_first() {
    let list = sort_notes(vec![note("b"), note("NOTE0002.TXT"), note("NOTE0010.TXT"), note("a")]);
    let names: Vec<&str> = list.iter().map(|e| e.name.as_str()).collect();
    assert_eq!(names, vec!["b", "a", "NOTE0010.TXT", "NOTE0002.TXT"]);
}

#[test]
fn new_notes_get_free_names() {
    assert_eq!(next_name(&Vec::new()), Some(String::from("NOTE0001.TXT")));
    let some = vec![note("NOTE0007.TXT"), note("x.txt"), note("NOTE0003.TXT")];
    assert_eq!(next_name(&some), Some(String::from("NOTE0008.TXT")));
    let full = vec![note("NOTE9999.TXT"), note("NOTE0001.TXT"), note("NOTE0003.TXT")];
    assert_eq!(next_name(&full), Some(String::from("NOTE0002.TXT")));
    let big = vec![note("NOTE12345.TXT")];
    assert_eq!(next_name(&big), Some(String::from("NOTE0001.TXT")));
    let all: Vec<Entry> = (1..=9999).map(|n| note(&format!("NOTE{:04}.TXT", n))).collect();
    assert_eq!(next_name(&all), None);
}

#[test]
fn empty_new_notes_leave_no_file() {
    assert!(!save("", false));
    assert!(save("", true));
    assert!(save("x", false));
}

#[test]
fn notes_are_touched() {
    assert_eq!(list_hit(20, 150, 3, 0), Some(0));
    assert_eq!(list_hit(20, 192, 3, 0), Some(1));
    assert_eq!(list_hit(20, 192, 3, 2), None);
    assert_eq!(list_hit(20, 737, 100, 10), Some(23));
    assert_eq!(list_hit(20, 738, 100, 10), None);
    assert_eq!(list_hit(520, 150, 3, 0), None);
    assert!(notes::scroll_up_hit(25, 774));
    assert!(notes::scroll_down_hit(195, 853));
    assert!(notes::new_hit(514, 800));
    assert!(!notes::new_hit(515, 800));
    assert!(notes::delete_hit(539, 95));
    assert!(!notes::delete_hit(539, 96));
}

#[test]
fn notes_are_painted() {
    let mut scene = Scene::new();
    notes::draw_list_screen(&mut scene, &Vec::new(), 0, "0 notes");
    assert_eq!(
        texts(&scene),
        strings(&["Notes", "no notes yet - tap New", "0 notes", "Up", "Down", "New"])
    );
    let entries: Vec<Entry> = (0..20)
        .map(|i| Entry { name: String::new(), preview: format!("n{}", i) })
        .collect();
    let mut scene = Scene::new();
    notes::draw_note_list(&mut scene, &entries, 14);
    assert_eq!(texts(&scene), strings(&["n14", "n15", "n16", "n17", "n18", "n19"]));
    let field = editor_field();
    let mut scene = Scene::new();
    notes::draw_edit_screen(&mut scene, "NOTE0001.TXT", &field, "text", true);
    let t = texts(&scene);
    assert_eq!(&t[..3], &["NOTE0001", "Sure?", "text"]);
    assert_eq!(t.last().unwrap(), "RET");
}

// ---- Weather and environment ----------------------------------------------

#[test]
fn days_of_the_week() {
    assert_eq!(weekday(1970, 1, 1), Some(3));
    assert_eq!(weekday(2000, 2, 29), Some(1));
    assert_eq!(weekday(1900, 2, 29), None);
    assert_eq!(weekday(2024, 12, 31), Some(1));
    assert_eq!(weekday(2025, 1, 1), Some(2));
    assert_eq!(weekday(2025, 13, 1), None);
    assert_eq!(weekday(2025, 4, 31), None);
    assert_eq!(day_label("2024-05-17"), "Fri");
    assert_eq!(day_label("2024-05-19"), "Sun");
    assert_eq!(day_label("2024-02-30"), "");
    assert_eq!(day_label("not a date"), "");
    assert_eq!(day_label("2024-05"), "");
    assert_eq!(day_label("2024\u{e9}05-17"), "");
}

#[test]
fn weather_codes() {
    assert_eq!(condition(0), "Clear");
    assert_eq!(condition(81), "Rain showers");
    assert_eq!(condition(99), "Thunderstorm, hail");
    assert_eq!(condition(50), "Unknown");
    assert_eq!(sky(1), Sky::Clear);
    assert_eq!(sky(2), Sky::PartlyCloudy);
    assert_eq!(sky(3), Sky::Cloudy);
    assert_eq!(sky(48), Sky::Fog);
    assert_eq!(sky(52), Sky::Rain);
    assert_eq!(sky(86), Sky::Snow);
    assert_eq!(sky(97), Sky::Storm);
    assert_eq!(sky(60), Sky::Cloudy);
}

#[test]
fn forecast_is_asked_for() {
    assert_eq!(
        weather::path("52.5200", "13.4050"),
        "/v1/forecast?latitude=52.5200&longitude=13.4050&current=temperature_2m,\
         relative_humidity_2m,apparent_temperature,weather_code,wind_speed_10m\
         &daily=weather_code,temperature_2m_max,temperature_2m_min&forecast_days=3&timezone=auto"
    );
    assert_eq!(weather::HOST, "api.open-meteo.com");
}

fn bounded(v: &[&str]) -> heapless::Vec<String, 3> {
    v.iter().map(|s| String::from(*s)).collect()
}

fn forecast(days: usize) -> Daily {
    let mut codes = heapless::Vec::new();
    for i in 0..days {
        codes.push(i as u16).unwrap();
    }
    Daily {
        time: bounded(&["2024-05-17", "2024-05-18", "2024-05-19"][..days]),
        weather_code: codes,
        highs: bounded(&["20", "21", "22"][..days]),
        lows: bounded(&["10", "11", "12"][..days]),
    }
}

fn weather_of(daily: Daily) -> Weather {
    Weather {
        latitude: String::from("52.520"),
        north: true,
        longitude: String::from("13.405"),
        east: false,
        current: Current {
            temperature: String::from("18"),
            humidity: String::from("60"),
            apparent: String::from("17"),
            weather_code: 61,
            wind: String::from("9"),
        },
        daily,
    }
}

#[test]
fn weather_is_painted() {
    let mut scene = Scene::new();
    let view = WeatherView::Ready(weather_of(forecast(2)));
    weather::draw_screen(&mut scene, &view);
    assert_eq!(
        texts(&scene),
        strings(&[
            "Weather",
            "52.520 N, 13.405 W",
            "18\u{b0}C",
            "Rain",
            "feels like",
            "17 C",
            "humidity",
            "60 %",
            "wind",
            "9 km/h",
            "forecast",
            "Fri",
            "20 / 10",
            "Sat",
            "21 / 11"
        ])
    );
    let icons: Vec<(Sky, bool, i32, i32)> = scene
        .shapes
        .iter()
        .filter_map(|s| match s {
            Shape::Icon { sky, small, x, y } => Some((*sky, *small, *x, *y)),
            _ => None,
        })
        .collect();
    assert_eq!(
        icons,
        vec![
            (Sky::Rain, false, 270, 232),
            (Sky::Clear, true, 180, 680),
            (Sky::Clear, true, 360, 680)
        ]
    );
    for (view, words) in [
        (WeatherView::Loading, "loading..."),
        (WeatherView::NoFix, "waiting for GPS fix..."),
        (WeatherView::Error, "could not reach weather service"),
    ] {
        let mut scene = Scene::new();
        weather::draw_screen(&mut scene, &view);
        assert_eq!(texts(&scene), strings(&["Weather", words]));
    }
}

#[test]
fn forecast_lists_are_complete_or_not() {
    assert!(forecast(3).is_complete());
    assert!(forecast(0).is_complete());
    let mut daily = forecast(3);
    daily.weather_code.pop();
    assert!(!daily.is_complete());
    let mut daily = forecast(2);
    daily.lows.clear();
    assert!(!daily.is_complete());
}

fn reading(id: &str, co2: Option<u16>, tds: Option<i64>) -> Reading {
    Reading {
        id: String::from(id),
        co2,
        tds: tds.map(|n| Solids { whole_ppm: n, text: format!("{}", n) }),
        temperature: String::from("21.5"),
        humidity: Some(String::from("45")),
    }
}

#[test]
fn environment_is_painted() {
    let mut list: heapless::Vec<Reading, 8> = heapless::Vec::new();
    let _ = list.push(reading("desk", Some(801), None));
    let _ = list.push(reading("tank", None, Some(249)));
    let _ = list.push(reading("shed", None, None));
    let mut scene = Scene::new();
    environment::draw_screen(&mut scene, &EnvironmentView::Ready(list));
    assert_eq!(
        texts(&scene),
        strings(&[
            "Environment",
            "desk",
            "air",
            "CO2   801 ppm (good)",
            "21.5 C     45 %RH",
            "tank",
            "water",
            "TDS   249 ppm (soft)",
            "21.5 C water",
            "shed",
            "sensor",
            "21.5 C",
            ""
        ])
    );
    let mut many: heapless::Vec<Reading, 8> = heapless::Vec::new();
    for _ in 0..8 {
        let _ = many.push(reading("x", Some(400), None));
    }
    let mut scene = Scene::new();
    environment::draw_screen(&mut scene, &EnvironmentView::Ready(many));
    let t = texts(&scene);
    assert_eq!(t.len(), 1 + 5 * 4 + 1);
    assert_eq!(t.last().unwrap(), "+3 more");
    let mut scene = Scene::new();
    environment::draw_screen(&mut scene, &EnvironmentView::Ready(heapless::Vec::new()));
    assert_eq!(texts(&scene)[1], "no sensors reporting");
    let mut scene = Scene::new();
    environment::draw_screen(&mut scene, &EnvironmentView::Error);
    assert_eq!(texts(&scene)[1], "no readings available");
    assert_eq!(environment::path(), "/api/sensors");
}

#[test]
fn readings_have_words() {
    for (co2, word) in [
        (800, "fresh"),
        (801, "good"),
        (1000, "good"),
        (1001, "fair"),
        (1400, "fair"),
        (1401, "stuffy"),
        (2000, "stuffy"),
        (2001, "poor"),
    ] {
        assert_eq!(quality(co2), word);
    }
    for (ppm, word) in [
        (-1, "very soft"),
        (99, "very soft"),
        (100, "soft"),
        (250, "moderate"),
        (450, "hard"),
        (700, "very hard"),
    ] {
        assert_eq!(hardness(ppm), word);
    }
}

// ---- Info -----------------------------------------------------------------

#[test]
fn durations_are_written() {
    assert_eq!(format_duration(8), "8s");
    assert_eq!(format_duration(312), "5m 12s");
    assert_eq!(format_duration(60), "1m 0s");
    assert_eq!(format_duration(4980), "1h 23m");
    assert_eq!(format_duration(3600), "1h 0m");
}

#[test]
fn info_is_read_and_painted() {
    let none = read_info(None, None, 8_000_000, 50_000_000, 0, None, None, None);
    assert_eq!(none.since_sync, None);
    let mut scene = Scene::new();
    draw_info_screen(&mut scene, &none);
    assert_eq!(
        texts(&scene),
        strings(&[
            "Info",
            "Model",
            "LilyGo T5 S3 Paper Pro",
            "Battery",
            "0.00 V",
            "Temp",
            "0 C",
            "Uptime",
            "8s",
            "Synced",
            "never",
            "Charge",
            "-",
            "Input",
            "-",
            "Current",
            "-",
            "Full in",
            "-",
            "Capacity",
            "-"
        ])
    );
    let charger = Charger {
        vbus: VbusStatus::UsbHost,
        vbus_mv: 5087,
        charge_ma: 512,
        charge: ChargeStatus::FastCharge,
    };
    let all = read_info(
        Some((3, 7)),
        Some(-4),
        7_200_000_000,
        100_000_000,
        40,
        Some(charger),
        Some(90),
        Some(Gauge { remaining_mah: 900, full_charge_mah: 1620 }),
    );
    assert_eq!(all.since_sync, Some(60));
    let mut scene = Scene::new();
    draw_info_screen(&mut scene, &all);
    let t = texts(&scene);
    assert_eq!(t[4], "3.07 V");
    assert_eq!(t[6], "-4 C");
    assert_eq!(t[8], "2h 0m");
    assert_eq!(t[10], "1m 0s ago");
    assert_eq!(t[12], "fast charge");
    assert_eq!(t[14], "USB 5.08 V");
    assert_eq!(t[16], "512 mA");
    assert_eq!(t[18], "1m 30s");
    assert_eq!(t[20], "900/1620 mAh");
    assert_eq!(read_info(None, None, 0, 1_000_000, 5, None, None, None).since_sync, None);
}

// ---- Music ----------------------------------------------------------------

fn song(progress: Option<u32>) -> NowPlaying {
    NowPlaying {
        track: String::from("t"),
        artist: String::from("a"),
        album: String::from("b"),
        is_playing: true,
        progress_secs: progress,
        duration_secs: Some(225),
    }
}

#[test]
fn music_payloads() {
    assert_eq!(payload(b""), Payload::Missing);
    assert_eq!(payload(b" \t\r\n\x0c"), Payload::Missing);
    assert_eq!(payload(b" nu ll\n"), Payload::Null);
    assert_eq!(payload(b"nulls"), Payload::Json);
    assert_eq!(payload(b"\x0bnull"), Payload::Json);
    assert!(matches!(parse(b" ", Some(song(None))), MusicView::Error));
    assert!(matches!(parse(b"null", None), MusicView::Idle));
    assert!(matches!(parse(b"{}", None), MusicView::Error));
    assert!(matches!(parse(b"{}", Some(song(None))), MusicView::Playing(_)));
}

#[test]
fn long_tracks_are_cut() {
    let mut long = song(Some(6000));
    long.duration_secs = Some(6000);
    let mut scene = Scene::new();
    music::draw_body(&mut scene, &MusicView::Playing(long));
    assert_eq!(texts(&scene)[6], "playing   100:00 / 100:0");
    let mut endless = song(Some(u32::MAX));
    endless.is_playing = false;
    let mut scene = Scene::new();
    music::draw_body(&mut scene, &MusicView::Playing(endless));
    assert_eq!(texts(&scene)[6], "paused   71582788 / 3:45");
}

#[test]
fn music_is_painted() {
    let mut scene = Scene::new();
    music::draw_screen(&mut scene, &MusicView::Playing(song(Some(83))));
    assert_eq!(
        texts(&scene),
        strings(&["Music", "Track", "t", "Artist", "a", "Album", "b", "playing   1:23 / 3:45"])
    );
    let mut scene = Scene::new();
    let mut s = song(None);
    s.is_playing = false;
    music::draw_screen(&mut scene, &MusicView::Playing(s));
    assert_eq!(texts(&scene).last().unwrap(), "paused");
    let mut scene = Scene::new();
    music::draw_screen(&mut scene, &MusicView::Idle);
    assert_eq!(texts(&scene), strings(&["Music", "nothing playing"]));
    let mut clock = String::new();
    music::write_clock(&mut clock, 3605);
    assert_eq!(clock, "60:05");
    assert_eq!(music::PATH, "/api/now-playing");
}

// ---- GPS ------------------------------------------------------------------

fn fix() -> GpsFix {
    GpsFix {
        lat: String::from("52.520000"),
        lng: String::from("13.405000"),
        alt: String::from("34.0"),
        speed: String::from("0.1"),
        hdop: String::from("1.2"),
        vdop: String::from("1.5"),
        sats: 7,
    }
}

#[test]
fn readout_is_painted() {
    let mut scene = Scene::new();
    draw_gps_data(&mut scene, Module::L76K, Some(FixKind::DGps), 12, &Some(fix()), &None);
    assert_eq!(
        texts(&scene),
        strings(&[
            "Module: L76K",
            "Fix:    DGPS (7 used, 12 in view)",
            "Lat:    52.520000",
            "Lon:    13.405000",
            "Alt:    34.0 m",
            "Speed:  0.1 kn",
            "HDOP:   1.2   VDOP: 1.5"
        ])
    );
    let mut scene = Scene::new();
    draw_gps_data(&mut scene, Module::MiaM10Q, None, 3, &None, &Some(fix()));
    let t = texts(&scene);
    assert_eq!(t[0], "Module: MIA-M10Q");
    assert_eq!(t[1], "Fix:    re-acquiring (3 in view)");
    assert_eq!(t[2], "Lat:    52.520000  (last)");
    let mut scene = Scene::new();
    draw_gps_data(&mut scene, Module::L76K, None, 0, &None, &None);
    let t = texts(&scene);
    assert_eq!(t[1], "Fix:    no fix (0 in view)");
    assert_eq!(t[6], "HDOP:   --   VDOP: --");
}

#[test]
fn cells_have_keys_and_files() {
    assert_eq!(cell_key(0x1234, 0xabcd), 0x1234abcd);
    assert_eq!(cell_key(-1, 65536), 0xffff0000);
    assert_eq!(cell_of(0x1234abcd), (0x1234, 0xabcd));
    assert_eq!(map_cache_path(0x1234abcd), "/MAPS/1234ABCD.JPG");
    assert_eq!(map_cache_filename(0xf), "0000000F.JPG");
    assert_eq!(
        map_request_path("1.00000", "-2.50000"),
        "/api/map?lat=1.00000&lon=-2.50000&zoom=15&w=480&h=400"
    );
    assert_eq!(
        map_area_tiles(10, 20, 1),
        vec![
            0x90013, 0xa0013, 0xb0013, 0x90014, 0xa0014, 0xb0014, 0x90015, 0xa0015, 0xb0015
        ]
    );
    assert_eq!(map_area_tiles(10, 20, 8).len(), 289);
    assert!(map_area_tiles(10, 20, -1).is_empty());
    assert_eq!(
        full_plan(1, &[0, 10, 25], 3, &[5, 5, 9]),
        vec![
            (0x10003, (0, 5, 10, 1)),
            (0x20003, (10, 5, 15, 1)),
            (0x10004, (0, 5, 10, 4)),
            (0x20004, (10, 5, 15, 4)),
        ]
    );
    assert!(full_plan(1, &[4], 3, &[5, 9]).is_empty());
    assert!(full_plan(1, &[4, 8], 3, &[]).is_empty());
}

#[test]
fn map_panel_is_painted() {
    let mut scene = Scene::new();
    draw_map(&mut scene, &MapView::Ready { dx: 5, dy: -7 });
    assert_eq!(scene.shapes[0], Shape::MapImage { x: 30, y: 500, w: 480, h: 400 });
    assert_eq!(
        scene.shapes[3],
        Shape::Circle { x: 271, y: 689, diameter: 8, ink: Ink::Fill { gray: BLACK } }
    );
    assert_eq!(texts(&scene), strings(&["save area", "full screen"]));
    for (view, words) in [
        (MapView::Loading, "loading map..."),
        (MapView::NoFix, "waiting for GPS fix..."),
        (MapView::Error, "map unavailable (offline?)"),
        (MapView::Downloading(12), "saving area: 12 tiles..."),
        (
            MapView::Saved { km2: String::from("700"), new_tiles: 0 },
            "area already saved: 700 sq km",
        ),
        (
            MapView::Saved { km2: String::from("700"), new_tiles: 3 },
            "area saved: 700 sq km (3 new)",
        ),
    ] {
        let mut scene = Scene::new();
        draw_map(&mut scene, &view);
        assert_eq!(texts(&scene)[0], words);
        assert_eq!(
            scene.shapes[0],
            Shape::Rect { x: 30, y: 500, w: 480, h: 400, ink: Ink::Fill { gray: WHITE } }
        );
    }
    let mut scene = Scene::new();
    let flush = show_download_progress(&mut scene, 3, 289);
    assert_eq!(texts(&scene), strings(&["saving area: 3/289..."]));
    assert_eq!(
        flush,
        Flush::Fast(NativeRect { x: 685, y: 30, width: 30, height: 480 })
    );
    assert!(download_button_hit(350, 510));
    assert!(fullscreen_button_hit(189, 549));
    assert!(!fullscreen_button_hit(190, 549));
}

#[test]
fn whole_screen_map() {
    assert_eq!(full_touch(0, 875), FullAction::Recenter);
    assert_eq!(full_touch(179, 876), FullAction::ZoomOut);
    assert_eq!(full_touch(180, 876), FullAction::ZoomIn);
    assert_eq!(full_touch(360, 900), FullAction::Back);
    assert_eq!(zoom_ratio(0), (1, 1));
    assert_eq!(zoom_ratio(2), (4, 1));
    assert_eq!(zoom_ratio(-1), (1, 2));
    assert_eq!(tile_rect(10, 20, 70, 20), (10, 20, 60, 1));
    let mut scene = Scene::new();
    assert!(!render_full_map(&mut scene, false, true));
    assert!(!render_full_map(&mut scene, true, false));
    assert!(render_full_map(&mut scene, true, true));
    assert_eq!(texts(&scene), strings(&["waiting for GPS fix...", "no SD card"]));
    assert_eq!(scene.shapes.len(), 2 + 3);
    assert!(matches!(scene.shapes[2], Shape::Circle { x: 261, y: 429, diameter: 18, .. }));
    for (step, words) in [(0, "1x"), (2, "out 4x"), (-1, "in 2x")] {
        let mut scene = Scene::new();
        draw_full_controls(&mut scene, step);
        assert_eq!(texts(&scene), strings(&["zoom -", "zoom +", "back", words]));
    }
}

// ---- Settings -------------------------------------------------------------

#[test]
fn settings_pages_are_touched() {
    assert_eq!(settings_page::menu_hit(0, 0, true), Some(MenuHit::Back));
    assert_eq!(settings_page::menu_hit(40, 210, false), Some(MenuHit::System));
    assert_eq!(settings_page::menu_hit(40, 330, false), Some(MenuHit::Reader));
    assert_eq!(settings_page::menu_hit(499, 539, false), Some(MenuHit::Wifi));
    assert_eq!(settings_page::menu_hit(499, 540, false), None);
    assert_eq!(system::hit_test(280, 210, false), Some(system::Hit::TzMinus));
    assert_eq!(system::hit_test(440, 210, false), Some(system::Hit::TzPlus));
    assert_eq!(system::hit_test(360, 210, false), None);
    assert_eq!(system::hit_test(280, 300, false), Some(system::Hit::ToggleFormat));
    assert_eq!(system::hit_test(280, 390, false), Some(system::Hit::CycleIcons));
    assert_eq!(system::hit_test(280, 480, false), Some(system::Hit::CycleIconSize));
    assert_eq!(system::hit_test(280, 570, false), Some(system::Hit::CycleIo48));
    assert_eq!(reader::hit_test(280, 210, false), Some(reader::Hit::CycleFontSize));
    assert_eq!(reader::hit_test(280, 300, false), Some(reader::Hit::CycleFontFamily));
    assert_eq!(reader::hit_test(280, 390, false), Some(reader::Hit::CycleSpacing));
    assert_eq!(mesh::hit_test(280, 210, false), Some(mesh::Hit::EditName));
    assert_eq!(mesh::hit_test(280, 300, false), Some(mesh::Hit::ToggleRadio));
    assert_eq!(mesh::hit_test(280, 390, false), Some(mesh::Hit::ToggleShare));
    assert_eq!(mesh::hit_test(280, 390, true), Some(mesh::Hit::Back));
    assert_eq!(wifi::status_hit(30, 245, 0, false), Some(wifi::Hit::Scan));
    assert_eq!(wifi::status_hit(280, 245, 0, false), Some(wifi::Hit::Sync));
    assert_eq!(wifi::status_hit(30, 345, 0, false), None);
    assert_eq!(wifi::status_hit(30, 345 + 62, 2, false), Some(wifi::Hit::Network(1)));
    assert_eq!(wifi::status_hit(30, 345 + 62 * 9, 20, false), None);
}

#[test]
fn settings_pages_are_painted() {
    let mut s = Settings::fresh(-7, "home", "pw");
    let mut scene = Scene::new();
    settings_page::draw_menu(&mut scene);
    assert_eq!(
        texts(&scene),
        strings(&["Settings", "System", ">", "Reader", ">", "Wi-Fi", ">"])
    );
    let mut scene = Scene::new();
    system::draw(&mut scene, &s);
    assert_eq!(
        texts(&scene),
        strings(&[
            "System",
            "Timezone",
            "-",
            "+",
            "UTC-7",
            "Time format",
            "24-hour",
            "Icons",
            "Lucide",
            "Icon size",
            "Regular",
            "IO48 Button",
            "Sleep"
        ])
    );
    let mut scene = Scene::new();
    system::redraw_tz(&mut scene, 0);
    system::redraw_format(&mut scene, false);
    assert_eq!(texts(&scene), strings(&["UTC+0", "12-hour"]));
    let mut scene = Scene::new();
    reader::draw(&mut scene, &s);
    assert_eq!(
        texts(&scene),
        strings(&["Reader", "Font size", "Medium", "Font", "Sans", "Spacing", "Normal"])
    );
    let field = message_field();
    let mut scene = Scene::new();
    mesh::draw(&mut scene, &s, true, false, "", &field);
    assert_eq!(
        texts(&scene),
        strings(&[
            "Mesh",
            "Node name",
            "-",
            "Mesh radio",
            "Lora page only",
            "Share location",
            "Every 10 min"
        ])
    );
    s.set_mesh_alias("walker");
    s.mesh_background = true;
    let mut scene = Scene::new();
    mesh::draw(&mut scene, &s, false, true, "draft", &field);
    let t = texts(&scene);
    assert_eq!(&t[2..7], &["walker", "Mesh radio", "Always on", "Share location", "Manual only"]);
    assert_eq!(t[7], "draft_");
}

#[test]
fn wifi_page_is_painted() {
    let s = Settings::fresh(0, "home", "pw");
    let nets = vec![
        ScanEntry { ssid: String::from("home"), rssi: -50, secured: true },
        ScanEntry { ssid: "y".repeat(40), rssi: -90, secured: false },
    ];
    let mut scene = Scene::new();
    wifi::draw_status(&mut scene, &s, "2 networks", &nets);
    assert_eq!(
        texts(&scene),
        vec![
            String::from("Wi-Fi"),
            String::from("Network: home"),
            String::from("2 networks"),
            String::from("Scan"),
            String::from("Sync clock"),
            String::from("home"),
            String::from("saved"),
            "y".repeat(34)
        ]
    );
    let mut scene = Scene::new();
    wifi::draw_status(&mut scene, &Settings::fresh(0, "", ""), "", &Vec::new());
    assert_eq!(texts(&scene)[1], "Network: (not set)");
    for (rssi, level) in [(-55, 4), (-56, 3), (-67, 3), (-68, 2), (-78, 2), (-79, 1), (-88, 1)] {
        assert_eq!(wifi::signal_level(rssi), level);
    }
    assert_eq!(wifi::signal_level(-89), 0);
    let mut scene = Scene::new();
    wifi::draw_password(&mut scene, &"z".repeat(30), &"p".repeat(60), "hint", false, false);
    let t = texts(&scene);
    assert_eq!(t[0], format!("Join {}", "z".repeat(24)));
    assert_eq!(t[2], "p".repeat(50));
    assert_eq!(t[3], "hint");
    assert_eq!(t.last().unwrap(), "SAVE");
    assert_eq!(
        wifi::password_box_rect(),
        NativeRect { x: 195, y: 30, width: 60, height: 480 }
    );
}

#[test]
fn fonts_of_the_weather() {
    let mut scene = Scene::new();
    weather::draw_screen(&mut scene, &WeatherView::Ready(weather_of(forecast(1))));
    let hero = scene.shapes.iter().any(|s| {
        matches!(s, Shape::Text { text, font: Font::Hero, .. } if text == "18\u{b0}C")
    });
    assert!(hero);
}
