use t5s3_epaper_ui::chatlog::{
    append, clear, load, message_key, parse_log, settle, size_after, Change, Loaded,
};
use t5s3_epaper_ui::geo::{compass8, distance_label, Distance};
use t5s3_epaper_ui::io48::{dispatch, Outcome};
use t5s3_epaper_ui::mesh::{
    alias_claim, node_id_of, take_text, Goal, Incoming, Mesh, Outlook, Peer, PollStep, Polled,
    Slice,
};
use t5s3_epaper_ui::service::{Errand, Service, Stage};
use t5s3_epaper_ui::settings::choices::Io48Action;
use t5s3_epaper_ui::state::Remote;

#[test]
fn log_is_read() {
    let (keys, lines) = parse_log(
        "00000000000000ff|hello | there\r\nold line\n0123456789abcdeX|bad key\nshort|x\n\n\
         +000000000000001|plus",
    );
    assert_eq!(keys, vec![255, 0, 0, 0, 0, 0]);
    assert_eq!(
        lines,
        vec![
            "hello | there",
            "old line",
            "0123456789abcdeX|bad key",
            "short|x",
            "",
            "+000000000000001|plus"
        ]
    );
    let (keys, lines) = parse_log("");
    assert!(keys.is_empty() && lines.is_empty());
    let (_, lines) = parse_log("a\r");
    assert_eq!(lines, vec!["a\r"]);
}

#[test]
fn log_keeps_its_tail() {
    let mut text = String::new();
    for i in 0..130 {
        text.push_str(&format!("{:016x}|line {}\n", i, i));
    }
    let log = load(text.as_bytes());
    assert_eq!(log.lines.len(), 120);
    assert_eq!(log.keys.len(), 120);
    assert_eq!(log.keys[0], 10);
    assert_eq!(log.lines[119], "line 129");
    assert_eq!(log.size, text.len() as u64);
}

#[test]
fn log_that_is_no_text_is_read_loosely() {
    let log = load(b"ok\n\xff\xfebad\n");
    assert_eq!(log.lines, vec!["ok", "\u{fffd}\u{fffd}bad"]);
    assert_eq!(log.keys, vec![0, 0]);
}

fn change_text(c: &Change) -> &str {
    match c {
        Change::Replace(t) => t,
        Change::Extend(t) => t,
    }
}

#[test]
fn message_is_appended() {
    let c = append(131_072, 0xabc, "[12:00:00] hi", &[], &[]);
    assert!(matches!(c, Change::Extend(_)));
    assert_eq!(change_text(&c), "0000000000000abc|[12:00:00] hi\n");
    assert_eq!(size_after(100, &c), 131);
}

#[test]
fn large_log_is_cut_down_to_the_backlog() {
    let keys = vec![1u64, 0, u64::MAX];
    let lines: Vec<String> = vec!["a".into(), "b\u{e9}".into(), "c".into()];
    let c = append(131_073, 9, "z", &keys, &lines);
    assert!(matches!(c, Change::Replace(_)));
    assert_eq!(
        change_text(&c),
        "0000000000000001|a\n0000000000000000|b\u{e9}\nffffffffffffffff|c\n"
    );
    assert_eq!(size_after(131_073, &c), 59);
    // What was written loads as the backlog it was written from.
    let back = load(change_text(&c).as_bytes());
    assert_eq!(back.keys, keys);
    assert_eq!(back.lines, lines);
    // A record behind it is one more.
    let more = append(0, 7, "d", &[], &[]);
    let both = format!("{}{}", change_text(&c), change_text(&more));
    let back = load(both.as_bytes());
    assert_eq!(back.keys, vec![1, 0, u64::MAX, 7]);
    assert_eq!(back.lines[3], "d");
}

#[test]
fn clearing_the_log() {
    let mut size = 5;
    clear(&mut size, false, true, true);
    assert_eq!(size, 5);
    clear(&mut size, true, true, false);
    assert_eq!(size, 5);
    clear(&mut size, true, true, true);
    assert_eq!(size, 0);
    size = 5;
    clear(&mut size, true, false, false);
    assert_eq!(size, 0);
    let none = Loaded::nothing();
    assert!(none.keys.is_empty() && none.lines.is_empty() && none.size == 0);
}

#[test]
fn distances_have_labels() {
    let d = |m: u32, below_km, below_ten_km| Distance {
        below_km,
        below_ten_km,
        meters: m,
        hectometers: m / 100,
        kilometers: m / 1000,
    };
    assert_eq!(distance_label(d(870, true, true)), "870m");
    assert_eq!(distance_label(d(1234, false, true)), "1.2km");
    assert_eq!(distance_label(d(87_654, false, false)), "87km");
}

#[test]
fn compass_has_eight_points() {
    let names: Vec<&str> = (8..16).map(compass8).collect();
    assert_eq!(names, vec!["N", "NE", "E", "SE", "S", "SW", "W", "NW"]);
}

#[test]
fn auxiliary_button() {
    let mut light = 0u8;
    assert_eq!(dispatch(Io48Action::Backlight, &mut light, 30), Outcome::Done);
    assert_eq!(light, 30);
    dispatch(Io48Action::Backlight, &mut light, 30);
    assert_eq!(light, 0);
    dispatch(Io48Action::Backlight, &mut light, 0);
    assert_eq!(light, 50);
    assert_eq!(dispatch(Io48Action::Sleep, &mut light, 30), Outcome::Sleep);
    assert_eq!(dispatch(Io48Action::LoraReceive, &mut light, 30), Outcome::OpenLoraRecv);
    assert_eq!(dispatch(Io48Action::Nothing, &mut light, 30), Outcome::Done);
    assert_eq!(light, 50);
}

#[test]
fn remote_view_is_loaded_once() {
    let mut r = Remote::new(1, false);
    assert!(!r.is_dirty());
    r.refresh(2);
    assert!(r.is_dirty());
    assert_eq!(r.view, 2);
    r.clear();
    assert!(!r.is_dirty());
    r.invalidate();
    assert!(r.is_dirty());
    assert_eq!(r.view, 2);
    assert!(Remote::new(0, true).is_dirty());
}

fn named(name: &str) -> Option<Vec<u8>> {
    Some(name.as_bytes().to_vec())
}

#[test]
fn nodes_have_names() {
    let m = Mesh::new(0x1234137c);
    assert_eq!(m.display_name(7, &None, &named("bob")), "bob (0007)");
    assert_eq!(m.display_name(0xdeadbeef, &None, &None), "deadbeef");
    assert_eq!(m.display_name(0x1234137c, &named("me"), &named("not me")), "me (137c)");
    assert_eq!(m.display_name(7, &None, &Some(vec![0xff])), "00000007");
    assert_eq!(node_id_of(&[1, 2, 0x12, 0x34, 0x13, 0x7c]), 0x1234137c);
    assert_eq!(alias_claim(""), None);
    assert_eq!(alias_claim("me"), Some(&b"me"[..]));
}

fn outlook() -> Outlook {
    Outlook {
        root: None,
        slot: None,
        frame_number: None,
        peer_count: 0,
        store_len: 0,
        alias: None,
    }
}

#[test]
fn own_node_is_described() {
    let mut m = Mesh::new(0xa);
    let (a, b, c) = m.info_lines(&outlook());
    assert_eq!(a, "0000000a | syncing...");
    assert_eq!(b, "slot --  | peers 0");
    assert_eq!(c, "rx 0 tx 0 | store 0");
    m.rx_count = 5;
    m.tx_count = 6;
    m.last_rssi_dbm = Some(-97);
    let mut o = outlook();
    o.root = Some((0xa, 0));
    o.slot = Some(3);
    o.frame_number = Some(1234);
    o.peer_count = 2;
    o.store_len = 9;
    o.alias = named("walker");
    let (a, b, c) = m.info_lines(&o);
    assert_eq!(a, "walker (000a) | ROOT");
    assert_eq!(b, "slot 3 f 1234 | peers 2");
    assert_eq!(c, "rx 5 tx 6 | store 9 | last rx -97dBm");
    o.root = Some((0xbeef, 2));
    assert_eq!(m.info_lines(&o).0, "walker (000a) | root 0000beef s2");
}

#[test]
fn peers_have_rows() {
    let m = Mesh::new(0xa);
    let peer = |id| Peer {
        id,
        alias: None,
        slot: None,
        rssi_dbm: None,
        heard_age_us: None,
        via: None,
        via_alias: None,
    };
    let mut heard = peer(1);
    heard.alias = named("bob");
    heard.slot = Some(4);
    heard.rssi_dbm = Some(-80);
    heard.heard_age_us = Some(12_900_000);
    let mut told = peer(2);
    told.via = Some(0xa);
    let rows = m.peer_rows(&vec![heard, told, peer(3)], &named("me"));
    assert_eq!(rows[0], "bob (0001)            4      -80   12s ago");
    assert_eq!(rows[1], "00000002              --     via me (000a)");
    assert_eq!(rows[2], "00000003              --");
}

#[test]
fn only_a_stale_beacon_is_dropped() {
    let mut m = Mesh::new(1);
    let mut s = Slice::begin(1_000);
    assert_eq!(s.end, 31_000);
    let beacon = Polled::Packet { beacon: true, rssi: -50 };
    assert_eq!(m.poll(&mut s, beacon), PollStep::Drop);
    assert_eq!(m.rx_count, 1);
    assert_eq!(m.last_rssi_dbm, Some(-50));
    assert_eq!(m.poll(&mut s, beacon), PollStep::Feed);
    assert_eq!(m.poll(&mut s, Polled::Nothing), PollStep::Pause);
    let mut s = Slice::begin(0);
    assert_eq!(m.poll(&mut s, Polled::Packet { beacon: false, rssi: 1 }), PollStep::Feed);
    m.rx_count = u32::MAX;
    m.poll(&mut s, beacon);
    assert_eq!(m.rx_count, 0);
    m.tx_count = u32::MAX;
    m.transmitted();
    assert_eq!(m.tx_count, 0);
}

#[test]
fn near_transmission_is_waited_for() {
    let s = Slice::begin(0);
    assert_eq!(s.plan(1_000, Some(121_000)), Goal::TransmitAt(121_000));
    assert_eq!(s.plan(1_000, Some(121_001)), Goal::ListenUntil(30_000));
    assert_eq!(s.plan(1_000, None), Goal::ListenUntil(30_000));
    assert!(!s.over(29_999));
    assert!(s.over(30_000));
    let mut m = Mesh::new(1);
    assert!(m.on_gps_second(5));
    assert!(!m.on_gps_second(5));
    assert!(m.on_gps_second(6));
}

#[test]
fn a_slice_is_serviced() {
    let mut mesh = Mesh::new(7);
    let mut s = Service::begin(1_000);
    assert_eq!(s.stage, Stage::Planning);
    s.plan(1_000, None);
    assert_eq!(s.clock(30_999), Errand::Poll);
    let beacon = Polled::Packet { beacon: true, rssi: -60 };
    assert_eq!(s.poll(&mut mesh, beacon), PollStep::Drop);
    assert_eq!(s.stage, Stage::Polling { until: 31_000, send: false });
    assert_eq!(s.poll(&mut mesh, beacon), PollStep::Feed);
    assert_eq!(s.stage, Stage::Planning);
    assert_eq!(mesh.rx_count, 2);
    s.plan(2_000, Some(122_000));
    assert_eq!(s.clock(121_999), Errand::Poll);
    assert_eq!(s.clock(122_000), Errand::Send);
    s.sent(&mut mesh, true, 122_500);
    assert_eq!(mesh.tx_count, 1);
    assert_eq!(s.stage, Stage::Over);
}

#[test]
fn packets_are_sent_in_their_time() {
    let mut mesh = Mesh::new(7);
    let mut s = Service::begin(0);
    s.plan(0, Some(120_001));
    assert_eq!(s.stage, Stage::Polling { until: 30_000, send: false });
    assert_eq!(s.clock(30_000), Errand::Return);
    assert_eq!(s.stage, Stage::Over);
    let mut s = Service::begin(0);
    s.plan(0, Some(5_000));
    assert_eq!(s.clock(5_000), Errand::Send);
    s.sent(&mut mesh, false, 6_000);
    assert_eq!(mesh.tx_count, 0);
    assert_eq!(s.stage, Stage::Planning);
}

#[test]
fn changes_worth_painting() {
    let o = Outlook {
        root: Some((1, 2)),
        slot: Some(3),
        frame_number: Some(9),
        peer_count: 4,
        store_len: 5,
        alias: None,
    };
    assert_eq!(o.status_key(), (Some((1, 2)), Some(3), 4));
}

#[test]
fn records_without_a_key_are_whole() {
    let l = load(b"[12:34:56] alice|x\n");
    assert_eq!(l.keys, vec![0]);
    assert_eq!(l.lines, vec!["[12:34:56] alice|x"]);
    assert_eq!(l.size, 19);
    let l = load(b"0123456789ABCDEF|x\nffffffffffffffff||y\n");
    assert_eq!(l.keys, vec![0x0123_4567_89ab_cdef, u64::MAX]);
    assert_eq!(l.lines, vec!["x", "|y"]);
}

fn incoming(body: &[u8]) -> Option<Incoming> {
    Some(Incoming { from: 5, msg_id: 9, utc_seconds: Some(77), body: body.to_vec() })
}

#[test]
fn texts_are_taken() {
    assert_eq!(take_text(&None), None);
    assert_eq!(
        take_text(&incoming("h\u{e9}".as_bytes())),
        Some((5, Some(77), String::from("h\u{e9}")))
    );
    assert_eq!(
        take_text(&incoming(&[0x61, 0xff, 0x62])),
        Some((5, Some(77), String::from("a\u{fffd}b")))
    );
}

#[test]
fn messages_have_their_own_keys() {
    assert_eq!(message_key(0x1234_137c, 7), 0x1234_137c_0000_0007);
    assert_eq!(message_key(0, 1), 1);
}

#[test]
fn failed_writes_keep_the_size() {
    let change = Change::Extend(String::from("abc"));
    let mut size = 10;
    settle(&mut size, &change, false);
    assert_eq!(size, 10);
    settle(&mut size, &change, true);
    assert_eq!(size, 13);
    settle(&mut size, &Change::Replace(String::from("ab")), true);
    assert_eq!(size, 2);
}
