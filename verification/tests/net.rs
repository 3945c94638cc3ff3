use t5s3_epaper_ui::exchange::{parse_ipv4, Exchange, Step};
use t5s3_epaper_ui::http::{
    body_of, content_length, plain_request, tls_request, ReadOutcome, ResponseReader,
};
use t5s3_epaper_ui::tls::{
    fill_bytes, next_u64, stream_read, words_for, StreamError, WallClock,
};
use t5s3_epaper_ui::wifi::{
    after_connect, after_pause, after_query, arrange_scan, clock_us, failed, first_leg,
    music_answer, music_next, music_start, next_leg, non_empty, parse_port, sntp_request,
    sntp_time, target, ConnectStep, Download, Event, Host, Leg, Link, MusicStep, Op, QueryStep, Request,
    ScanEntry, Server, ServerPath,
};

#[test]
fn ports_are_read() {
    assert_eq!(parse_port("8080"), 8080);
    assert_eq!(parse_port("65535"), 65535);
    assert_eq!(parse_port("65536"), 3009);
    assert_eq!(parse_port("0"), 3009);
    assert_eq!(parse_port(""), 3009);
    assert_eq!(parse_port("80a"), 3009);
    assert_eq!(parse_port("4294967295"), 3009);
    assert_eq!(parse_port("4294970305"), 3009);
    assert_eq!(parse_port("00000000000000000080"), 80);
    assert_eq!(parse_port("99999999999999999999x"), 3009);
}

#[test]
fn server_of_the_build() {
    let s = Server::from_build(None, None, None, None);
    assert_eq!(s.host, "192.168.1.100");
    assert_eq!(s.port, 3009);
    assert!(s.funnel.is_none());
    let s = Server::from_build(Some("h"), Some("80"), Some(""), Some("t"));
    assert_eq!(s.host, "h");
    assert_eq!(s.port, 80);
    assert!(s.funnel.is_none());
    assert_eq!(s.token, Some("t"));
    assert_eq!(non_empty(Some("")), None);
}

#[test]
fn requests_are_written() {
    assert_eq!(
        plain_request("GET", "/api/sensors", "10.0.0.1", None),
        "GET /api/sensors HTTP/1.1\r\nHost: 10.0.0.1\r\nConnection: close\r\n\r\n"
    );
    assert_eq!(
        tls_request("POST", "/x", "a.ts.net", Some("tok")),
        "POST /x HTTP/1.0\r\nHost: a.ts.net\r\nAuthorization: Bearer tok\r\n\
         Connection: close\r\n\r\n"
    );
}

#[test]
fn lengths_are_declared() {
    assert_eq!(content_length(b"HTTP/1.1 200 OK\r\nContent-Length: 12"), Some(12));
    assert_eq!(content_length(b"CONTENT-length :+7 \r"), Some(7));
    assert_eq!(content_length(b"Content-Length: x\r\ncontent-length: 3"), Some(3));
    assert_eq!(content_length(b"Content-Length: -1"), None);
    assert_eq!(content_length(b"X: 1\nY"), None);
    assert_eq!(content_length(b"\xff: 1\ncontent-length:5\ncontent-length:6"), Some(5));
    assert_eq!(content_length(b"content-length: 99999999999999999999999"), None);
    assert_eq!(content_length(b""), None);
}

#[test]
fn bodies_of_responses() {
    let ok = b"HTTP/1.1 200 OK\r\nContent-Length: 3\r\n\r\nabcdef";
    assert_eq!(body_of(ok, false), Some(b"abc".to_vec()));
    assert_eq!(body_of(&ok[..ok.len() - 4], true), None);
    let plain = b"HTTP/1.0 204 x\r\nA: b\r\n\r\nrest";
    assert_eq!(body_of(plain, true), Some(b"rest".to_vec()));
    assert_eq!(body_of(plain, false), None);
    assert_eq!(body_of(b"HTTP/1.1 404 no\r\n\r\n", true), None);
    assert_eq!(body_of(b"HTTP/1.1 200 OK\r\nno end", true), None);
    assert_eq!(body_of(b"", true), None);
}

#[test]
fn no_part_of_a_response_is_taken_for_it() {
    let resp = b"HTTP/1.1 200 OK\r\nContent-Length: 5\r\n\r\nhello";
    for n in 0..resp.len() {
        assert_eq!(body_of(&resp[..n], true), None);
        assert_eq!(body_of(&resp[..n], false), None);
    }
    assert_eq!(body_of(resp, false), Some(b"hello".to_vec()));
}

#[test]
fn responses_are_read_in_chunks() {
    let mut r = ResponseReader::new(10);
    r.feed(ReadOutcome::Bytes(b"HTTP/1.1 200 OK\r\n\r\n".to_vec()));
    assert!(r.wants_more());
    r.feed(ReadOutcome::Bytes(b"body".to_vec()));
    assert!(r.wants_more());
    r.feed(ReadOutcome::Bytes(Vec::new()));
    assert!(!r.wants_more());
    assert_eq!(r.finish(), Some(b"body".to_vec()));

    let mut r = ResponseReader::new(10);
    r.feed(ReadOutcome::Bytes(b"HTTP/1.1 200 OK\r\n\r\nbody".to_vec()));
    r.feed(ReadOutcome::Failed);
    assert!(!r.wants_more());
    assert_eq!(r.finish(), None);

    let mut r = ResponseReader::new(10);
    r.feed(ReadOutcome::Bytes(vec![0x20; 2058]));
    assert!(r.wants_more());
    r.feed(ReadOutcome::Bytes(vec![0x20; 1]));
    assert!(!r.wants_more());
}

#[test]
fn addresses_are_read() {
    assert_eq!(parse_ipv4("192.168.1.100"), Some((192, 168, 1, 100)));
    assert_eq!(parse_ipv4("0.0.0.0"), Some((0, 0, 0, 0)));
    assert_eq!(parse_ipv4("255.255.255.255"), Some((255, 255, 255, 255)));
    for bad in [
        "", "1.2.3", "1.2.3.4.5", "256.1.1.1", "01.2.3.4", "1.2.3.4 ", "a.b.c.d", "1..2.3",
        "1.2.3.", "1234.1.1.1", "1.2.3.00",
    ] {
        assert_eq!(parse_ipv4(bad), None, "{}", bad);
    }
}

#[test]
fn addresses_agree_with_the_library() {
    for a in [0u8, 7, 10, 99, 100, 255] {
        for d in [0u8, 1, 42, 199, 250] {
            let text = format!("{}.{}.{}.{}", a, d, d, a);
            assert_eq!(parse_ipv4(&text), Some((a, d, d, a)));
        }
    }
}

#[test]
fn plain_exchange() {
    let mut x = Exchange::new(Leg::Plain, "10.0.0.1", 100);
    assert_eq!(x.step, Step::Connect);
    x.advance(true);
    assert_eq!(x.step, Step::Send);
    assert!(x.request("GET", "/", "10.0.0.1", None).starts_with("GET / HTTP/1.1\r\n"));
    x.advance(true);
    assert_eq!(x.step, Step::Receive);
    x.receive(ReadOutcome::Bytes(b"HTTP/1.1 200 OK\r\n\r\nhi".to_vec()));
    assert_eq!(x.step, Step::Receive);
    assert!(x.body().is_none());
    x.receive(ReadOutcome::Bytes(Vec::new()));
    assert_eq!(x.step, Step::Over);
    assert_eq!(x.body(), Some(b"hi".to_vec()));
}

#[test]
fn tls_exchange() {
    let mut x = Exchange::new(Leg::Tls, "a.ts.net", 100);
    let mut steps = vec![x.step];
    while x.step != Step::Receive {
        x.advance(true);
        steps.push(x.step);
    }
    assert_eq!(
        steps,
        vec![
            Step::Resolve,
            Step::Connect,
            Step::Handshake,
            Step::Send,
            Step::Flush,
            Step::Receive
        ]
    );
    assert!(x.request("GET", "/", "a", None).starts_with("GET / HTTP/1.0\r\n"));
    x.receive(ReadOutcome::Failed);
    assert!(x.body().is_none());
    let mut y = Exchange::new(Leg::Tls, "a.ts.net", 100);
    y.advance(false);
    assert_eq!(y.step, Step::Over);
    assert!(y.body().is_none());
}

#[test]
fn way_to_the_server() {
    // No public name: one try, nothing latched.
    let mut p = ServerPath::Unknown;
    assert_eq!(first_leg(false, p), Leg::Plain);
    assert_eq!(next_leg(false, &mut p, Leg::Plain, false), None);
    assert_eq!(p, ServerPath::Unknown);
    // Away from home: the first request finds the other way, the second takes it.
    assert_eq!(first_leg(true, p), Leg::Plain);
    assert_eq!(next_leg(true, &mut p, Leg::Plain, false), Some(Leg::Tls));
    assert_eq!(next_leg(true, &mut p, Leg::Tls, true), None);
    assert_eq!(p, ServerPath::Funnel);
    assert_eq!(first_leg(true, p), Leg::Tls);
    // It fails too: the next one finds out anew.
    assert_eq!(next_leg(true, &mut p, Leg::Tls, false), None);
    assert_eq!(p, ServerPath::Unknown);
    // At home.
    assert_eq!(next_leg(true, &mut p, Leg::Plain, true), None);
    assert_eq!(p, ServerPath::Lan);
    assert_eq!(next_leg(true, &mut p, Leg::Plain, false), Some(Leg::Tls));
    assert_eq!(p, ServerPath::Lan);
}

fn request(op: Op) -> Request {
    Request { ssid: String::from("s"), password: String::from("p"), op }
}

#[test]
fn link_holds_one_of_each() {
    let mut link = Link::new();
    assert!(link.poll_event().is_none());
    assert!(link.send(request(Op::Scan)));
    assert!(!link.send(request(Op::Join)));
    link.cancel();
    assert!(link.cancelled);
    let got = link.take_request().unwrap();
    assert!(matches!(got.op, Op::Scan));
    assert!(!link.cancelled);
    assert!(link.take_request().is_none());
    assert!(link.post_event(Event::JoinDone(true)).is_none());
    assert!(matches!(link.post_event(Event::JoinDone(false)), Some(Event::JoinDone(false))));
    assert!(matches!(link.poll_event(), Some(Event::JoinDone(true))));
    link.path = ServerPath::Lan;
    link.reset_server_path();
    assert_eq!(link.path, ServerPath::Unknown);
}

#[test]
fn sessions_that_fail() {
    assert!(matches!(failed(&Op::SyncTime), Event::TimeSynced(None)));
    assert!(matches!(failed(&Op::Scan), Event::ScanDone(None)));
    assert!(matches!(failed(&Op::Join), Event::JoinDone(false)));
    let get = Op::Get { host: Host::Server, path: String::from("/"), max_body: 1 };
    assert!(matches!(failed(&get), Event::GotBody(None)));
    assert!(matches!(failed(&Op::Music { command: None }), Event::MusicDone(None)));
    let maps = Op::DownloadMaps { tiles: Vec::new(), max_body: 1 };
    assert!(matches!(failed(&maps), Event::DownloadDone { fetched: 0 }));
}

#[test]
fn connecting_is_tried_four_times() {
    assert_eq!(after_connect(1, true), ConnectStep::Connected);
    assert_eq!(after_connect(3, false), ConnectStep::RetryAfter(2));
    assert_eq!(after_connect(4, false), ConnectStep::GiveUp);
}

fn entry(ssid: &str, rssi: i8, secured: bool) -> ScanEntry {
    ScanEntry { ssid: String::from(ssid), rssi, secured }
}

#[test]
fn scan_is_arranged() {
    let found = vec![
        entry("b", -60, true),
        entry("", -10, false),
        entry("a", -70, false),
        entry("b", -40, false),
        entry("c", -60, true),
        entry("a", -70, true),
    ];
    let shown = arrange_scan(found);
    let got: Vec<(&str, i8, bool)> =
        shown.iter().map(|e| (e.ssid.as_str(), e.rssi, e.secured)).collect();
    assert_eq!(got, vec![("b", -40, false), ("c", -60, true), ("a", -70, false)]);
    assert!(arrange_scan(Vec::new()).is_empty());
}

#[test]
fn downloads_give_up_after_five_misses() {
    let mut d = Download::new();
    let outcomes = [true, false, false, true, false, false, false, false, false, true];
    let mut tried = 0;
    while let Some(i) = d.next_tile(outcomes.len(), false) {
        d.record(outcomes[i]);
        tried += 1;
    }
    assert_eq!(tried, 9);
    assert_eq!(d.fetched, 2);
    assert_eq!(d.misses, 5);
    let fresh = Download::new();
    assert_eq!(fresh.next_tile(3, true), None);
    assert_eq!(fresh.next_tile(0, false), None);
    assert_eq!(fresh.next_tile(3, false), Some(0));
}

#[test]
fn music_session_steps() {
    let mut step = music_start(true);
    let mut steps = vec![step];
    while step != MusicStep::Finish {
        step = music_next(step, true);
        steps.push(step);
    }
    assert_eq!(
        steps,
        vec![
            MusicStep::Command(256),
            MusicStep::Settle(800),
            MusicStep::Json(8192),
            MusicStep::Cover(512 * 1024),
            MusicStep::Finish
        ]
    );
    assert_eq!(music_start(false), MusicStep::Json(8192));
    assert_eq!(music_next(MusicStep::Json(8192), false), MusicStep::Finish);
    assert_eq!(music_next(MusicStep::Command(256), false), MusicStep::Settle(800));
    assert!(music_answer(None, Some(vec![1])).is_none());
    let snap = music_answer(Some(vec![1]), None).unwrap();
    assert_eq!(snap.json, vec![1]);
    assert!(snap.cover.is_none());
}

#[test]
fn time_of_a_reply() {
    let mut reply = [0u8; 48];
    reply[40..44].copy_from_slice(&3_900_000_000u32.to_be_bytes());
    assert_eq!(sntp_time(&reply, 48), Some(3_900_000_000 - 2_208_988_800));
    assert_eq!(sntp_time(&reply, 44), Some(1_691_011_200));
    assert_eq!(sntp_time(&reply, 43), None);
    reply[40..44].copy_from_slice(&5u32.to_be_bytes());
    assert_eq!(sntp_time(&reply, 48), Some(0));
    let ask = sntp_request();
    assert_eq!(ask[0], 0x1b);
    assert!(ask[1..].iter().all(|&b| b == 0));
    assert_eq!(clock_us(1_691_011_200), 1_691_011_200_000_000);
    assert_eq!(after_query(Some(5)), QueryStep::Answer(Some(5)));
    assert_eq!(after_query(None), QueryStep::Wait(2));
    assert_eq!(after_pause(2), QueryStep::Ask);
    assert_eq!(after_pause(3), QueryStep::Answer(None));
}

#[test]
fn wall_clock_for_certificates() {
    let mut c = WallClock::new();
    assert_eq!(c.now(), None);
    c.set_now_unix(1_700_000_000);
    assert_eq!(c.now(), Some(1_700_000_000));
    c.set_now_unix(0x1_0000_0005);
    assert_eq!(c.now(), Some(5));
    c.set_now_unix(0x1_0000_0000);
    assert_eq!(c.now(), None);
}

#[test]
fn random_words_become_bytes() {
    assert_eq!(words_for(0), 0);
    assert_eq!(words_for(4), 1);
    assert_eq!(words_for(6), 2);
    let mut out = [0u8; 6];
    fill_bytes(&mut out, &[0x04030201, 0x08070605]);
    assert_eq!(out, [1, 2, 3, 4, 5, 6]);
    assert_eq!(next_u64(1, 2), 0x1_0000_0002);
}

#[test]
fn closing_ends_the_stream() {
    assert_eq!(stream_read(Err(StreamError::ConnectionClosed)), Ok(0));
    assert_eq!(stream_read(Err(StreamError::Broken)), Err(StreamError::Broken));
    assert_eq!(stream_read(Ok(9)), Ok(9));
}

#[test]
fn token_is_for_the_server_alone() {
    let server = Server {
        host: "10.0.0.2",
        port: 3009,
        funnel: Some("box.ts.net"),
        token: Some("secret"),
    };
    assert_eq!(target(&server, Leg::Plain, None), ("10.0.0.2", 3009, Some("secret")));
    assert_eq!(target(&server, Leg::Tls, None), ("box.ts.net", 443, Some("secret")));
    assert_eq!(target(&server, Leg::Tls, Some("api.example")), ("api.example", 443, None));
}
