//! Wireless sessions: what the pages ask for and what they are answered, which
//! way the server is reached, and the decisions within a session.
use vstd::prelude::*;
use vstd::string::*;
use vstd::utf8::*;

use crate::ascii::{ascii_digits, ascii_value, law_written_number_is_read};
use crate::date::day_number;
use crate::text::dec;

verus! {

// ---------------------------------------------------------------------------
// What the build names.
// ---------------------------------------------------------------------------

/// The port that is used where the build names none that can be read.
pub const FALLBACK_PORT: u16 = 3009;

/// The port that a text names: a decimal numeral from 1 up to 65535.
pub open spec fn port_named(s: Seq<u8>) -> int {
    if ascii_digits(s) && 1 <= ascii_value(s) <= u16::MAX {
        ascii_value(s)
    } else {
        FALLBACK_PORT as int
    }
}

/// Reads the port that a text names; anything unexpected names the fallback.
pub fn parse_port(s: &str) -> (r: u16)
    ensures
        r == port_named(s.spec_bytes()),
{
    let bytes: &[u8] = s.as_bytes();
    // Anything above the ports stands for itself and all that is larger.
    let mut n: u32 = 0;
    let mut i: usize = 0;
    assert(bytes@.take(0) =~= Seq::<u8>::empty());
    while i < bytes.len()
        invariant
            i <= bytes@.len(),
            bytes@ == s.spec_bytes(),
            ascii_digits(bytes@.take(i as int)),
            n <= 65536,
            n <= 65535 ==> n == ascii_value(bytes@.take(i as int)),
            n == 65536 ==> ascii_value(bytes@.take(i as int)) > 65535,
        decreases bytes@.len() - i,
    {
        let b: u8 = bytes[i];
        if b < 0x30 || b > 0x39 {
            return FALLBACK_PORT;
        }
        let ghost next = bytes@.take(i + 1);
        proof {
            assert(next.drop_last() =~= bytes@.take(i as int));
            assert forall|k: int| 0 <= k < next.len() implies 0x30 <= #[trigger] next[k]
                <= 0x39 by {
                if k < i {
                    assert(next[k] == bytes@.take(i as int)[k]);
                }
            }
        }
        n = n * 10 + (b - 0x30) as u32;
        if n > 65536 {
            n = 65536;
        }
        i = i + 1;
    }
    assert(bytes@.take(bytes@.len() as int) =~= bytes@);
    if n == 0 || n > 65535 {
        FALLBACK_PORT
    } else {
        n as u16
    }
}

/// The server that the build names.
pub struct Server {
    pub host: &'static str,
    pub port: u16,
    /// The public name under which the server is reached over TLS.
    pub funnel: Option<&'static str>,
    /// The token that goes along with every request.
    pub token: Option<&'static str>,
}

/// A text, unless it is empty.
pub fn non_empty(s: Option<&'static str>) -> (r: Option<&'static str>)
    ensures
        r == match s {
            Some(t) => if t@.len() > 0 {
                s
            } else {
                None
            },
            None => None,
        },
{
    match s {
        Some(t) => if t.is_empty() {
            None
        } else {
            Some(t)
        },
        None => None,
    }
}

impl Server {
    /// The server, given what the build names.
    pub fn from_build(
        host: Option<&'static str>,
        port: Option<&'static str>,
        funnel: Option<&'static str>,
        token: Option<&'static str>,
    ) -> (r: Self)
        ensures
            r.host@ == match host {
                Some(h) => h@,
                None => "192.168.1.100"@,
            },
            r.port == match port {
                Some(p) => port_named(p.spec_bytes()),
                None => 3009,
            },
            r.funnel == match funnel {
                Some(t) => if t@.len() > 0 {
                    funnel
                } else {
                    None
                },
                None => None,
            },
            r.token == match token {
                Some(t) => if t@.len() > 0 {
                    token
                } else {
                    None
                },
                None => None,
            },
    {
        let host: &'static str = match host {
            Some(h) => h,
            None => "192.168.1.100",
        };
        let port: u16 = match port {
            Some(p) => parse_port(p),
            None => FALLBACK_PORT,
        };
        Server { host, port, funnel: non_empty(funnel), token: non_empty(token) }
    }
}

// ---------------------------------------------------------------------------
// What pages ask for, and the answers.
// ---------------------------------------------------------------------------

/// Which server a body is fetched from.
pub enum Host {
    /// The device's own server.
    Server,
    /// Any public host, over TLS.
    External(&'static str),
}

/// What a session does.
pub enum Op {
    SyncTime,
    Scan,
    Join,
    Get { host: Host, path: String, max_body: usize },
    Music { command: Option<&'static str> },
    DownloadMaps { tiles: Vec<(u32, String)>, max_body: usize },
}

/// One session, with the network to run it on.
pub struct Request {
    pub ssid: String,
    pub password: String,
    pub op: Op,
}

/// An access point in reach.
pub struct ScanEntry {
    pub ssid: String,
    pub rssi: i8,
    pub secured: bool,
}

/// What the music page shows: the state of the player as JSON, and the cover
/// where there is one.
pub struct MusicSnapshot {
    pub json: Vec<u8>,
    pub cover: Option<Vec<u8>>,
}

/// What a session was answered, or one step of a bulk download.
pub enum Event {
    TimeSynced(Option<u64>),
    ScanDone(Option<Vec<ScanEntry>>),
    JoinDone(bool),
    GotBody(Option<Vec<u8>>),
    MusicDone(Option<MusicSnapshot>),
    Tile { key: u32, body: Vec<u8> },
    DownloadDone { fetched: usize },
}

/// Whether an event is the one that ends a session.
pub open spec fn ends(op: Op, event: Event) -> bool {
    match op {
        Op::SyncTime => event is TimeSynced,
        Op::Scan => event is ScanDone,
        Op::Join => event is JoinDone,
        Op::Get { .. } => event is GotBody,
        Op::Music { .. } => event is MusicDone,
        Op::DownloadMaps { .. } => event is DownloadDone,
    }
}

/// The event that ends a session which never came up.
pub fn failed(op: &Op) -> (r: Event)
    ensures
        ends(*op, r),
        r == match *op {
            Op::SyncTime => Event::TimeSynced(None),
            Op::Scan => Event::ScanDone(None),
            Op::Join => Event::JoinDone(false),
            Op::Get { .. } => Event::GotBody(None),
            Op::Music { .. } => Event::MusicDone(None),
            Op::DownloadMaps { .. } => Event::DownloadDone { fetched: 0 },
        },
{
    match op {
        Op::SyncTime => Event::TimeSynced(None),
        Op::Scan => Event::ScanDone(None),
        Op::Join => Event::JoinDone(false),
        Op::Get { .. } => Event::GotBody(None),
        Op::Music { .. } => Event::MusicDone(None),
        Op::DownloadMaps { .. } => Event::DownloadDone { fetched: 0 },
    }
}

/// How the server was last reached.
#[derive(Clone, Copy, Debug, PartialEq, Eq, Structural)]
pub enum ServerPath {
    /// Not known: the next request finds out.
    Unknown,
    /// Over the local network.
    Lan,
    /// Under its public name.
    Funnel,
}

/// What the pages and the task that runs sessions share: one request that
/// waits, one event that waits, the wish to stop a bulk download, and the way
/// to the server.
pub struct Link {
    pub request: Option<Request>,
    pub event: Option<Event>,
    pub cancelled: bool,
    pub path: ServerPath,
}

impl Link {
    /// Nothing waits, and the way to the server is not known.
    pub fn new() -> (r: Self)
        ensures
            r.request is None,
            r.event is None,
            !r.cancelled,
            r.path == ServerPath::Unknown,
    {
        Link { request: None, event: None, cancelled: false, path: ServerPath::Unknown }
    }

    /// Puts a request where the task takes it, unless one waits there.
    pub fn send(&mut self, req: Request) -> (r: bool)
        ensures
            r == old(self).request is None,
            *final(self) == with_request(*old(self), req),
            *final(self) == if r {
                Link { request: Some(req), ..*old(self) }
            } else {
                *old(self)
            },
    {
        if self.request.is_some() {
            false
        } else {
            self.request = Some(req);
            true
        }
    }

    /// Takes the request that waits and forgets any wish to stop, which was
    /// for a session before it.
    pub fn take_request(&mut self) -> (r: Option<Request>)
        ensures
            (r, *final(self)) == request_taken(*old(self)),
            r == old(self).request,
            *final(self) == if r is Some {
                Link { request: None, cancelled: false, ..*old(self) }
            } else {
                *old(self)
            },
    {
        let req: Option<Request> = self.request.take();
        if req.is_some() {
            self.cancelled = false;
        }
        req
    }

    /// Puts an event where the pages take it, unless one waits there.
    pub fn post_event(&mut self, event: Event) -> (r: Option<Event>)
        ensures
            old(self).event is None ==> r is None && *final(self) == (Link {
                event: Some(event),
                ..*old(self)
            }),
            old(self).event is Some ==> r == Some(event) && *final(self) == *old(self),
    {
        if self.event.is_some() {
            Some(event)
        } else {
            self.event = Some(event);
            None
        }
    }

    /// Takes the event that waits.
    pub fn poll_event(&mut self) -> (r: Option<Event>)
        ensures
            r == old(self).event,
            *final(self) == (Link { event: None, ..*old(self) }),
    {
        self.event.take()
    }

    /// Asks the task to stop a bulk download after the present tile.
    pub fn cancel(&mut self)
        ensures
            *final(self) == (Link { cancelled: true, ..*old(self) }),
    {
        self.cancelled = true;
    }

    /// Forgets the way to the server: the network is another one.
    pub fn reset_server_path(&mut self)
        ensures
            *final(self) == (Link { path: ServerPath::Unknown, ..*old(self) }),
    {
        self.path = ServerPath::Unknown;
    }
}

// ---------------------------------------------------------------------------
// The way to the server.
// ---------------------------------------------------------------------------

/// One try of a request.
#[derive(Clone, Copy, Debug, PartialEq, Eq, Structural)]
pub enum Leg {
    /// In the clear, on the local network.
    Plain,
    /// Over TLS, under the public name.
    Tls,
}

/// The first try of a request. Without a public name there is one way only;
/// with one, the local network comes first unless the server was last reached
/// the other way.
pub open spec fn leg_first(funnel: bool, path: ServerPath) -> Leg {
    if funnel && path == ServerPath::Funnel {
        Leg::Tls
    } else {
        Leg::Plain
    }
}

/// The try after one that failed.
pub open spec fn leg_after(funnel: bool, leg: Leg) -> Option<Leg> {
    if funnel && leg == Leg::Plain {
        Some(Leg::Tls)
    } else {
        None
    }
}

/// What is known of the way to the server after a try.
pub open spec fn path_after(funnel: bool, path: ServerPath, leg: Leg, ok: bool) -> ServerPath {
    if !funnel {
        path
    } else if ok {
        if leg == Leg::Plain {
            ServerPath::Lan
        } else {
            ServerPath::Funnel
        }
    } else if leg == Leg::Plain {
        path
    } else {
        ServerPath::Unknown
    }
}

/// The first try of a request.
pub fn first_leg(funnel: bool, path: ServerPath) -> (r: Leg)
    ensures
        r == leg_first(funnel, path),
{
    if funnel && path == ServerPath::Funnel {
        Leg::Tls
    } else {
        Leg::Plain
    }
}

/// Takes the outcome of a try: notes what it says of the way to the server,
/// and returns the next try, if there is one.
pub fn next_leg(funnel: bool, path: &mut ServerPath, leg: Leg, ok: bool) -> (r: Option<Leg>)
    ensures
        *final(path) == path_after(funnel, *old(path), leg, ok),
        r == if ok {
            None
        } else {
            leg_after(funnel, leg)
        },
{
    if !funnel {
        return None;
    }
    match leg {
        Leg::Plain => {
            if ok {
                *path = ServerPath::Lan;
                None
            } else {
                Some(Leg::Tls)
            }
        },
        Leg::Tls => {
            *path = if ok {
                ServerPath::Funnel
            } else {
                ServerPath::Unknown
            };
            None
        },
    }
}

/// The port of servers behind TLS.
pub const TLS_PORT: u16 = 443;

/// Whom a try is made to: the host, the port, and the token that goes along.
/// The token is for the server alone; an outside host gets none.
pub open spec fn target_of(server: Server, leg: Leg, external: Option<&'static str>) -> (
    &'static str,
    u16,
    Option<&'static str>,
) {
    match external {
        Some(host) => (host, TLS_PORT, None),
        None => match leg {
            Leg::Tls => (server.funnel->0, TLS_PORT, server.token),
            Leg::Plain => (server.host, server.port, server.token),
        },
    }
}

/// Whom a try is made to: an outside host where there is one, and else the
/// server.
pub fn target(server: &Server, leg: Leg, external: Option<&'static str>) -> (r: (
    &'static str,
    u16,
    Option<&'static str>,
))
    requires
        external is None && leg == Leg::Tls ==> server.funnel is Some,
    ensures
        r == target_of(*server, leg, external),
{
    match (external, leg, server.funnel) {
        (Some(host), _, _) => (host, TLS_PORT, None),
        (None, Leg::Tls, Some(host)) => (host, TLS_PORT, server.token),
        _ => (server.host, server.port, server.token),
    }
}

/// Every request to the server carries the token that the build names, whichever
/// way it goes, and no request to an outside host does.
pub proof fn law_token_is_for_the_server_alone(
    server: Server,
    leg: Leg,
    host: &'static str,
)
    ensures
        target_of(server, leg, None).2 == server.token,
        target_of(server, leg, Some(host)) == (host, TLS_PORT, None::<&'static str>),
{
}

/// What a whole request comes to, where `plain` and `tls` say which tries
/// would succeed: whether one did, and what is known of the way afterwards.
pub open spec fn request_outcome(
    funnel: bool,
    path: ServerPath,
    plain: bool,
    tls: bool,
) -> (bool, ServerPath) {
    let first = leg_first(funnel, path);
    let ok = if first == Leg::Plain {
        plain
    } else {
        tls
    };
    let then = path_after(funnel, path, first, ok);
    match leg_after(funnel, first) {
        Some(second) => if ok {
            (true, then)
        } else {
            (tls, path_after(funnel, then, second, tls))
        },
        None => (ok, then),
    }
}

/// With a public name: a request fails only if every try of it fails, and then
/// the next one finds out anew; one that succeeds leaves the way it went as the
/// one to go next. On the local network it succeeds whenever that answers,
/// unless the server was last reached the other way. Without a public name
/// nothing is ever latched.
pub proof fn law_way_to_server(path: ServerPath, plain: bool, tls: bool)
    ensures
        ({
            let (ok, after) = request_outcome(true, path, plain, tls);
            &&& !ok ==> !tls && after == ServerPath::Unknown
            &&& ok && after == ServerPath::Lan ==> plain
            &&& ok && after == ServerPath::Funnel ==> tls
            &&& ok ==> after != ServerPath::Unknown
            &&& plain && path != ServerPath::Funnel ==> ok && after == ServerPath::Lan
            &&& tls ==> ok
            &&& path != ServerPath::Funnel ==> ok == (plain || tls)
        }),
        request_outcome(false, path, plain, tls) == (plain, path),
{
}

/// A second request in the same place goes the same way at once: whatever made
/// the first one succeed, the first try of the second one succeeds.
pub proof fn law_second_request_is_direct(path: ServerPath, plain: bool, tls: bool)
    ensures
        ({
            let (ok, after) = request_outcome(true, path, plain, tls);
            ok ==> if leg_first(true, after) == Leg::Plain {
                plain
            } else {
                tls
            }
        }),
{
}

// ---------------------------------------------------------------------------
// Joining a network.
// ---------------------------------------------------------------------------

/// How often a connection is tried before giving up.
pub const CONNECT_ATTEMPTS: u8 = 4;

/// What follows a try to connect.
#[derive(Clone, Copy, Debug, PartialEq, Eq, Structural)]
pub enum ConnectStep {
    /// Wait for an address.
    Connected,
    /// Wait this many seconds and try again.
    RetryAfter(u64),
    /// Give up.
    GiveUp,
}

/// What follows try number `attempt`, counted from one.
pub fn after_connect(attempt: u8, ok: bool) -> (r: ConnectStep)
    ensures
        r == connect_step(attempt, ok),
        r == if ok {
            ConnectStep::Connected
        } else if attempt < CONNECT_ATTEMPTS {
            ConnectStep::RetryAfter(2)
        } else {
            ConnectStep::GiveUp
        },
{
    if ok {
        ConnectStep::Connected
    } else if attempt < CONNECT_ATTEMPTS {
        ConnectStep::RetryAfter(2)
    } else {
        ConnectStep::GiveUp
    }
}

// ---------------------------------------------------------------------------
// Scanning.
// ---------------------------------------------------------------------------

/// What is known of an access point.
pub struct ScanView {
    pub ssid: Seq<char>,
    pub rssi: i8,
    pub secured: bool,
}

impl View for ScanEntry {
    type V = ScanView;

    open spec fn view(&self) -> ScanView {
        ScanView { ssid: self.ssid@, rssi: self.rssi, secured: self.secured }
    }
}

/// What is known of a list of access points.
pub open spec fn scan_views(entries: Seq<ScanEntry>) -> Seq<ScanView> {
    Seq::new(entries.len(), |i: int| entries[i]@)
}

/// How many entries from the front on are at least as strong as `e`.
pub open spec fn stronger_prefix(s: Seq<ScanView>, e: ScanView) -> int
    decreases s.len(),
{
    if s.len() == 0 || s[0].rssi < e.rssi {
        0
    } else {
        1 + stronger_prefix(s.drop_first(), e)
    }
}

/// The named entries of a scan, the strongest first; those of equal strength
/// in the order in which they were found.
pub open spec fn strongest_first(found: Seq<ScanView>) -> Seq<ScanView>
    decreases found.len(),
{
    if found.len() == 0 {
        seq![]
    } else {
        let rest = strongest_first(found.drop_last());
        let e = found.last();
        if e.ssid.len() == 0 {
            rest
        } else {
            rest.insert(stronger_prefix(rest, e), e)
        }
    }
}

/// Whether an entry of `s` has the SSID `ssid`.
pub open spec fn has_ssid(s: Seq<ScanView>, ssid: Seq<char>) -> bool {
    exists|i: int| 0 <= i < s.len() && (#[trigger] s[i]).ssid == ssid
}

/// The first entry for each SSID.
pub open spec fn first_of_each(s: Seq<ScanView>) -> Seq<ScanView>
    decreases s.len(),
{
    if s.len() == 0 {
        seq![]
    } else {
        let rest = first_of_each(s.drop_last());
        if has_ssid(rest, s.last().ssid) {
            rest
        } else {
            rest.push(s.last())
        }
    }
}

/// How many entries from the front on are at least as strong as `rssi`.
fn place_for(entries: &Vec<ScanEntry>, e: &ScanEntry) -> (r: usize)
    ensures
        r == stronger_prefix(scan_views(entries@), e@),
        r <= entries@.len(),
{
    let ghost s = scan_views(entries@);
    let mut i: usize = 0;
    assert(s.skip(0) =~= s);
    while i < entries.len() && entries[i].rssi >= e.rssi
        invariant
            i <= entries@.len(),
            s == scan_views(entries@),
            stronger_prefix(s, e@) == i + stronger_prefix(s.skip(i as int), e@),
        decreases entries@.len() - i,
    {
        assert(s.skip(i as int)[0] == entries@[i as int]@);
        assert(s.skip(i as int).drop_first() =~= s.skip(i + 1));
        i = i + 1;
    }
    if i < entries.len() {
        assert(s.skip(i as int)[0] == entries@[i as int]@);
    }
    i
}

/// Whether an entry has the SSID of `e`.
fn ssid_listed(entries: &Vec<ScanEntry>, e: &ScanEntry) -> (r: bool)
    ensures
        r == has_ssid(scan_views(entries@), e@.ssid),
{
    let ghost s = scan_views(entries@);
    let mut i: usize = 0;
    while i < entries.len()
        invariant
            i <= entries@.len(),
            s == scan_views(entries@),
            forall|k: int| 0 <= k < i ==> (#[trigger] s[k]).ssid != e@.ssid,
        decreases entries@.len() - i,
    {
        assert(s[i as int] == entries@[i as int]@);
        if entries[i].ssid == e.ssid {
            return true;
        }
        i = i + 1;
    }
    false
}

/// Arranges what a scan found: without the unnamed, the strongest first, and
/// each SSID once.
pub fn arrange_scan(found: Vec<ScanEntry>) -> (r: Vec<ScanEntry>)
    ensures
        scan_views(r@) == first_of_each(strongest_first(scan_views(found@))),
{
    let ghost all = scan_views(found@);
    let mut waiting: Vec<ScanEntry> = found;
    let mut sorted: Vec<ScanEntry> = Vec::new();
    let ghost mut done: int = 0;
    assert(scan_views(sorted@) =~= strongest_first(all.take(0)));
    assert(all.skip(0) =~= all);
    while waiting.len() > 0
        invariant
            0 <= done <= all.len(),
            scan_views(waiting@) == all.skip(done),
            scan_views(sorted@) == strongest_first(all.take(done)),
        decreases waiting@.len(),
    {
        let ghost w = waiting@;
        let e: ScanEntry = waiting.remove(0);
        proof {
            assert(scan_views(w)[0] == e@);
            assert(scan_views(w).len() == w.len());
            assert(all.skip(done)[0] == all[done]);
            assert(scan_views(waiting@) =~= all.skip(done).drop_first());
            assert(all.skip(done).drop_first() =~= all.skip(done + 1));
            assert(all.take(done + 1).drop_last() =~= all.take(done));
        }
        if !e.ssid.as_str().is_empty() {
            let at: usize = place_for(&sorted, &e);
            let ghost before = scan_views(sorted@);
            let ghost ev = e@;
            sorted.insert(at, e);
            assert(scan_views(sorted@) =~= before.insert(at as int, ev));
        }
        proof {
            done = done + 1;
        }
    }
    assert(scan_views(waiting@).len() == 0);
    assert(all.take(all.len() as int) =~= all);
    let ghost ordered = scan_views(sorted@);
    let mut out: Vec<ScanEntry> = Vec::new();
    let ghost mut done: int = 0;
    assert(scan_views(out@) =~= first_of_each(ordered.take(0)));
    assert(ordered.skip(0) =~= ordered);
    while sorted.len() > 0
        invariant
            0 <= done <= ordered.len(),
            scan_views(sorted@) == ordered.skip(done),
            scan_views(out@) == first_of_each(ordered.take(done)),
        decreases sorted@.len(),
    {
        let ghost w = sorted@;
        let e: ScanEntry = sorted.remove(0);
        proof {
            assert(scan_views(w)[0] == e@);
            assert(scan_views(w).len() == w.len());
            assert(ordered.skip(done)[0] == ordered[done]);
            assert(scan_views(sorted@) =~= ordered.skip(done).drop_first());
            assert(ordered.skip(done).drop_first() =~= ordered.skip(done + 1));
            assert(ordered.take(done + 1).drop_last() =~= ordered.take(done));
        }
        if !ssid_listed(&out, &e) {
            let ghost before = scan_views(out@);
            let ghost ev = e@;
            out.push(e);
            assert(scan_views(out@) =~= before.push(ev));
        }
        proof {
            done = done + 1;
        }
    }
    assert(scan_views(sorted@).len() == 0);
    assert(ordered.take(ordered.len() as int) =~= ordered);
    out
}

/// No entry is stronger than one in front of it.
pub open spec fn by_strength(s: Seq<ScanView>) -> bool {
    forall|i: int, j: int| 0 <= i < j < s.len() ==> (#[trigger] s[i]).rssi >= (#[trigger] s[j]).rssi
}

/// No two entries have the same SSID.
pub open spec fn each_ssid_once(s: Seq<ScanView>) -> bool {
    forall|i: int, j: int|
        0 <= i < j < s.len() ==> (#[trigger] s[i]).ssid != (#[trigger] s[j]).ssid
}

/// Where the entries at least as strong as `e` end.
proof fn lemma_stronger_prefix(s: Seq<ScanView>, e: ScanView)
    ensures
        0 <= stronger_prefix(s, e) <= s.len(),
        forall|k: int| 0 <= k < stronger_prefix(s, e) ==> (#[trigger] s[k]).rssi >= e.rssi,
        stronger_prefix(s, e) < s.len() ==> s[stronger_prefix(s, e)].rssi < e.rssi,
    decreases s.len(),
{
    if s.len() > 0 && s[0].rssi >= e.rssi {
        let rest = s.drop_first();
        lemma_stronger_prefix(rest, e);
        assert forall|k: int| 0 <= k < stronger_prefix(s, e) implies (#[trigger] s[k]).rssi
            >= e.rssi by {
            if k > 0 {
                assert(s[k] == rest[k - 1]);
            }
        }
        if stronger_prefix(s, e) < s.len() {
            assert(s[stronger_prefix(s, e)] == rest[stronger_prefix(rest, e)]);
        }
    }
}

/// Ordering by strength orders, keeps every named entry and adds none.
proof fn lemma_strongest_first(found: Seq<ScanView>)
    ensures
        by_strength(strongest_first(found)),
        forall|e: ScanView|
            #[trigger] strongest_first(found).contains(e) <==> (found.contains(e) && e.ssid.len()
                > 0),
    decreases found.len(),
{
    let r = strongest_first(found);
    if found.len() == 0 {
        assert(forall|e: ScanView| !r.contains(e));
        assert(forall|e: ScanView| !found.contains(e));
    } else {
        let front = found.drop_last();
        let last = found.last();
        let rest = strongest_first(front);
        lemma_strongest_first(front);
        assert forall|e: ScanView| found.contains(e) <==> (front.contains(e) || e == last) by {
            if front.contains(e) {
                let k = choose|k: int| 0 <= k < front.len() && front[k] == e;
                assert(found[k] == e);
            }
            if e == last {
                assert(found[found.len() - 1] == e);
            }
            if found.contains(e) && e != last {
                let k = choose|k: int| 0 <= k < found.len() && found[k] == e;
                assert(front[k] == e);
            }
        }
        if last.ssid.len() > 0 {
            let p = stronger_prefix(rest, last);
            lemma_stronger_prefix(rest, last);
            assert forall|i: int, j: int| 0 <= i < j < r.len() implies (#[trigger] r[i]).rssi
                >= (#[trigger] r[j]).rssi by {
                let a = if i < p {
                    i
                } else {
                    i - 1
                };
                let b = if j < p {
                    j
                } else {
                    j - 1
                };
                if i != p {
                    assert(r[i] == rest[a]);
                }
                if j != p {
                    assert(r[j] == rest[b]);
                }
                if i == p && p < b {
                    assert(rest[p].rssi >= rest[b].rssi);
                }
            }
            assert forall|e: ScanView| r.contains(e) <==> (rest.contains(e) || e == last) by {
                assert(r[p] == last);
                if rest.contains(e) {
                    let k = choose|k: int| 0 <= k < rest.len() && rest[k] == e;
                    if k < p {
                        assert(r[k] == e);
                    } else {
                        assert(r[k + 1] == e);
                    }
                }
                if r.contains(e) && e != last {
                    let k = choose|k: int| 0 <= k < r.len() && r[k] == e;
                    if k < p {
                        assert(rest[k] == e);
                    } else {
                        assert(rest[k - 1] == e);
                    }
                }
            }
        }
    }
}

/// Of an ordered list, keeping the first entry for each SSID keeps the order
/// and the strongest entry of each.
proof fn lemma_first_of_each(s: Seq<ScanView>)
    requires
        by_strength(s),
    ensures
        by_strength(first_of_each(s)),
        each_ssid_once(first_of_each(s)),
        forall|e: ScanView| first_of_each(s).contains(e) ==> s.contains(e),
        forall|k: int| 0 <= k < s.len() ==> has_ssid(first_of_each(s), (#[trigger] s[k]).ssid),
        forall|i: int, k: int|
            0 <= i < first_of_each(s).len() && 0 <= k < s.len() && (
            #[trigger] first_of_each(s)[i]).ssid == (#[trigger] s[k]).ssid ==> first_of_each(
                s,
            )[i].rssi >= s[k].rssi,
    decreases s.len(),
{
    if s.len() > 0 {
        let front = s.drop_last();
        let last = s.last();
        let rest = first_of_each(front);
        let r = first_of_each(s);
        assert(by_strength(front)) by {
            assert forall|i: int, j: int| 0 <= i < j < front.len() implies (
            #[trigger] front[i]).rssi >= (#[trigger] front[j]).rssi by {
                assert(s[i].rssi >= s[j].rssi);
            }
        }
        lemma_first_of_each(front);
        assert forall|i: int| 0 <= i < rest.len() implies (#[trigger] rest[i]).rssi
            >= last.rssi by {
            assert(rest.contains(rest[i]));
            assert(front.contains(rest[i]));
            let k = choose|k: int| 0 <= k < front.len() && front[k] == rest[i];
            assert(s[k].rssi >= s[s.len() - 1].rssi);
        }
        assert forall|e: ScanView| r.contains(e) implies s.contains(e) by {
            if e == last {
                assert(s[s.len() - 1] == e);
            } else {
                let k = choose|k: int| 0 <= k < r.len() && r[k] == e;
                assert(rest[k] == e);
                assert(front.contains(e));
                let j = choose|j: int| 0 <= j < front.len() && front[j] == e;
                assert(s[j] == e);
            }
        }
        assert forall|k: int| 0 <= k < s.len() implies has_ssid(r, (#[trigger] s[k]).ssid) by {
            if k < front.len() {
                assert(front[k] == s[k]);
                assert(has_ssid(rest, front[k].ssid));
                let i = choose|i: int| 0 <= i < rest.len() && (#[trigger] rest[i]).ssid
                    == front[k].ssid;
                assert(r[i] == rest[i]);
            } else if !has_ssid(rest, last.ssid) {
                assert(r[rest.len() as int] == last);
            }
        }
        assert forall|i: int, k: int|
            0 <= i < r.len() && 0 <= k < s.len() && (#[trigger] r[i]).ssid == (
            #[trigger] s[k]).ssid implies r[i].rssi >= s[k].rssi by {
            if i < rest.len() {
                assert(r[i] == rest[i]);
                if k < front.len() {
                    assert(front[k] == s[k]);
                }
            } else {
                if k < front.len() {
                    assert(front[k] == s[k]);
                    assert(has_ssid(rest, front[k].ssid));
                }
            }
        }
        assert(each_ssid_once(r)) by {
            assert forall|i: int, j: int| 0 <= i < j < r.len() implies (#[trigger] r[i]).ssid
                != (#[trigger] r[j]).ssid by {
                assert(r[i] == rest[i]);
                if j < rest.len() {
                    assert(r[j] == rest[j]);
                }
            }
        }
    }
}

/// What a scan shows: entries that were found, with a name, the strongest
/// first; each SSID that was found once, with the strongest of its entries.
pub proof fn law_scan_list(found: Seq<ScanView>)
    ensures
        ({
            let shown = first_of_each(strongest_first(found));
            &&& by_strength(shown)
            &&& each_ssid_once(shown)
            &&& forall|e: ScanView|
                shown.contains(e) ==> found.contains(e) && e.ssid.len() > 0
            &&& forall|e: ScanView|
                found.contains(e) && e.ssid.len() > 0 ==> has_ssid(shown, e.ssid)
            &&& forall|i: int, e: ScanView|
                0 <= i < shown.len() && #[trigger] found.contains(e) && (
                #[trigger] shown[i]).ssid == e.ssid ==> shown[i].rssi >= e.rssi
        }),
{
    let sorted = strongest_first(found);
    let shown = first_of_each(sorted);
    lemma_strongest_first(found);
    lemma_first_of_each(sorted);
    assert forall|e: ScanView| shown.contains(e) implies found.contains(e) && e.ssid.len()
        > 0 by {
        assert(sorted.contains(e));
    }
    assert forall|e: ScanView| found.contains(e) && e.ssid.len() > 0 implies has_ssid(
        shown,
        e.ssid,
    ) by {
        assert(sorted.contains(e));
        let k = choose|k: int| 0 <= k < sorted.len() && sorted[k] == e;
        assert(has_ssid(shown, sorted[k].ssid));
    }
    assert forall|i: int, e: ScanView|
        0 <= i < shown.len() && #[trigger] found.contains(e) && (#[trigger] shown[i]).ssid
            == e.ssid implies shown[i].rssi >= e.rssi by {
        assert(shown.contains(shown[i]));
        assert(sorted.contains(shown[i]));
        let d = shown[i];
        assert(sorted.contains(d));
        assert(d.ssid.len() > 0);
        assert(sorted.contains(e));
        let k = choose|k: int| 0 <= k < sorted.len() && sorted[k] == e;
        assert(sorted[k].ssid == shown[i].ssid);
    }
}

// ---------------------------------------------------------------------------
// Bulk downloads.
// ---------------------------------------------------------------------------

/// How many tiles in a row may fail before a bulk download gives up.
pub const MAX_CONSECUTIVE_MISSES: usize = 5;

/// A bulk download of map tiles.
pub struct Download {
    /// The tile that is next.
    pub next: usize,
    /// How many tiles came.
    pub fetched: usize,
    /// How many tiles in a row failed last.
    pub misses: usize,
}

/// The download after the outcomes of its first tiles, in order.
pub open spec fn download_after(outcomes: Seq<bool>) -> (int, int)
    decreases outcomes.len(),
{
    if outcomes.len() == 0 {
        (0, 0)
    } else {
        let (fetched, misses) = download_after(outcomes.drop_last());
        if outcomes.last() {
            (fetched + 1, 0)
        } else {
            (fetched, misses + 1)
        }
    }
}

impl Download {
    /// What the download knows is what its outcomes come to.
    pub open spec fn follows(&self, outcomes: Seq<bool>) -> bool {
        &&& self.next == outcomes.len()
        &&& self.fetched == download_after(outcomes).0
        &&& self.misses == download_after(outcomes).1
    }

    /// No more tiles came and failed than were tried.
    pub open spec fn well_formed(&self) -> bool {
        self.fetched + self.misses <= self.next
    }

    /// Whether another tile is tried, of `total`.
    pub open spec fn goes_on(&self, total: usize, cancelled: bool) -> bool {
        !cancelled && self.misses < MAX_CONSECUTIVE_MISSES && self.next < total
    }

    /// Nothing tried yet.
    pub fn new() -> (r: Self)
        ensures
            r.well_formed(),
            r.follows(seq![]),
    {
        Download { next: 0, fetched: 0, misses: 0 }
    }

    /// The tile to fetch next, unless all were tried, too many in a row
    /// failed, or the download was cancelled.
    pub fn next_tile(&self, total: usize, cancelled: bool) -> (r: Option<usize>)
        ensures
            r is Some <==> self.goes_on(total, cancelled),
            r == if cancelled || self.misses >= MAX_CONSECUTIVE_MISSES || self.next >= total {
                None
            } else {
                Some(self.next)
            },
    {
        if cancelled || self.misses >= MAX_CONSECUTIVE_MISSES || self.next >= total {
            None
        } else {
            Some(self.next)
        }
    }

    /// Notes whether the tile came.
    pub fn record(&mut self, came: bool)
        requires
            old(self).well_formed(),
            old(self).next < usize::MAX,
        ensures
            final(self).well_formed(),
            final(self).next == old(self).next + 1,
            final(self).fetched == if came {
                old(self).fetched + 1
            } else {
                old(self).fetched as int
            },
            final(self).misses == if came {
                0
            } else {
                old(self).misses + 1
            },
            forall|outcomes: Seq<bool>| #[trigger]
                old(self).follows(outcomes) ==> final(self).follows(outcomes.push(came)),
    {
        self.next = self.next + 1;
        if came {
            self.fetched = self.fetched + 1;
            self.misses = 0;
        } else {
            self.misses = self.misses + 1;
        }
        assert forall|outcomes: Seq<bool>| #[trigger]
            old(self).follows(outcomes) implies self.follows(outcomes.push(came)) by {
            assert(outcomes.push(came).drop_last() =~= outcomes);
        }
    }
}

/// A download counts what came: never more than were tried, and no more in a
/// row can have failed than were tried.
pub proof fn law_download_counts(outcomes: Seq<bool>)
    ensures
        0 <= download_after(outcomes).0,
        0 <= download_after(outcomes).1,
        download_after(outcomes).0 + download_after(outcomes).1 <= outcomes.len(),
        forall|k: int|
            outcomes.len() - download_after(outcomes).1 <= k < outcomes.len() ==> !outcomes[k],
    decreases outcomes.len(),
{
    if outcomes.len() > 0 {
        let front = outcomes.drop_last();
        law_download_counts(front);
        assert forall|k: int|
            outcomes.len() - download_after(outcomes).1 <= k < outcomes.len() implies
            !outcomes[k] by {
            if k < front.len() {
                assert(front[k] == outcomes[k]);
            }
        }
    }
}

// ---------------------------------------------------------------------------
// The music page's session.
// ---------------------------------------------------------------------------

/// Bytes of a cover that are buffered at most.
pub const MAX_COVER_BYTES: usize = 524_288;

/// What a music session does next.
#[derive(Clone, Copy, Debug, PartialEq, Eq, Structural)]
pub enum MusicStep {
    /// Send the command and read at most this many bytes back.
    Command(usize),
    /// Wait this many milliseconds for the player to act on the command.
    Settle(u64),
    /// Fetch the state of the player, at most so many bytes.
    Json(usize),
    /// Fetch the cover, at most so many bytes.
    Cover(usize),
    /// Answer the page.
    Finish,
}

/// What a music session does first.
pub fn music_start(command: bool) -> (r: MusicStep)
    ensures
        r == if command {
            MusicStep::Command(256)
        } else {
            MusicStep::Json(8192)
        },
{
    if command {
        MusicStep::Command(256)
    } else {
        MusicStep::Json(8192)
    }
}

/// What a music session does after a step, where `came` says whether it
/// brought anything. A command that failed still lets the display be
/// refreshed; without the state of the player there is nothing to show.
pub fn music_next(step: MusicStep, came: bool) -> (r: MusicStep)
    ensures
        r == music_step_after(step, came),
        r == match step {
            MusicStep::Command(_) => MusicStep::Settle(800),
            MusicStep::Settle(_) => MusicStep::Json(8192),
            MusicStep::Json(_) => if came {
                MusicStep::Cover(MAX_COVER_BYTES)
            } else {
                MusicStep::Finish
            },
            MusicStep::Cover(_) => MusicStep::Finish,
            MusicStep::Finish => MusicStep::Finish,
        },
{
    match step {
        MusicStep::Command(_) => MusicStep::Settle(800),
        MusicStep::Settle(_) => MusicStep::Json(8192),
        MusicStep::Json(_) => if came {
            MusicStep::Cover(MAX_COVER_BYTES)
        } else {
            MusicStep::Finish
        },
        MusicStep::Cover(_) => MusicStep::Finish,
        MusicStep::Finish => MusicStep::Finish,
    }
}

/// The answer of a music session: the state of the player, with the cover
/// where one came.
pub fn music_answer(json: Option<Vec<u8>>, cover: Option<Vec<u8>>) -> (r: Option<MusicSnapshot>)
    ensures
        r == match json {
            Some(json) => Some(MusicSnapshot { json, cover }),
            None => None,
        },
{
    match json {
        Some(json) => Some(MusicSnapshot { json, cover }),
        None => None,
    }
}

// ---------------------------------------------------------------------------
// The time.
// ---------------------------------------------------------------------------

/// Seconds from the beginning of 1900 to that of 1970.
pub const NTP_UNIX_DELTA: u64 = 2_208_988_800;

/// Seconds between settings of the clock.
pub const RESYNC_INTERVAL_SECS: u64 = 14_400;

/// Seconds between tries while the clock was never set.
pub const RETRY_INTERVAL_SECS: u64 = 120;

/// How often the time is asked for in one session.
pub const NTP_QUERIES: u8 = 3;

/// The packet that asks for the time.
pub fn sntp_request() -> (r: [u8; 48])
    ensures
        r@ == Seq::new(48, |i: int| if i == 0 { 0x1bu8 } else { 0u8 }),
{
    let mut request: [u8; 48] = [0u8; 48];
    request[0] = 0x1b;
    assert(request@ =~= Seq::new(48, |i: int| if i == 0 { 0x1bu8 } else { 0u8 }));
    request
}

/// Seconds since 1900 that a reply gives.
pub open spec fn ntp_seconds(response: Seq<u8>) -> int {
    response[40] * 0x1000000 + response[41] * 0x10000 + response[42] * 0x100 + response[43]
}

/// The time that a reply of `n` bytes gives, if it is long enough.
pub open spec fn time_of_reply(response: Seq<u8>, n: int) -> Option<int> {
    if n < 44 {
        None
    } else if ntp_seconds(response) >= NTP_UNIX_DELTA {
        Some(ntp_seconds(response) - NTP_UNIX_DELTA)
    } else {
        Some(0)
    }
}

/// The time that a reply of `n` bytes gives, in seconds since 1970; zero for a
/// time before that.
pub fn sntp_time(response: &[u8; 48], n: usize) -> (r: Option<u64>)
    ensures
        r is Some <==> time_of_reply(response@, n as int) is Some,
        r matches Some(t) ==> time_of_reply(response@, n as int) == Some(t as int),
        r is Some <==> n >= 44,
        r matches Some(t) ==> t == if ntp_seconds(response@) >= NTP_UNIX_DELTA {
            ntp_seconds(response@) - NTP_UNIX_DELTA
        } else {
            0
        },
{
    if n < 44 {
        return None;
    }
    let secs: u64 = response[40] as u64 * 0x1000000 + response[41] as u64 * 0x10000
        + response[42] as u64 * 0x100 + response[43] as u64;
    if secs >= NTP_UNIX_DELTA {
        Some(secs - NTP_UNIX_DELTA)
    } else {
        Some(0)
    }
}

/// What follows a query for the time.
#[derive(Clone, Copy, Debug, PartialEq, Eq, Structural)]
pub enum QueryStep {
    /// Answer with what came.
    Answer(Option<u64>),
    /// Wait this many seconds.
    Wait(u64),
    /// Ask once more.
    Ask,
}

/// What follows a query: an answer where a time came, else a pause.
pub fn after_query(time: Option<u64>) -> (r: QueryStep)
    ensures
        r == if time is Some {
            QueryStep::Answer(time)
        } else {
            QueryStep::Wait(2)
        },
{
    if time.is_some() {
        QueryStep::Answer(time)
    } else {
        QueryStep::Wait(2)
    }
}

/// What follows a pause after `asked` queries.
pub fn after_pause(asked: u8) -> (r: QueryStep)
    ensures
        r == if asked < NTP_QUERIES {
            QueryStep::Ask
        } else {
            QueryStep::Answer(None)
        },
{
    if asked < NTP_QUERIES {
        QueryStep::Ask
    } else {
        QueryStep::Answer(None)
    }
}

/// What the clock is set to for a time in seconds since 1970: microseconds.
pub fn clock_us(utc_unix: u64) -> (r: u64)
    requires
        utc_unix * 1_000_000 <= u64::MAX,
    ensures
        r == utc_unix * 1_000_000,
{
    utc_unix * 1_000_000
}

/// Any time that a reply gives can be set.
pub proof fn law_replies_can_be_set(response: Seq<u8>)
    requires
        response.len() == 48,
    ensures
        0 <= ntp_seconds(response) <= u32::MAX,
        ntp_seconds(response) * 1_000_000 <= u64::MAX,
{
}

/// A port that was written in decimal is the port that is used, every one from
/// 1 to 65535; a number that is no port, and what is no number, give 3009.
pub proof fn law_port_is_used_as_written(n: int, s: Seq<u8>)
    requires
        0 <= n,
    ensures
        1 <= n <= 65535 ==> port_named(encode_utf8(dec(n))) == n,
        n == 0 || n > 65535 ==> port_named(encode_utf8(dec(n))) == 3009,
        s.len() == 0 || !ascii_digits(s) ==> port_named(s) == 3009,
{
    law_written_number_is_read(n);
}

/// The server is reached in the clear at its own address and port, through the
/// funnel at the funnel's address and the port of TLS, and an outside service
/// at its own address and the port of TLS.
pub proof fn law_requests_go_where_they_should(server: Server, host: &'static str, leg: Leg)
    requires
        server.funnel is Some,
    ensures
        target_of(server, Leg::Plain, None).0 == server.host,
        target_of(server, Leg::Plain, None).1 == server.port,
        target_of(server, Leg::Tls, None).0 == server.funnel->0,
        target_of(server, Leg::Tls, None).1 == 443,
        target_of(server, leg, Some(host)).0 == host,
        target_of(server, leg, Some(host)).1 == 443,
        target_of(server, leg, Some(host)).2 is None,
{
}

/// How many tiles came, of those that were tried.
pub open spec fn came(outcomes: Seq<bool>) -> nat {
    outcomes.filter(|o: bool| o).len()
}

/// A download counts every tile that came, and as misses those that did not
/// since the last one that came.
pub proof fn law_every_tile_is_counted(outcomes: Seq<bool>)
    ensures
        ({
            let (fetched, misses) = download_after(outcomes);
            &&& fetched == came(outcomes)
            &&& 0 <= misses <= outcomes.len()
            &&& forall|k: int| outcomes.len() - misses <= k < outcomes.len() ==> !outcomes[k]
            &&& misses < outcomes.len() ==> outcomes[outcomes.len() - misses - 1]
        }),
    decreases outcomes.len(),
{
    reveal(Seq::filter);
    if outcomes.len() > 0 {
        let front = outcomes.drop_last();
        law_every_tile_is_counted(front);
        let misses = download_after(front).1;
        if !outcomes.last() {
            assert forall|k: int| outcomes.len() - (misses + 1) <= k < outcomes.len() implies !outcomes[k] by {
                if k < front.len() {
                    assert(front[k] == outcomes[k]);
                }
            }
            if misses < front.len() {
                assert(front[front.len() - misses - 1] == outcomes[outcomes.len() - (misses + 1) - 1]);
            }
        }
    }
}

/// The seconds of a reply are the number that its four bytes write, the most
/// significant first.
pub proof fn law_seconds_of_a_reply(response: Seq<u8>, n: int)
    requires
        response.len() == 48,
        0 <= n < 0x1_0000_0000,
        response[40] == n / 16777216,
        response[41] == (n / 65536) % 256,
        response[42] == (n / 256) % 256,
        response[43] == n % 256,
    ensures
        ntp_seconds(response) == n,
{
}

/// The seconds that replies count begin in 1900 and those of the clock in 1970:
/// between the two lie the days from the one year to the other.
pub proof fn law_epochs_are_seventy_years_apart()
    ensures
        NTP_UNIX_DELTA == 86_400 * (day_number(1970, 1, 1) - day_number(1900, 1, 1)),
{
    assert(day_number(1970, 1, 1) - day_number(1900, 1, 1) == 25567);
}

/// A download goes on with the next tile until every tile was tried, or it is
/// called off, or five tiles in a row did not come.
pub proof fn law_download_gives_up_after_five(
    d: Download,
    outcomes: Seq<bool>,
    total: usize,
    cancelled: bool,
)
    requires
        d.follows(outcomes),
        outcomes.len() <= total,
    ensures
        ({
            let n = outcomes.len() as int;
            let five = n >= 5 && !outcomes[n - 1] && !outcomes[n - 2] && !outcomes[n - 3]
                && !outcomes[n - 4] && !outcomes[n - 5];
            d.goes_on(total, cancelled) <==> !cancelled && n < total && !five
        }),
{
    law_every_tile_is_counted(outcomes);
    let n = outcomes.len() as int;
    let misses = download_after(outcomes).1;
    if misses < 5 && misses < n {
        assert(outcomes[n - misses - 1]);
    }
}

/// The time that a server sent is the time that is set: the seconds since 1970
/// from the four bytes of a reply, unless the reply was cut short.
pub proof fn law_time_is_read_from_the_reply(response: Seq<u8>, t: int, n: int)
    requires
        response.len() == 48,
        0 <= t < 0x1_0000_0000 - 2_208_988_800,
        response[40] == (t + 2_208_988_800) / 16777216,
        response[41] == ((t + 2_208_988_800) / 65536) % 256,
        response[42] == ((t + 2_208_988_800) / 256) % 256,
        response[43] == (t + 2_208_988_800) % 256,
    ensures
        n >= 44 ==> time_of_reply(response, n) == Some(t),
        n < 44 ==> time_of_reply(response, n) is None,
{
    law_seconds_of_a_reply(response, t + 2_208_988_800);
}

/// What was found is looked at whole: every network with its name, its signal
/// and whether it needs a passphrase.
pub proof fn law_found_networks_are_whole(entries: Seq<ScanEntry>)
    ensures
        scan_views(entries).len() == entries.len(),
        forall|i: int|
            0 <= i < entries.len() ==> #[trigger] scan_views(entries)[i] == (ScanView {
                ssid: entries[i].ssid@,
                rssi: entries[i].rssi,
                secured: entries[i].secured,
            }),
{
}

/// Networks of the same strength stay in the order in which they were found.
pub proof fn law_order_found_is_kept(found: Seq<ScanView>, rssi: i8)
    ensures
        strongest_first(found).filter(|e: ScanView| e.rssi == rssi) == found.filter(
            |e: ScanView| e.rssi == rssi && e.ssid.len() > 0,
        ),
    decreases found.len(),
{
    let level = |e: ScanView| e.rssi == rssi;
    let named = |e: ScanView| e.rssi == rssi && e.ssid.len() > 0;
    reveal(Seq::filter);
    if found.len() > 0 {
        let front = found.drop_last();
        let e = found.last();
        law_order_found_is_kept(front, rssi);
        let rest = strongest_first(front);
        if e.ssid.len() > 0 {
            lemma_strongest_first(front);
            lemma_stronger_prefix(rest, e);
            let k = stronger_prefix(rest, e);
            let head = rest.take(k);
            let tail = rest.skip(k);
            assert(rest =~= head + tail);
            assert(rest.insert(k, e) =~= head + (seq![e] + tail));
            Seq::filter_distributes_over_add(head, tail, level);
            Seq::filter_distributes_over_add(head, seq![e] + tail, level);
            Seq::filter_distributes_over_add(seq![e], tail, level);
            lemma_filter_one(e, level);
            if e.rssi == rssi {
                assert forall|i: int| 0 <= i < tail.len() implies !level(#[trigger] tail[i]) by {
                    assert(tail[i] == rest[k + i]);
                    assert(rest[k].rssi >= rest[k + i].rssi);
                }
                lemma_filter_none(tail, level);
                assert(rest.insert(k, e).filter(level) =~= rest.filter(level).push(e));
            } else {
                assert(rest.insert(k, e).filter(level) =~= rest.filter(level));
            }
        }
    }
}

/// Of one element, a filter keeps it or nothing.
proof fn lemma_filter_one(e: ScanView, keep: spec_fn(ScanView) -> bool)
    ensures
        seq![e].filter(keep) == if keep(e) {
            seq![e]
        } else {
            seq![]
        },
{
    reveal(Seq::filter);
    assert(seq![e].drop_last() =~= Seq::<ScanView>::empty());
    assert(seq![e].drop_last().filter(keep) =~= Seq::<ScanView>::empty());
}

/// A filter that nothing passes keeps nothing.
proof fn lemma_filter_none(s: Seq<ScanView>, keep: spec_fn(ScanView) -> bool)
    requires
        forall|i: int| 0 <= i < s.len() ==> !keep(#[trigger] s[i]),
    ensures
        s.filter(keep) == Seq::<ScanView>::empty(),
    decreases s.len(),
{
    reveal(Seq::filter);
    if s.len() > 0 {
        let front = s.drop_last();
        assert forall|i: int| 0 <= i < front.len() implies !keep(#[trigger] front[i]) by {
            assert(front[i] == s[i]);
        }
        lemma_filter_none(front, keep);
        assert(!keep(s[s.len() - 1]));
    }
}

/// The link after a request was handed over.
pub open spec fn with_request(link: Link, req: Request) -> Link {
    if link.request is None {
        Link { request: Some(req), ..link }
    } else {
        link
    }
}

/// The request that is taken from a link, and the link without it.
pub open spec fn request_taken(link: Link) -> (Option<Request>, Link) {
    match link.request {
        Some(req) => (Some(req), Link { request: None, cancelled: false, ..link }),
        None => (None, link),
    }
}

/// A request that was handed over is the one that is taken, once. A second one
/// does not replace it. One that is taken is not called off, whatever was
/// called off before.
pub proof fn law_requests_are_taken_once(link: Link, req: Request, other: Request)
    ensures
        link.request is None ==> {
            let handed = with_request(link, req);
            let (taken, left) = request_taken(handed);
            &&& with_request(handed, other) == handed
            &&& taken == Some(req)
            &&& left.request is None
            &&& !left.cancelled
            &&& left.event == link.event
            &&& left.path == link.path
            &&& request_taken(left) == (None::<Request>, left)
        },
{
}

/// What follows an attempt to connect.
pub open spec fn connect_step(attempt: u8, ok: bool) -> ConnectStep {
    if ok {
        ConnectStep::Connected
    } else if attempt < CONNECT_ATTEMPTS {
        ConnectStep::RetryAfter(2)
    } else {
        ConnectStep::GiveUp
    }
}

/// A network is tried four times, two seconds apart.
pub proof fn law_four_attempts_to_connect(attempt: u8, ok: bool)
    ensures
        connect_step(attempt, true) == ConnectStep::Connected,
        connect_step(attempt, false) == ConnectStep::GiveUp <==> attempt >= 4,
        attempt < 4 ==> connect_step(attempt, false) == ConnectStep::RetryAfter(2),
{
}

/// What a music session does after a step.
pub open spec fn music_step_after(step: MusicStep, came: bool) -> MusicStep {
    match step {
        MusicStep::Command(_) => MusicStep::Settle(800),
        MusicStep::Settle(_) => MusicStep::Json(8192),
        MusicStep::Json(_) => if came {
            MusicStep::Cover(MAX_COVER_BYTES)
        } else {
            MusicStep::Finish
        },
        MusicStep::Cover(_) => MusicStep::Finish,
        MusicStep::Finish => MusicStep::Finish,
    }
}

/// A music session that sends a command lets the player act on it, then asks for
/// its state whether or not the command came through; the cover is fetched only
/// where the state came.
pub proof fn law_music_session_in_order(room: usize, pause: u64, came: bool)
    ensures
        music_step_after(MusicStep::Command(room), came) == MusicStep::Settle(800),
        music_step_after(MusicStep::Settle(pause), came) == MusicStep::Json(8192),
        music_step_after(MusicStep::Json(room), true) == MusicStep::Cover(524_288),
        music_step_after(MusicStep::Json(room), false) == MusicStep::Finish,
        music_step_after(MusicStep::Cover(room), came) == MusicStep::Finish,
        music_step_after(MusicStep::Finish, came) == MusicStep::Finish,
{
}

/// The event that ends a session is of its own kind, and of no other.
pub proof fn law_sessions_end_with_their_answer(op: Op, event: Event)
    requires
        ends(op, event),
    ensures
        event is TimeSynced <==> op is SyncTime,
        event is ScanDone <==> op is Scan,
        event is JoinDone <==> op is Join,
        event is GotBody <==> op is Get,
        event is MusicDone <==> op is Music,
        event is DownloadDone <==> op is DownloadMaps,
        !(event is Tile),
{
}

} // verus!
