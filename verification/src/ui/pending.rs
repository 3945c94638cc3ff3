//! What the user interface waits for of the wireless task.
use vstd::prelude::*;
use vstd::string::*;

use crate::settings::{Settings, SettingsView};
use crate::text::own;
use crate::wifi::{Event, Link, Op, Request};

verus! {

/// A command for the player: where it is posted, and what of the page it
/// changes.
#[derive(Clone, Copy)]
pub struct MusicCommand {
    pub path: &'static str,
    pub changes_art: bool,
    pub changes_display: bool,
}

/// The session that the user interface waits for, so that its answer reaches
/// the page it is for. While there is one, no other is asked for.
#[derive(Clone, Copy)]
pub enum Pending {
    Resync,
    /// A setting of the clock that the user asked for, to see whether the
    /// internet is reached.
    SyncCheck,
    Scan,
    Join { reconnect: bool },
    Music { inline: bool, command: Option<MusicCommand> },
    Environment,
    Weather,
    MapTile { key: u32, dx: i32, dy: i32 },
    MapArea { total: usize, done: usize },
}

/// The SSID that is used.
pub open spec fn used_ssid(s: SettingsView) -> Seq<char> {
    if s.count == 0 {
        seq![]
    } else {
        s.networks[0].ssid_text()
    }
}

/// The passphrase that is used.
pub open spec fn used_password(s: SettingsView) -> Seq<char> {
    if s.count == 0 {
        seq![]
    } else {
        s.networks[0].password_text()
    }
}

/// A session on the network that is used.
pub fn saved_request(settings: &Settings, op: Op) -> (r: Request)
    ensures
        r.ssid@ == used_ssid(settings@),
        r.password@ == used_password(settings@),
        r.op == op,
{
    Request { ssid: own(settings.wifi_ssid()), password: own(settings.wifi_password()), op }
}

/// No request waits for the task unless the user interface waits for its
/// answer.
pub open spec fn in_step(pending: Option<Pending>, link: Link) -> bool {
    pending is None ==> link.request is None
}

/// Where an answer of the task goes.
#[derive(Clone, Copy)]
pub enum Route {
    /// The clock; whether the user asked for a check.
    Time { check: bool },
    Scan,
    Join { reconnect: bool },
    Music { inline: bool, command: Option<MusicCommand> },
    Environment,
    Weather,
    MapTile { key: u32, dx: i32, dy: i32 },
    /// One cell of an area: how many came with it, and of how many.
    AreaTile { total: usize, done: usize },
    /// The end of the saving of an area.
    AreaDone { total: usize },
    /// Nobody waits for it.
    Dropped,
}

/// Where an answer goes, given what is waited for.
pub open spec fn route_of(event: Event, pending: Option<Pending>) -> Route {
    match event {
        Event::TimeSynced(_) => Route::Time { check: pending == Some(Pending::SyncCheck) },
        Event::ScanDone(_) => Route::Scan,
        Event::JoinDone(_) => Route::Join {
            reconnect: pending == Some(Pending::Join { reconnect: true }),
        },
        Event::MusicDone(_) => match pending {
            Some(Pending::Music { inline, command }) => Route::Music { inline, command },
            _ => Route::Music { inline: false, command: None },
        },
        Event::GotBody(_) => match pending {
            Some(Pending::Environment) => Route::Environment,
            Some(Pending::Weather) => Route::Weather,
            Some(Pending::MapTile { key, dx, dy }) => Route::MapTile { key, dx, dy },
            _ => Route::Dropped,
        },
        Event::Tile { .. } => match pending {
            Some(Pending::MapArea { total, done }) => Route::AreaTile {
                total,
                done: (done + 1) as usize,
            },
            _ => Route::Dropped,
        },
        Event::DownloadDone { .. } => match pending {
            Some(Pending::MapArea { total, .. }) => Route::AreaDone { total },
            _ => Route::Dropped,
        },
    }
}

/// What is waited for after an answer: nothing, except that one cell of an area
/// is not its end.
pub open spec fn pending_after(event: Event, pending: Option<Pending>) -> Option<Pending> {
    match (event, pending) {
        (Event::Tile { .. }, Some(Pending::MapArea { total, done })) => Some(
            Pending::MapArea { total, done: (done + 1) as usize },
        ),
        _ => None,
    }
}

/// Takes an answer of the task: says where it goes, and notes that it came.
pub fn route(event: &Event, pending: &mut Option<Pending>) -> (r: Route)
    requires
        *old(pending) matches Some(Pending::MapArea { done, .. }) ==> done < usize::MAX,
    ensures
        r == route_of(*event, *old(pending)),
        *final(pending) == pending_after(*event, *old(pending)),
{
    let waited: Option<Pending> = pending.take();
    match event {
        Event::TimeSynced(_) => Route::Time {
            check: match waited {
                Some(Pending::SyncCheck) => true,
                _ => false,
            },
        },
        Event::ScanDone(_) => Route::Scan,
        Event::JoinDone(_) => Route::Join {
            reconnect: match waited {
                Some(Pending::Join { reconnect }) => reconnect,
                _ => false,
            },
        },
        Event::MusicDone(_) => match waited {
            Some(Pending::Music { inline, command }) => Route::Music { inline, command },
            _ => Route::Music { inline: false, command: None },
        },
        Event::GotBody(_) => match waited {
            Some(Pending::Environment) => Route::Environment,
            Some(Pending::Weather) => Route::Weather,
            Some(Pending::MapTile { key, dx, dy }) => Route::MapTile { key, dx, dy },
            _ => Route::Dropped,
        },
        Event::Tile { .. } => match waited {
            Some(Pending::MapArea { total, done }) => {
                *pending = Some(Pending::MapArea { total, done: done + 1 });
                Route::AreaTile { total, done: done + 1 }
            },
            _ => Route::Dropped,
        },
        Event::DownloadDone { .. } => match waited {
            Some(Pending::MapArea { total, .. }) => Route::AreaDone { total },
            _ => Route::Dropped,
        },
    }
}

/// What is waited for when a session ends the way its kind ends: it is over,
/// whatever its outcome, so that the next one can be asked for.
pub proof fn law_session_end_frees_the_task(event: Event, pending: Option<Pending>)
    requires
        !(event is Tile),
    ensures
        pending_after(event, pending) is None,
{
}

/// The answer to a session reaches the page that asked for it.
pub proof fn law_answers_reach_their_page(body: Option<Vec<u8>>, key: u32, dx: i32, dy: i32)
    ensures
        route_of(Event::GotBody(body), Some(Pending::Environment)) == Route::Environment,
        route_of(Event::GotBody(body), Some(Pending::Weather)) == Route::Weather,
        route_of(Event::GotBody(body), Some(Pending::MapTile { key, dx, dy }))
            == (Route::MapTile { key, dx, dy }),
        forall|p: Option<Pending>|
            #[trigger] route_of(Event::GotBody(body), p) == Route::Environment ==> p == Some(
                Pending::Environment,
            ),
        forall|p: Option<Pending>|
            #[trigger] route_of(Event::GotBody(body), p) == Route::Weather ==> p == Some(
                Pending::Weather,
            ),
{
}

/// Every answer goes to what waits for it: the clock, the scan and the join by
/// themselves, music with what was asked of it, the cells of an area one by one
/// and then the end of it. An area counts every cell that comes and stays
/// waited for until it ends.
pub proof fn law_every_answer_has_its_place(
    event: Event,
    pending: Option<Pending>,
    inline: bool,
    command: Option<MusicCommand>,
    total: usize,
    done: usize,
)
    requires
        done < usize::MAX,
    ensures
        event is TimeSynced ==> route_of(event, pending) == (Route::Time {
            check: pending == Some(Pending::SyncCheck),
        }),
        event is ScanDone ==> route_of(event, pending) == Route::Scan,
        event is JoinDone ==> route_of(event, Some(Pending::Join { reconnect: true })) == (
        Route::Join { reconnect: true }),
        event is JoinDone ==> route_of(event, Some(Pending::Join { reconnect: false })) == (
        Route::Join { reconnect: false }),
        event is MusicDone ==> route_of(event, Some(Pending::Music { inline, command })) == (
        Route::Music { inline, command }),
        event is Tile ==> {
            let after = pending_after(event, Some(Pending::MapArea { total, done }));
            &&& route_of(event, Some(Pending::MapArea { total, done })) matches Route::AreaTile {
                total: t,
                done: d,
            } && t == total && d == done + 1
            &&& after matches Some(Pending::MapArea { total: t, done: d }) && t == total && d
                == done + 1
        },
        event is DownloadDone ==> route_of(event, Some(Pending::MapArea { total, done })) == (
        Route::AreaDone { total }),
        (event is Tile || event is DownloadDone) && !(pending is Some && pending->0 is MapArea)
            ==> route_of(event, pending) == Route::Dropped,
        event is GotBody && (pending is None || !(pending->0 is Environment || pending->0
            is Weather || pending->0 is MapTile)) ==> route_of(event, pending) == Route::Dropped,
{
}

/// Requests go out with the network that was used last; without one, with
/// nothing.
pub proof fn law_last_network_is_used(s: SettingsView)
    ensures
        s.count > 0 ==> used_ssid(s) == s.networks[0].ssid_text() && used_password(s)
            == s.networks[0].password_text(),
        s.count == 0 ==> used_ssid(s).len() == 0 && used_password(s).len() == 0,
{
}

} // verus!
