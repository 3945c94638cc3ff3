//! The pages that are fetched whole: the environment and the weather.
use vstd::prelude::*;
use vstd::string::*;

use super::nav::{Nav, Screen};
use super::pending::{in_step, saved_request, used_password, used_ssid, Pending};
use crate::pages::environment::{self, EnvironmentView};
use crate::pages::weather::{self, WeatherView};
use crate::settings::Settings;
use crate::state::Remote;
use crate::text::own;
use crate::wifi::{Host, Link, Op};

verus! {

/// Bytes of readings that are buffered at most.
pub const READINGS_MAX_BYTES: usize = 8192;

/// Bytes of a forecast that are buffered at most.
pub const FORECAST_MAX_BYTES: usize = 16_384;

/// Whether a link differs from another only in a fetch that waits.
pub open spec fn asked_for(
    link: Link,
    before: Link,
    settings: Settings,
    host: Host,
    path: Seq<char>,
    max_body: usize,
) -> bool {
    &&& link.request matches Some(r) && {
        &&& r.ssid@ == used_ssid(settings@)
        &&& r.password@ == used_password(settings@)
        &&& r.op matches Op::Get { host: h, path: p, max_body: m } && h == host && p@ == path && m
            == max_body
    }
    &&& link == (Link { request: link.request, ..before })
}

/// Asks for readings where the environment page wants them, is painted, and no
/// session runs.
pub fn request_environment(
    page: &mut Remote<EnvironmentView>,
    nav: Nav,
    settings: &Settings,
    pending: &mut Option<Pending>,
    link: &mut Link,
)
    ensures
        ({
            let sent = nav.screen == Screen::Environment && old(page).dirty && !nav.needs_redraw
                && *old(pending) is None && old(link).request is None;
            &&& sent == fetch_due(
                nav,
                Screen::Environment,
                old(page).dirty,
                *old(pending) is Some,
                old(link).request is Some,
            )
            &&& final(page).view == old(page).view
            &&& final(page).dirty == (old(page).dirty && !sent)
            &&& sent ==> *final(pending) == Some(Pending::Environment) && asked_for(
                *final(link),
                *old(link),
                *settings,
                Host::Server,
                "/api/sensors"@,
                READINGS_MAX_BYTES,
            )
            &&& !sent ==> *final(pending) == *old(pending) && *final(link) == *old(link)
        }),
        in_step(*old(pending), *old(link)) ==> in_step(*final(pending), *final(link)),
{
    if nav.screen == Screen::Environment && page.is_dirty() && !nav.needs_redraw
        && pending.is_none() {
        let op: Op = Op::Get {
            host: Host::Server,
            path: own(environment::path()),
            max_body: READINGS_MAX_BYTES,
        };
        if link.send(saved_request(settings, op)) {
            page.clear();
            *pending = Some(Pending::Environment);
        }
    }
}

/// Takes readings, where they came and could be decoded.
pub fn on_environment(
    page: &mut Remote<EnvironmentView>,
    view: Option<EnvironmentView>,
    nav: &mut Nav,
)
    ensures
        final(page).dirty == old(page).dirty,
        final(page).view == match view {
            Some(v) => v,
            None => EnvironmentView::Error,
        },
        *final(nav) == (Nav {
            needs_redraw: old(nav).needs_redraw || old(nav).screen == Screen::Environment,
            ..*old(nav)
        }),
{
    page.view = match view {
        Some(v) => v,
        None => EnvironmentView::Error,
    };
    if nav.screen == Screen::Environment {
        nav.needs_redraw = true;
    }
}

/// Asks for a forecast where the weather page wants one, is painted, and no
/// session runs; `position` is where the device is, with four digits behind
/// the point. Without a position there is nothing to ask for.
pub fn request_weather(
    page: &mut Remote<WeatherView>,
    position: Option<(&str, &str)>,
    nav: &mut Nav,
    settings: &Settings,
    pending: &mut Option<Pending>,
    link: &mut Link,
)
    ensures
        ({
            let wanted = old(nav).screen == Screen::Weather && old(page).dirty && !old(
                nav,
            ).needs_redraw;
            let sent = wanted && position is Some && *old(pending) is None && old(
                link,
            ).request is None;
            let lost = wanted && position is None;
            &&& sent == (position is Some && fetch_due(
                *old(nav),
                Screen::Weather,
                old(page).dirty,
                *old(pending) is Some,
                old(link).request is Some,
            ))
            &&& final(page).dirty == (old(page).dirty && !sent && !lost)
            &&& final(page).view == if lost {
                WeatherView::NoFix
            } else {
                old(page).view
            }
            &&& *final(nav) == (Nav {
                needs_redraw: old(nav).needs_redraw || lost,
                ..*old(nav)
            })
            &&& sent ==> *final(pending) == Some(Pending::Weather) && asked_for(
                *final(link),
                *old(link),
                *settings,
                Host::External(weather::HOST),
                weather::forecast_path((position->0).0@, (position->0).1@),
                FORECAST_MAX_BYTES,
            )
            &&& !sent ==> *final(pending) == *old(pending) && *final(link) == *old(link)
        }),
        in_step(*old(pending), *old(link)) ==> in_step(*final(pending), *final(link)),
{
    if nav.screen == Screen::Weather && page.is_dirty() && !nav.needs_redraw {
        match position {
            Some((lat, lon)) => {
                if pending.is_none() {
                    let op: Op = Op::Get {
                        host: Host::External(weather::HOST),
                        path: weather::path(lat, lon),
                        max_body: FORECAST_MAX_BYTES,
                    };
                    if link.send(saved_request(settings, op)) {
                        page.clear();
                        *pending = Some(Pending::Weather);
                    }
                }
            },
            None => {
                page.clear();
                page.view = WeatherView::NoFix;
                nav.needs_redraw = true;
            },
        }
    }
}

/// Takes a forecast, where it came and could be decoded.
pub fn on_weather(page: &mut Remote<WeatherView>, view: Option<WeatherView>, nav: &mut Nav)
    ensures
        final(page).dirty == old(page).dirty,
        final(page).view == match view {
            Some(v) => v,
            None => WeatherView::Error,
        },
        *final(nav) == (Nav {
            needs_redraw: old(nav).needs_redraw || old(nav).screen == Screen::Weather,
            ..*old(nav)
        }),
{
    page.view = match view {
        Some(v) => v,
        None => WeatherView::Error,
    };
    if nav.screen == Screen::Weather {
        nav.needs_redraw = true;
    }
}

/// A touch of a page that is fetched whole: on the back button it leads home,
/// anywhere else the page is fetched anew. Says whether it is.
pub fn touch_fetched(nav: &mut Nav, back: bool) -> (r: bool)
    ensures
        r == !back,
        *final(nav) == (Nav {
            screen: if back {
                Screen::Home
            } else {
                old(nav).screen
            },
            needs_redraw: true,
        }),
{
    if back {
        nav.go(Screen::Home);
        false
    } else {
        nav.needs_redraw = true;
        true
    }
}

/// What is asked for is what goes out: the path, whole, of the host, with the
/// room that there is for the answer, over the network that was used last.
/// Nothing else of the link changes.
pub proof fn law_what_is_asked_for_goes_out(
    link: Link,
    before: Link,
    settings: Settings,
    host: Host,
    path: Seq<char>,
    max_body: usize,
)
    requires
        asked_for(link, before, settings, host, path, max_body),
    ensures
        link.request is Some,
        ({
            let r = link.request->0;
            &&& r.ssid@ == used_ssid(settings@)
            &&& r.password@ == used_password(settings@)
            &&& r.op is Get
            &&& r.op->Get_host == host
            &&& r.op->Get_path@ == path
            &&& r.op->Get_max_body == max_body
        }),
        link.event == before.event,
        link.cancelled == before.cancelled,
        link.path == before.path,
{
}

/// Whether a page fetches what it has to show, given whether it is to be
/// fetched, whether an answer is waited for and whether a request is on its
/// way.
pub open spec fn fetch_due(
    nav: Nav,
    screen: Screen,
    dirty: bool,
    waiting: bool,
    busy: bool,
) -> bool {
    &&& nav.screen == screen
    &&& dirty
    &&& !nav.needs_redraw
    &&& !waiting
    &&& !busy
}

/// A page fetches what it has to show once it is up and painted, when nothing
/// else is being fetched; and what was fetched is not fetched again.
pub proof fn law_pages_fetch_when_up(nav: Nav, screen: Screen, dirty: bool, waiting: bool, busy: bool)
    ensures
        fetch_due(Nav { screen, needs_redraw: false }, screen, true, false, false),
        nav.screen != screen ==> !fetch_due(nav, screen, dirty, waiting, busy),
        !fetch_due(nav, screen, false, waiting, busy),
        !fetch_due(Nav { screen, needs_redraw: true }, screen, dirty, waiting, busy),
        !fetch_due(nav, screen, dirty, true, busy),
        !fetch_due(nav, screen, dirty, waiting, true),
{
}

} // verus!
