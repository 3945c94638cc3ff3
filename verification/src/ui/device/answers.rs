//! What the answers of the wireless task and the card change.
use vstd::prelude::*;
use vstd::string::*;

use super::Device;
use crate::pages::environment::EnvironmentView;
use crate::pages::weather::WeatherView;
use crate::settings::{used_most_recently, SettingsView};
use crate::settings::networks::NetworkView;
use crate::state::Remote;
use crate::ui::clock::{redraw_for_sync, ClockSync};
use crate::ui::fetch::{on_environment, on_weather};
use crate::ui::lora_page::{after_message, known};
use crate::ui::nav::{Nav, Screen};
use crate::ui::wifi_page::{join_failed, scan_status, Keys, WifiPageView};
use crate::wifi::{scan_views, Link, ScanEntry, ServerPath, RESYNC_INTERVAL_SECS, RETRY_INTERVAL_SECS};

verus! {

impl Device {
    /// A session that set the clock has ended, where `now_secs` is the time
    /// afterwards. A check that the user asked for says how it ended.
    pub fn on_time(&mut self, set: bool, check: bool, now_secs: u64)
        requires
            old(self).well_formed(),
        ensures
            final(self).well_formed(),
            final(self).clock.synced == (old(self).clock.synced || set),
            final(self).clock.last_resync_secs == now_secs,
            final(self).clock.retry_secs == if set {
                RETRY_INTERVAL_SECS as int
            } else if 2 * old(self).clock.retry_secs <= RESYNC_INTERVAL_SECS {
                2 * old(self).clock.retry_secs
            } else {
                RESYNC_INTERVAL_SECS as int
            },
            final(self).wifi@ == if check {
                old(self).wifi@.saying(
                    if set {
                        "internet ok - clock synced"@
                    } else {
                        "check failed - no internet?"@
                    },
                )
            } else {
                old(self).wifi@
            },
            final(self).nav == (Nav {
                needs_redraw: old(self).nav.needs_redraw || set || (check && old(self).nav.screen
                    == Screen::SettingsWifi),
                ..old(self).nav
            }),
            *final(self) == (Device {
                clock: final(self).clock,
                wifi: final(self).wifi,
                nav: final(self).nav,
                ..*old(self)
            }),
    {
        self.clock.on_time_synced(set, now_secs);
        if check {
            self.wifi.on_checked(set);
        }
        redraw_for_sync(&mut self.nav, set, check);
    }

    /// A scan has ended.
    pub fn on_scan(&mut self, found: Option<Vec<ScanEntry>>)
        ensures
            final(self).wifi@ == (WifiPageView {
                status: scan_status(
                    match found {
                        Some(nets) => Some(scan_views(nets@)),
                        None => None,
                    },
                ),
                networks: match found {
                    Some(nets) => scan_views(nets@),
                    None => old(self).wifi@.networks,
                },
                ..old(self).wifi@
            }),
            final(self).nav == old(self).nav.repainted_on(Screen::SettingsWifi),
            *final(self) == (Device {
                wifi: final(self).wifi,
                nav: final(self).nav,
                ..*old(self)
            }),
            old(self).well_formed() ==> final(self).well_formed(),
    {
        self.wifi.on_scan_done(found);
        self.repaint_on(Screen::SettingsWifi);
    }

    /// A join has ended. A network that was joined is remembered, and neither
    /// the failures before it nor the way to the server count any more.
    pub fn on_join(&mut self, ok: bool, reconnect: bool, link: &mut Link)
        requires
            old(self).well_formed(),
        ensures
            final(self).well_formed(),
            ok ==> {
                let p = old(self).wifi@;
                &&& final(self).wifi@ == p.saying("connected: "@ + p.ssid)
                &&& final(self).keys == old(self).keys
                &&& final(self).settings_dirty
                &&& final(self).settings@.table() == used_most_recently(
                    old(self).settings@.table(),
                    p.ssid,
                    NetworkView::remembering(p.ssid, p.password),
                )
                &&& final(self).settings@ == (SettingsView {
                    networks: final(self).settings@.networks,
                    count: final(self).settings@.count,
                    ..old(self).settings@
                })
                &&& final(self).clock == (ClockSync {
                    retry_secs: RETRY_INTERVAL_SECS,
                    ..old(self).clock
                })
                &&& *final(link) == (Link { path: ServerPath::Unknown, ..*old(link) })
            },
            !ok ==> {
                &&& final(self).wifi@ == join_failed(old(self).wifi@, reconnect)
                &&& final(self).keys == if old(self).wifi@.password.len() > 0 {
                    Keys { symbols: false, shift: false }
                } else {
                    old(self).keys
                }
                &&& final(self).settings_dirty == old(self).settings_dirty
                &&& final(self).settings == old(self).settings
                &&& final(self).clock == old(self).clock
                &&& *final(link) == *old(link)
            },
            final(self).nav == old(self).nav.repainted_on(Screen::SettingsWifi),
            *final(self) == (Device {
                wifi: final(self).wifi,
                keys: final(self).keys,
                settings: final(self).settings,
                settings_dirty: final(self).settings_dirty,
                clock: final(self).clock,
                nav: final(self).nav,
                ..*old(self)
            }),
    {
        self.wifi.on_join_done(
            ok,
            reconnect,
            &mut self.settings,
            &mut self.settings_dirty,
            &mut self.keys,
        );
        if ok {
            self.clock.on_joined();
            link.reset_server_path();
        }
        self.repaint_on(Screen::SettingsWifi);
    }

    /// Readings came, or could not be had.
    pub fn on_environment(&mut self, view: Option<EnvironmentView>)
        ensures
            *final(self) == (Device {
                environment: Remote {
                    view: match view {
                        Some(v) => v,
                        None => EnvironmentView::Error,
                    },
                    dirty: old(self).environment.dirty,
                },
                nav: old(self).nav.repainted_on(Screen::Environment),
                ..*old(self)
            }),
    {
        on_environment(&mut self.environment, view, &mut self.nav);
    }

    /// A forecast came, or could not be had.
    pub fn on_weather(&mut self, view: Option<WeatherView>)
        requires
            view matches Some(WeatherView::Ready(w)) ==> w.daily.complete(),
        ensures
            *final(self) == (Device {
                weather: Remote {
                    view: match view {
                        Some(v) => v,
                        None => WeatherView::Error,
                    },
                    dirty: old(self).weather.dirty,
                },
                nav: old(self).nav.repainted_on(Screen::Weather),
                ..*old(self)
            }),
            old(self).well_formed() ==> final(self).well_formed(),
    {
        on_weather(&mut self.weather, view, &mut self.nav);
    }

    /// A message of `bytes` bytes came over the radio. One that is replayed is
    /// not shown again. Says whether it is new.
    pub fn on_message(
        &mut self,
        key: u64,
        stamp: &str,
        text: &str,
        bytes: usize,
        rssi: i16,
    ) -> (r: bool)
        requires
            old(self).well_formed(),
        ensures
            final(self).well_formed(),
            r == !known(old(self).lora@, key),
            final(self).lora@ == after_message(
                old(self).lora@,
                key,
                stamp@,
                text@,
                bytes as int,
                rssi as int,
            ),
            *final(self) == (Device { lora: final(self).lora, ..*old(self) }),
    {
        self.lora.on_message(key, stamp, text, bytes, rssi)
    }

    /// Paints the screen that is up where it is the one that is meant.
    fn repaint_on(&mut self, screen: Screen)
        ensures
            *final(self) == (Device {
                nav: old(self).nav.repainted_on(screen),
                ..*old(self)
            }),
    {
        if self.nav.screen == screen {
            self.nav.needs_redraw = true;
        }
    }
}

} // verus!
