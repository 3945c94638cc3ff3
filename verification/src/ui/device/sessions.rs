//! The sessions that the pages ask for.
use vstd::prelude::*;
use vstd::string::*;

use super::Device;
use crate::pages::weather::{self, WeatherView};
use crate::state::Remote;
use crate::ui::fetch::{
    asked_for, request_environment, request_weather, FORECAST_MAX_BYTES, READINGS_MAX_BYTES,
};
use crate::ui::music_page::MusicPage;
use crate::ui::nav::{Nav, Screen};
use crate::ui::pending::{in_step, used_password, used_ssid, Pending};
use crate::ui::wifi_page::{asked, WifiPageView};
use crate::wifi::{Host, Link, Op};

verus! {

impl Device {
    /// Whether the screen is painted and no session runs, so that one can be
    /// asked for.
    pub open spec fn free(&self) -> bool {
        !self.nav.needs_redraw && self.pending is None
    }

    /// Asks for the session that the page which is up wants; `position` is
    /// where the device is, with four digits behind the point. No other page
    /// asks for anything.
    pub fn request(&mut self, position: Option<(&str, &str)>, link: &mut Link)
        ensures
            old(self).well_formed() ==> final(self).well_formed(),
            in_step(old(self).pending, *old(link)) ==> in_step(final(self).pending, *final(link)),
            ({
                let o = *old(self);
                let f = *final(self);
                let room = o.free() && old(link).request is None;
                match o.nav.screen {
                    Screen::Music => {
                        let wanted = o.free() && o.music.remote.dirty;
                        &&& f == (Device { music: f.music, pending: f.pending, ..o })
                        &&& f.music == if wanted {
                            MusicPage {
                                remote: Remote { view: o.music.remote.view, dirty: !room },
                                command: None,
                                inline: false,
                                ..o.music
                            }
                        } else {
                            o.music
                        }
                        &&& if wanted && room {
                            &&& f.pending == Some(
                                Pending::Music {
                                    inline: o.music.inline,
                                    command: o.music.command,
                                },
                            )
                            &&& asked(
                                *final(link),
                                *old(link),
                                used_ssid(o.settings@),
                                used_password(o.settings@),
                                Op::Music {
                                    command: match o.music.command {
                                        Some(c) => Some(c.path),
                                        None => None,
                                    },
                                },
                            )
                        } else {
                            f.pending == o.pending && *final(link) == *old(link)
                        }
                    },
                    Screen::Environment => {
                        let sent = room && o.environment.dirty;
                        &&& f == (Device { environment: f.environment, pending: f.pending, ..o })
                        &&& f.environment == (Remote {
                            view: o.environment.view,
                            dirty: o.environment.dirty && !sent,
                        })
                        &&& if sent {
                            &&& f.pending == Some(Pending::Environment)
                            &&& asked_for(
                                *final(link),
                                *old(link),
                                o.settings,
                                Host::Server,
                                "/api/sensors"@,
                                READINGS_MAX_BYTES,
                            )
                        } else {
                            f.pending == o.pending && *final(link) == *old(link)
                        }
                    },
                    Screen::Weather => {
                        let wanted = o.weather.dirty && !o.nav.needs_redraw;
                        let sent = wanted && position is Some && room;
                        let lost = wanted && position is None;
                        &&& f == (Device {
                            weather: f.weather,
                            pending: f.pending,
                            nav: Nav { needs_redraw: o.nav.needs_redraw || lost, ..o.nav },
                            ..o
                        })
                        &&& f.weather == (Remote {
                            view: if lost {
                                WeatherView::NoFix
                            } else {
                                o.weather.view
                            },
                            dirty: o.weather.dirty && !sent && !lost,
                        })
                        &&& if sent {
                            &&& f.pending == Some(Pending::Weather)
                            &&& asked_for(
                                *final(link),
                                *old(link),
                                o.settings,
                                Host::External(weather::HOST),
                                weather::forecast_path((position->0).0@, (position->0).1@),
                                FORECAST_MAX_BYTES,
                            )
                        } else {
                            f.pending == o.pending && *final(link) == *old(link)
                        }
                    },
                    Screen::SettingsWifi => {
                        let p = o.wifi@;
                        &&& f == (Device { wifi: f.wifi, pending: f.pending, ..o })
                        &&& if room && p.scan_dirty {
                            &&& f.wifi@ == (WifiPageView { scan_dirty: false, ..p })
                            &&& f.pending == Some(Pending::Scan)
                            &&& asked(*final(link), *old(link), seq![], seq![], Op::Scan)
                        } else if room && p.join_dirty {
                            &&& f.wifi@ == (WifiPageView {
                                join_dirty: false,
                                reconnect: false,
                                ..p
                            })
                            &&& f.pending == Some(Pending::Join { reconnect: p.reconnect })
                            &&& asked(*final(link), *old(link), p.ssid, p.password, Op::Join)
                        } else if room && p.sync_dirty {
                            &&& f.wifi@ == (WifiPageView { sync_dirty: false, ..p })
                            &&& f.pending == Some(Pending::SyncCheck)
                            &&& asked(
                                *final(link),
                                *old(link),
                                used_ssid(o.settings@),
                                used_password(o.settings@),
                                Op::SyncTime,
                            )
                        } else {
                            &&& f.wifi@ == (WifiPageView {
                                reconnect: p.reconnect && !(o.free() && p.join_dirty),
                                ..p
                            })
                            &&& f.pending == o.pending
                            &&& *final(link) == *old(link)
                        }
                    },
                    _ => f == o && *final(link) == *old(link),
                }
            }),
    {
        match self.nav.screen {
            Screen::Music => {
                self.music.request(self.nav, &self.settings, &mut self.pending, link);
            },
            Screen::Environment => {
                request_environment(
                    &mut self.environment,
                    self.nav,
                    &self.settings,
                    &mut self.pending,
                    link,
                );
            },
            Screen::Weather => {
                request_weather(
                    &mut self.weather,
                    position,
                    &mut self.nav,
                    &self.settings,
                    &mut self.pending,
                    link,
                );
            },
            Screen::SettingsWifi => {
                self.wifi.request(self.nav, &self.settings, &mut self.pending, link);
            },
            _ => {},
        }
    }

    /// Whether the area around the device is to be saved now.
    pub fn area_wanted(&self) -> (r: bool)
        ensures
            r == (self.nav.screen == Screen::Gps && self.map.download && self.pending is None),
    {
        self.nav.screen == Screen::Gps && self.map.download && self.pending.is_none()
    }
}

} // verus!
