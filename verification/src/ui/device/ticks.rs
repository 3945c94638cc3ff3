//! What the passes of the main loop count, and what they then paint.
use vstd::prelude::*;

use super::Device;
use crate::pages::gps::GPS_REFRESH_TICKS;
use crate::pages::info::INFO_REFRESH_TICKS;
use crate::ui::clock::{minute_of, StatusBar};
use crate::ui::nav::{Nav, Screen, Ticker};

verus! {

/// What of the status bar is painted.
#[derive(Clone, Copy, Debug, PartialEq, Eq, Structural)]
pub struct BarPaint {
    pub time: bool,
    pub battery: bool,
}

/// A count after one more pass, which begins anew at `limit`.
pub open spec fn counted(count: u16, limit: u16) -> u16 {
    if count + 1 >= limit {
        0
    } else {
        (count + 1) as u16
    }
}

impl Device {
    /// The screen was painted, at the time `now`.
    pub fn painted(&mut self, now: Option<(u32, u32)>)
        ensures
            *final(self) == (Device {
                nav: Nav { needs_redraw: false, ..old(self).nav },
                bar: StatusBar { minute: minute_of(now), battery: Ticker { count: 0 } },
                info_ticks: Ticker { count: 0 },
                gps_ticks: Ticker { count: 0 },
                ..*old(self)
            }),
            old(self).well_formed() ==> final(self).well_formed(),
    {
        self.nav.needs_redraw = false;
        self.bar.painted(now);
        self.info_ticks.reset();
        self.gps_ticks.reset();
    }

    /// Whether the status bar is up and its screen is not about to be painted
    /// anew.
    pub open spec fn bar_is_up(&self) -> bool {
        !self.nav.needs_redraw && !self.nav.screen.whole()
    }

    /// Counts a pass for the status bar. With a new minute both the time and
    /// the battery are painted, and the battery also every `limit` passes.
    pub fn tick_bar(&mut self, now: Option<(u32, u32)>, limit: u16) -> (r: BarPaint)
        ensures
            ({
                let o = *old(self);
                let minute = now is Some && minute_of(now) != o.bar.minute;
                let often = o.bar.battery.count + 1 >= limit;
                &&& r == (BarPaint {
                    time: o.bar_is_up() && minute,
                    battery: o.bar_is_up() && (minute || often),
                })
                &&& *final(self) == if o.bar_is_up() {
                    Device {
                        bar: StatusBar {
                            minute: if minute {
                                minute_of(now)
                            } else {
                                o.bar.minute
                            },
                            battery: Ticker { count: counted(o.bar.battery.count, limit) },
                        },
                        ..o
                    }
                } else {
                    o
                }
            }),
            old(self).well_formed() ==> final(self).well_formed(),
    {
        if self.nav.needs_redraw || self.nav.screen.hides_status_bar() {
            return BarPaint { time: false, battery: false };
        }
        let minute: bool = self.bar.minute_passed(now);
        let often: bool = self.bar.battery.tick(limit);
        BarPaint { time: minute, battery: minute || often }
    }

    /// Counts a pass for the info page. Says whether its values are painted.
    pub fn tick_info(&mut self) -> (r: bool)
        ensures
            ({
                let o = *old(self);
                let counts = o.nav.screen == Screen::Info && !o.nav.needs_redraw;
                &&& r == (counts && o.info_ticks.count + 1 >= INFO_REFRESH_TICKS)
                &&& *final(self) == if counts {
                    Device {
                        info_ticks: Ticker {
                            count: counted(o.info_ticks.count, INFO_REFRESH_TICKS),
                        },
                        ..o
                    }
                } else {
                    o
                }
            }),
            old(self).well_formed() ==> final(self).well_formed(),
    {
        if self.nav.screen == Screen::Info && !self.nav.needs_redraw {
            self.info_ticks.tick(INFO_REFRESH_TICKS)
        } else {
            false
        }
    }

    /// Whether the GPS page follows the position: while it is up and painted.
    pub fn follows_position(&self) -> (r: bool)
        ensures
            r == (self.nav.screen == Screen::Gps && !self.nav.needs_redraw),
    {
        self.nav.screen == Screen::Gps && !self.nav.needs_redraw
    }

    /// Counts a pass for the GPS page. Says whether its readout is painted.
    pub fn tick_gps(&mut self) -> (r: bool)
        ensures
            ({
                let o = *old(self);
                let counts = o.nav.screen == Screen::Gps && !o.nav.needs_redraw;
                &&& r == (counts && o.gps_ticks.count + 1 >= GPS_REFRESH_TICKS)
                &&& *final(self) == if counts {
                    Device {
                        gps_ticks: Ticker {
                            count: counted(o.gps_ticks.count, GPS_REFRESH_TICKS),
                        },
                        ..o
                    }
                } else {
                    o
                }
            }),
            old(self).well_formed() ==> final(self).well_formed(),
    {
        if self.follows_position() {
            self.gps_ticks.tick(GPS_REFRESH_TICKS)
        } else {
            false
        }
    }
}

/// A count goes up by one with every pass, and starts anew when it reaches its
/// limit.
pub proof fn law_passes_are_counted(count: u16, limit: u16)
    requires
        count < limit,
    ensures
        count + 1 < limit ==> counted(count, limit) == count + 1,
        count + 1 == limit ==> counted(count, limit) == 0,
        counted(count, limit) < limit,
{
}

} // verus!
