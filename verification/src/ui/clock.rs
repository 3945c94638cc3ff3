//! The clock: when it is set, and the times that the pages write.
use vstd::prelude::*;
use vstd::string::*;

use super::nav::{Nav, Screen, Ticker};
use super::pending::{in_step, saved_request, used_password, used_ssid, Pending};
use crate::settings::Settings;
use crate::text::{dec, dec_padded, own, push_dec, push_dec_padded};
use crate::wifi::{Link, Op, RESYNC_INTERVAL_SECS, RETRY_INTERVAL_SECS};

verus! {

/// When the clock was set, and when it is set next.
#[derive(Clone, Copy, Debug, PartialEq, Eq, Structural)]
pub struct ClockSync {
    /// Whether the clock holds a time.
    pub synced: bool,
    /// When the clock was last set or tried to be.
    pub last_resync_secs: u64,
    /// How long to wait after a failure while the clock holds no time.
    pub retry_secs: u64,
}

/// How the clock is set when the device starts.
#[derive(Clone, Copy, Debug, PartialEq, Eq, Structural)]
pub enum StartClock {
    /// It holds its time.
    Kept,
    /// It is set to so many microseconds since 1970.
    Restore(u64),
    /// It holds no time.
    Lost,
}

/// How the clock is set when the device starts: a wake from deep sleep keeps
/// it, and after any other reset the external clock has the time, where that
/// did not lose it too.
pub fn start_clock(woke: bool, external: Option<u64>) -> (r: StartClock)
    requires
        external matches Some(t) ==> t * 1_000_000 <= u64::MAX,
    ensures
        r == if woke {
            StartClock::Kept
        } else {
            match external {
                Some(t) => StartClock::Restore((t * 1_000_000) as u64),
                None => StartClock::Lost,
            }
        },
{
    if woke {
        StartClock::Kept
    } else {
        match external {
            Some(t) => StartClock::Restore(t * 1_000_000),
            None => StartClock::Lost,
        }
    }
}

impl ClockSync {
    /// The wait after a failure is never longer than that after a success.
    pub open spec fn well_formed(&self) -> bool {
        RETRY_INTERVAL_SECS <= self.retry_secs <= RESYNC_INTERVAL_SECS
    }

    /// Whether the clock is set now, given whether there is a network, whether an
    /// answer is waited for and whether a request is on its way.
    pub open spec fn resync_sent(
        &self,
        now_secs: u64,
        network: bool,
        waiting: bool,
        busy: bool,
    ) -> bool {
        network && !waiting && !busy && self.due(now_secs)
    }

    /// The clock after an attempt to set it.
    pub open spec fn tried(self, set: bool, now_secs: u64) -> ClockSync {
        ClockSync {
            synced: self.synced || set,
            last_resync_secs: now_secs,
            retry_secs: if set {
                RETRY_INTERVAL_SECS
            } else if 2 * self.retry_secs <= RESYNC_INTERVAL_SECS {
                (2 * self.retry_secs) as u64
            } else {
                RESYNC_INTERVAL_SECS
            },
        }
    }

    /// The clock when the device started.
    pub fn new(synced: bool, now_secs: u64) -> (r: Self)
        ensures
            r.well_formed(),
            r == (ClockSync {
                synced,
                last_resync_secs: now_secs,
                retry_secs: RETRY_INTERVAL_SECS,
            }),
    {
        ClockSync { synced, last_resync_secs: now_secs, retry_secs: RETRY_INTERVAL_SECS }
    }

    /// Takes the outcome of a session that set the clock, where `now_secs` is
    /// the time afterwards.
    pub fn on_time_synced(&mut self, set: bool, now_secs: u64)
        requires
            old(self).well_formed(),
        ensures
            final(self).well_formed(),
            *final(self) == old(self).tried(set, now_secs),
            final(self).synced == (old(self).synced || set),
            final(self).last_resync_secs == now_secs,
            final(self).retry_secs == if set {
                RETRY_INTERVAL_SECS as int
            } else if 2 * old(self).retry_secs <= RESYNC_INTERVAL_SECS {
                2 * old(self).retry_secs
            } else {
                RESYNC_INTERVAL_SECS as int
            },
    {
        if set {
            self.synced = true;
            self.retry_secs = RETRY_INTERVAL_SECS;
        } else if 2 * self.retry_secs <= RESYNC_INTERVAL_SECS {
            self.retry_secs = 2 * self.retry_secs;
        } else {
            self.retry_secs = RESYNC_INTERVAL_SECS;
        }
        self.last_resync_secs = now_secs;
    }

    /// A network was joined: failures before it do not count.
    pub fn on_joined(&mut self)
        ensures
            final(self).well_formed(),
            *final(self) == (ClockSync { retry_secs: RETRY_INTERVAL_SECS, ..*old(self) }),
    {
        self.retry_secs = RETRY_INTERVAL_SECS;
    }

    /// How long after the last time the clock is set next.
    pub open spec fn interval(&self) -> u64 {
        if self.synced {
            RESYNC_INTERVAL_SECS
        } else {
            self.retry_secs
        }
    }

    /// Whether the clock is due to be set.
    pub open spec fn due(&self, now_secs: u64) -> bool {
        now_secs >= self.last_resync_secs + self.interval()
    }

    /// Asks for a session that sets the clock, when it is due, a network is
    /// known and no session runs.
    pub fn resync(
        &mut self,
        now_secs: u64,
        settings: &Settings,
        pending: &mut Option<Pending>,
        link: &mut Link,
    )
        requires
            old(self).well_formed(),
            old(self).last_resync_secs + RESYNC_INTERVAL_SECS <= u64::MAX,
        ensures
            ({
                let wanted = *old(pending) is None && used_ssid(settings@).len() > 0 && old(
                    self,
                ).due(now_secs);
                let sent = wanted && old(link).request is None;
                &&& sent == old(self).resync_sent(
                    now_secs,
                    used_ssid(settings@).len() > 0,
                    *old(pending) is Some,
                    old(link).request is Some,
                )
                &&& final(self).well_formed()
                &&& sent ==> {
                    &&& *final(pending) == Some(Pending::Resync)
                    &&& *final(self) == (ClockSync { last_resync_secs: now_secs, ..*old(self) })
                    &&& final(link).request matches Some(r) && r.op == Op::SyncTime && r.ssid@
                        == used_ssid(settings@) && r.password@ == used_password(settings@)
                    &&& *final(link) == (Link { request: final(link).request, ..*old(link) })
                }
                &&& !sent ==> {
                    &&& *final(pending) == *old(pending)
                    &&& *final(self) == *old(self)
                    &&& *final(link) == *old(link)
                }
            }),
            in_step(*old(pending), *old(link)) ==> in_step(*final(pending), *final(link)),
    {
        let interval: u64 = if self.synced {
            RESYNC_INTERVAL_SECS
        } else {
            self.retry_secs
        };
        if pending.is_none() && !settings.wifi_ssid().is_empty() && now_secs
            >= self.last_resync_secs + interval {
            if link.send(saved_request(settings, Op::SyncTime)) {
                *pending = Some(Pending::Resync);
                self.last_resync_secs = now_secs;
            }
        }
    }
}

/// How long the wait is after so many failures in a row.
pub open spec fn retry_after(failures: nat) -> int
    decreases failures,
{
    if failures == 0 {
        RETRY_INTERVAL_SECS as int
    } else {
        let before = retry_after((failures - 1) as nat);
        if 2 * before <= RESYNC_INTERVAL_SECS {
            2 * before
        } else {
            RESYNC_INTERVAL_SECS as int
        }
    }
}

/// The wait grows with failures and stops at four hours, which it reaches with
/// the seventh.
pub proof fn law_retries_slow_down(failures: nat)
    ensures
        RETRY_INTERVAL_SECS <= retry_after(failures) <= RESYNC_INTERVAL_SECS,
        retry_after(failures) <= retry_after(failures + 1),
        failures >= 7 ==> retry_after(failures) == RESYNC_INTERVAL_SECS,
    decreases failures,
{
    reveal_with_fuel(retry_after, 9);
    if failures > 0 {
        law_retries_slow_down((failures - 1) as nat);
    }
}

/// Whether a screen is painted for a session that set the clock: whenever it
/// was set, and on the Wi-Fi page also for a check that failed.
pub fn redraw_for_sync(nav: &mut Nav, set: bool, check: bool)
    ensures
        *final(nav) == (Nav {
            needs_redraw: old(nav).needs_redraw || set || (check && old(nav).screen
                == Screen::SettingsWifi),
            ..*old(nav)
        }),
{
    if set || (check && nav.screen == Screen::SettingsWifi) {
        nav.needs_redraw = true;
    }
}

/// What the Wi-Fi page says of a check.
pub fn check_status(set: bool) -> (r: &'static str)
    ensures
        r@ == if set {
            "internet ok - clock synced"@
        } else {
            "check failed - no internet?"@
        },
{
    if set {
        "internet ok - clock synced"
    } else {
        "check failed - no internet?"
    }
}

// ---------------------------------------------------------------------------
// The status bar.
// ---------------------------------------------------------------------------

/// What the status bar shows: a minute, or sixty while there is no time.
pub struct StatusBar {
    pub minute: u32,
    pub battery: Ticker,
}

/// The minute of a time, or sixty.
pub open spec fn minute_of(now: Option<(u32, u32)>) -> u32 {
    match now {
        Some(t) => t.1,
        None => 60,
    }
}

impl StatusBar {
    /// Nothing shown yet.
    pub fn new() -> (r: Self)
        ensures
            r.minute == 60,
            r.battery.count == 0,
    {
        StatusBar { minute: 60, battery: Ticker { count: 0 } }
    }

    /// The whole screen was painted.
    pub fn painted(&mut self, now: Option<(u32, u32)>)
        ensures
            final(self).minute == minute_of(now),
            final(self).battery.count == 0,
    {
        self.minute = match now {
            Some(t) => t.1,
            None => 60,
        };
        self.battery.reset();
    }

    /// The time alone was painted.
    pub fn time_painted(&mut self, now: Option<(u32, u32)>)
        ensures
            final(self).minute == minute_of(now),
            final(self).battery == old(self).battery,
    {
        self.minute = match now {
            Some(t) => t.1,
            None => 60,
        };
    }

    /// Whether the time is to be painted: there is one, and its minute is not
    /// the one that is shown.
    pub fn minute_passed(&mut self, now: Option<(u32, u32)>) -> (r: bool)
        ensures
            r == (now is Some && minute_of(now) != old(self).minute),
            (r, final(self).minute) == minute_seen(old(self).minute, now),
            final(self).minute == if r {
                minute_of(now)
            } else {
                old(self).minute
            },
            final(self).battery == old(self).battery,
    {
        match now {
            Some(t) => {
                if t.1 != self.minute {
                    self.minute = t.1;
                    true
                } else {
                    false
                }
            },
            None => false,
        }
    }
}

// ---------------------------------------------------------------------------
// The time of the day.
// ---------------------------------------------------------------------------

/// The second of the day, so many hours from UTC.
pub open spec fn second_of_day(unix: int, tz: int) -> int {
    (unix + tz * 3600) % 86_400
}

/// The hour, the minute and the second, so many hours from UTC.
pub fn time_of_day(unix: u64, tz: i8) -> (r: (u32, u32, u32))
    ensures
        r.0 == second_of_day(unix as int, tz as int) / 3600,
        r.1 == second_of_day(unix as int, tz as int) / 60 % 60,
        r.2 == second_of_day(unix as int, tz as int) % 60,
        r.0 < 24 && r.1 < 60 && r.2 < 60,
{
    // Six days make up for any number of hours before UTC.
    let shifted: i64 = (unix % 86_400) as i64 + tz as i64 * 3600 + 518_400;
    let s: u32 = (shifted % 86_400) as u32;
    assert(s == second_of_day(unix as int, tz as int));
    (s / 3600, s / 60 % 60, s % 60)
}

// ---------------------------------------------------------------------------
// Stamps.
// ---------------------------------------------------------------------------

/// The hour on the face of a clock.
pub open spec fn hour12(h: int) -> int {
    if h % 12 == 0 {
        12
    } else {
        h % 12
    }
}

/// The time in front of a message; nothing while there is no time.
pub open spec fn stamp_text(time: Option<(u32, u32, u32)>, time_24h: bool) -> Seq<char> {
    match time {
        Some((h, m, s)) => if time_24h {
            "["@ + dec_padded(h as int, 2) + ":"@ + dec_padded(m as int, 2) + ":"@ + dec_padded(
                s as int,
                2,
            ) + "] "@
        } else {
            "["@ + dec(hour12(h as int)) + ":"@ + dec_padded(m as int, 2) + ":"@ + dec_padded(
                s as int,
                2,
            ) + (if h < 12 {
                "am"@
            } else {
                "pm"@
            }) + "] "@
        },
        None => seq![],
    }
}

/// The time in front of a message.
pub fn lora_stamp(time: Option<(u32, u32, u32)>, time_24h: bool) -> (r: String)
    ensures
        r@ == stamp_text(time, time_24h),
{
    match time {
        Some((h, m, s)) => {
            let mut out: String = own("[");
            if time_24h {
                push_dec_padded(&mut out, h as u64, 2);
            } else {
                let h12: u32 = if h % 12 == 0 {
                    12
                } else {
                    h % 12
                };
                push_dec(&mut out, h12 as u64);
            }
            out.append(":");
            push_dec_padded(&mut out, m as u64, 2);
            out.append(":");
            push_dec_padded(&mut out, s as u64, 2);
            if !time_24h {
                out.append(
                    if h < 12 {
                        "am"
                    } else {
                        "pm"
                    },
                );
            }
            out.append("] ");
            assert(out@ =~= stamp_text(time, time_24h));
            out
        },
        None => String::new(),
    }
}

/// The time of day is what is left of the seconds since the epoch, moved by the
/// hours from UTC, once the whole days are taken off, before the epoch too. An
/// hour further east, it is an hour later.
pub proof fn law_time_of_day(day: int, h: int, m: int, s: int, tz: int)
    requires
        0 <= h < 24,
        0 <= m < 60,
        0 <= s < 60,
    ensures
        ({
            let unix = 86_400 * day + 3600 * h + 60 * m + s - 3600 * tz;
            let second = second_of_day(unix, tz);
            &&& second / 3600 == h
            &&& second / 60 % 60 == m
            &&& second % 60 == s
            &&& second_of_day(unix, tz + 1) == (second + 3600) % 86_400
        }),
{
    let n = 3600 * h + 60 * m + s;
    assert((86_400 * day + n) % 86_400 == n);
    assert((86_400 * day + n + 3600) % 86_400 == (n + 3600) % 86_400);
    assert(n / 3600 == h);
    assert(n / 60 == 60 * h + m);
    assert((60 * h + m) % 60 == m);
    assert(n % 60 == s);
}

/// On a clock of twelve hours, noon and midnight are twelve, and every other
/// hour is as many past them as it is.
pub proof fn law_twelve_hours(h: int)
    requires
        0 <= h < 24,
    ensures
        1 <= hour12(h) <= 12,
        h == 0 || h == 12 ==> hour12(h) == 12,
        0 < h < 12 ==> hour12(h) == h && hour12(h + 12) == h,
{
}

/// A stamp holds hours, minutes and seconds, two digits each, between brackets;
/// on a clock of twelve hours the hour without a zero in front, and the half of
/// the day. Without a time there is no stamp.
pub proof fn law_stamp_holds_the_time(h: u32, m: u32, s: u32)
    requires
        h < 24,
        m < 60,
        s < 60,
    ensures
        ({
            let t = stamp_text(Some((h, m, s)), true);
            &&& t.len() == 11
            &&& t[0] == '['
            &&& t.subrange(1, 3) == dec_padded(h as int, 2)
            &&& t[3] == ':'
            &&& t.subrange(4, 6) == dec_padded(m as int, 2)
            &&& t[6] == ':'
            &&& t.subrange(7, 9) == dec_padded(s as int, 2)
            &&& t[9] == ']'
            &&& t[10] == ' '
        }),
        ({
            let t = stamp_text(Some((h, m, s)), false);
            let n = dec(hour12(h as int)).len() as int;
            &&& t.len() == n + 11
            &&& t[0] == '['
            &&& t.subrange(1, 1 + n) == dec(hour12(h as int))
            &&& t[n + 1] == ':'
            &&& t.subrange(n + 2, n + 4) == dec_padded(m as int, 2)
            &&& t[n + 4] == ':'
            &&& t.subrange(n + 5, n + 7) == dec_padded(s as int, 2)
            &&& t[n + 7] == if h < 12 {
                'a'
            } else {
                'p'
            }
            &&& t[n + 8] == 'm'
            &&& t[n + 9] == ']'
            &&& t[n + 10] == ' '
        }),
        stamp_text(None, true).len() == 0,
        stamp_text(None, false).len() == 0,
{
    reveal_strlit("[");
    reveal_strlit(":");
    reveal_strlit("] ");
    reveal_strlit("am");
    reveal_strlit("pm");
    reveal_with_fuel(dec, 2);
    assert(dec_padded(h as int, 2).len() == 2);
    assert(dec_padded(m as int, 2).len() == 2);
    assert(dec_padded(s as int, 2).len() == 2);
    let t = stamp_text(Some((h, m, s)), true);
    assert(t.subrange(1, 3) =~= dec_padded(h as int, 2));
    assert(t.subrange(4, 6) =~= dec_padded(m as int, 2));
    assert(t.subrange(7, 9) =~= dec_padded(s as int, 2));
    let u = stamp_text(Some((h, m, s)), false);
    let n = dec(hour12(h as int)).len() as int;
    assert(u.subrange(1, 1 + n) =~= dec(hour12(h as int)));
    assert(u.subrange(n + 2, n + 4) =~= dec_padded(m as int, 2));
    assert(u.subrange(n + 5, n + 7) =~= dec_padded(s as int, 2));
}

/// A clock that was set is set anew after four hours. One that was not is tried
/// again after two minutes, then after twice as long as before each time, until
/// that is four hours.
pub proof fn law_clock_is_set_in_time(c: ClockSync, went_by: u64, failures: nat)
    requires
        c.last_resync_secs + went_by <= u64::MAX,
    ensures
        c.synced ==> (c.due((c.last_resync_secs + went_by) as u64) <==> went_by >= 14_400),
        !c.synced ==> (c.due((c.last_resync_secs + went_by) as u64) <==> went_by >= c.retry_secs),
        retry_after(0) == 120,
        retry_after(failures + 1) == if retry_after(failures) <= 7_200 {
            2 * retry_after(failures)
        } else {
            14_400
        },
{
}

/// A clock that was set stays set. Each failure doubles the wait, from two
/// minutes up to four hours; a success brings it back to two minutes.
pub proof fn law_failures_slow_the_clock_down(c: ClockSync, failures: nat, now: u64)
    requires
        c.retry_secs == retry_after(failures),
    ensures
        c.tried(false, now).retry_secs == retry_after(failures + 1),
        c.tried(true, now).retry_secs == 120,
        c.tried(true, now).synced,
        c.tried(false, now).synced == c.synced,
        c.tried(true, now).last_resync_secs == now,
        c.tried(false, now).last_resync_secs == now,
        c.tried(true, now).interval() == 14_400,
        !c.synced ==> c.tried(false, now).interval() == retry_after(failures + 1),
{
    law_retries_slow_down(failures);
}

/// Whether a minute began since the one that is shown, and the one that is shown
/// then.
pub open spec fn minute_seen(shown: u32, now: Option<(u32, u32)>) -> (bool, u32) {
    match now {
        Some((_, m)) => (m != shown, m),
        None => (false, shown),
    }
}

/// The time in the status bar is painted once in every minute, and not while
/// the time is not known.
pub proof fn law_every_minute_is_painted_once(shown: u32, h: u32, m: u32)
    ensures
        ({
            let (paint, then) = minute_seen(shown, Some((h, m)));
            &&& paint <==> m != shown
            &&& then == m
            &&& minute_seen(then, Some((h, m))) == (false, m)
        }),
        minute_seen(shown, None) == (false, shown),
        minute_of(Some((h, m))) == m,
        minute_of(None) == 60,
{
}

/// The clock is set as soon as it is due, there is a network to set it over and
/// nothing else is being fetched; and not again before the next time it is due.
pub proof fn law_clock_is_set_once_when_due(c: ClockSync, now: u64, waiting: bool, busy: bool)
    requires
        c.retry_secs > 0,
    ensures
        c.due(now) ==> c.resync_sent(now, true, false, false),
        !c.due(now) ==> !c.resync_sent(now, true, waiting, busy),
        !c.resync_sent(now, false, waiting, busy),
        !c.resync_sent(now, true, true, busy),
        !c.resync_sent(now, true, waiting, true),
        !(ClockSync { last_resync_secs: now, ..c }).due(now),
{
}

} // verus!
