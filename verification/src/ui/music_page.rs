//! The music page: commands for the player, and its position between fetches.
use vstd::prelude::*;
use vstd::string::*;

use super::nav::{Nav, Screen, Ticker};
use super::pending::{in_step, saved_request, used_password, used_ssid, MusicCommand, Pending};
use super::wifi_page::asked;
use crate::pages::music::{MusicView, NowPlaying};
use crate::settings::Settings;
use crate::state::Remote;
use crate::wifi::{Link, Op};

verus! {

/// The line at the bottom of the page.
#[derive(Clone, Copy, Debug, PartialEq, Eq, Structural)]
pub enum MusicStatus {
    Contacting,
    Done,
    Failed,
}

impl MusicStatus {
    /// What the line says.
    pub fn text(self) -> (r: &'static str)
        ensures
            r@ == match self {
                MusicStatus::Contacting => "contacting server..."@,
                MusicStatus::Done => "ok"@,
                MusicStatus::Failed => "error"@,
            },
    {
        match self {
            MusicStatus::Contacting => "contacting server...",
            MusicStatus::Done => "ok",
            MusicStatus::Failed => "error",
        }
    }
}

/// Where a track was: its position and length in seconds, and when that was
/// known, in microseconds.
#[derive(Clone, Copy, Debug, PartialEq, Eq, Structural)]
pub struct Anchor {
    pub base_secs: u32,
    pub duration_secs: u32,
    pub at_us: u64,
}

/// Where a track is, as far as a view says: only of one that plays, and whose
/// position and length are known.
pub open spec fn position_in(view: MusicView, at_us: u64) -> Option<Anchor> {
    match view {
        MusicView::Playing(p) => match (p.is_playing, p.progress_secs, p.duration_secs) {
            (true, Some(base_secs), Some(duration_secs)) => Some(
                Anchor { base_secs, duration_secs, at_us },
            ),
            _ => None,
        },
        _ => None,
    }
}

/// Where a track is, as far as a view that came at `at_us` says.
pub fn playback(view: &MusicView, at_us: u64) -> (r: Option<Anchor>)
    ensures
        r == position_in(*view, at_us),
{
    match view {
        MusicView::Playing(p) => {
            if !p.is_playing {
                return None;
            }
            match (p.progress_secs, p.duration_secs) {
                (Some(base_secs), Some(duration_secs)) => Some(
                    Anchor { base_secs, duration_secs, at_us },
                ),
                _ => None,
            }
        },
        _ => None,
    }
}

/// What of the page is painted anew.
#[derive(Clone, Copy, Debug, PartialEq, Eq, Structural)]
pub enum Repaint {
    Nothing,
    /// What is below the cover.
    Body,
    /// The line at the bottom.
    StatusLine,
}

/// The state of the page.
pub struct MusicPage {
    pub remote: Remote<MusicView>,
    /// The command that goes along with the next fetch.
    pub command: Option<MusicCommand>,
    /// Whether the next fetch is for a command and leaves the page up.
    pub inline: bool,
    pub status: Option<MusicStatus>,
    pub status_ticks: Ticker,
    pub refresh: Ticker,
    pub anchor: Option<Anchor>,
}

/// What a tick of the position comes to.
#[derive(Clone, Copy, Debug, PartialEq, Eq, Structural)]
pub enum Progress {
    Nothing,
    /// The position is painted: seconds played and in all.
    Show(u32, u32),
    /// The track has ended, and the next one is fetched.
    Ended,
}

/// Seconds that a track has played, as far as is known.
pub open spec fn played(a: Anchor, now_us: u64) -> int {
    a.base_secs + (if now_us >= a.at_us {
        (now_us - a.at_us) / 1_000_000
    } else {
        0
    })
}

impl MusicPage {
    /// The page before anything was fetched.
    pub fn new(active: bool) -> (r: Self)
        ensures
            r.remote.view == MusicView::Loading,
            r.remote.dirty == active,
            r.command is None,
            !r.inline,
            r.status is None,
            r.status_ticks.count == 0,
            r.refresh.count == 0,
            r.anchor is None,
    {
        MusicPage {
            remote: Remote::new(MusicView::Loading, active),
            command: None,
            inline: false,
            status: None,
            status_ticks: Ticker { count: 0 },
            refresh: Ticker { count: 0 },
            anchor: None,
        }
    }

    /// Loads the whole page anew.
    pub fn reload(&mut self)
        ensures
            *final(self) == (MusicPage {
                remote: Remote { view: MusicView::Loading, dirty: true },
                command: None,
                inline: false,
                status: None,
                anchor: None,
                ..*old(self)
            }),
    {
        self.remote.refresh(MusicView::Loading);
        self.command = None;
        self.inline = false;
        self.status = None;
        self.anchor = None;
    }

    /// A button was touched: the page stays up, and the line at the bottom says
    /// what goes on.
    pub fn press(&mut self, command: MusicCommand)
        ensures
            *final(self) == (MusicPage {
                remote: Remote { view: old(self).remote.view, dirty: true },
                command: Some(command),
                inline: true,
                anchor: None,
                status: Some(MusicStatus::Contacting),
                status_ticks: Ticker { count: 0 },
                ..*old(self)
            }),
    {
        self.command = Some(command);
        self.inline = true;
        self.anchor = None;
        self.status = Some(MusicStatus::Contacting);
        self.status_ticks.reset();
        self.remote.invalidate();
    }

    /// Asks for the fetch that the page wants, where its screen is up and
    /// painted and no session runs. The command is given up even when the task
    /// has no room for it.
    pub fn request(
        &mut self,
        nav: Nav,
        settings: &Settings,
        pending: &mut Option<Pending>,
        link: &mut Link,
    )
        ensures
            ({
                let wanted = nav.screen == Screen::Music && old(self).remote.dirty
                    && !nav.needs_redraw && *old(pending) is None;
                let sent = wanted && old(link).request is None;
                let path = match old(self).command {
                    Some(c) => Some(c.path),
                    None => None,
                };
                &&& *final(self) == if wanted {
                    MusicPage {
                        remote: Remote { view: old(self).remote.view, dirty: !sent },
                        command: None,
                        inline: false,
                        ..*old(self)
                    }
                } else {
                    *old(self)
                }
                &&& sent ==> {
                    &&& *final(pending) == Some(
                        Pending::Music { inline: old(self).inline, command: old(self).command },
                    )
                    &&& asked(
                        *final(link),
                        *old(link),
                        used_ssid(settings@),
                        used_password(settings@),
                        Op::Music { command: path },
                    )
                }
                &&& !sent ==> *final(pending) == *old(pending) && *final(link) == *old(link)
            }),
            in_step(*old(pending), *old(link)) ==> in_step(*final(pending), *final(link)),
    {
        if nav.screen == Screen::Music && self.remote.is_dirty() && !nav.needs_redraw
            && pending.is_none() {
            let command: Option<MusicCommand> = self.command;
            self.command = None;
            let inline: bool = self.inline;
            self.inline = false;
            let path: Option<&'static str> = match command {
                Some(c) => Some(c.path),
                None => None,
            };
            if link.send(saved_request(settings, Op::Music { command: path })) {
                self.remote.clear();
                *pending = Some(Pending::Music { inline, command });
            }
        }
    }

    /// Takes the answer to a fetch: the view of it, and where the track is,
    /// where it plays. A fetch that changed the cover, or was not for a
    /// command, paints the whole page.
    pub fn on_done(
        &mut self,
        view: Option<MusicView>,
        anchor: Option<Anchor>,
        inline: bool,
        command: Option<MusicCommand>,
        nav: &mut Nav,
    ) -> (r: Repaint)
        ensures
            ({
                let art = command is Some && command->0.changes_art;
                let display = command is Some && command->0.changes_display;
                let whole = match view {
                    Some(_) => !inline || art,
                    None => !inline,
                };
                let here = old(nav).screen == Screen::Music;
                &&& *final(nav) == (Nav {
                    needs_redraw: old(nav).needs_redraw || (whole && here),
                    ..*old(nav)
                })
                &&& r == repaint_after(view is Some, inline, art, display, here)
                &&& r == if whole || !here {
                    Repaint::Nothing
                } else if view is Some && display {
                    Repaint::Body
                } else {
                    Repaint::StatusLine
                }
                &&& *final(self) == match view {
                    Some(v) => MusicPage {
                        remote: Remote { view: v, dirty: old(self).remote.dirty },
                        anchor,
                        refresh: Ticker { count: 0 },
                        status_ticks: Ticker { count: 0 },
                        status: if inline {
                            Some(MusicStatus::Done)
                        } else {
                            None
                        },
                        ..*old(self)
                    },
                    None => if inline {
                        MusicPage {
                            status: Some(MusicStatus::Failed),
                            status_ticks: Ticker { count: 0 },
                            ..*old(self)
                        }
                    } else {
                        MusicPage {
                            remote: Remote {
                                view: MusicView::Error,
                                dirty: old(self).remote.dirty,
                            },
                            status: None,
                            ..*old(self)
                        }
                    },
                }
            }),
    {
        let here: bool = nav.screen == Screen::Music;
        match view {
            Some(v) => {
                self.remote.view = v;
                self.anchor = anchor;
                self.refresh.reset();
                self.status_ticks.reset();
                let art: bool = match command {
                    Some(c) => c.changes_art,
                    None => false,
                };
                let display: bool = match command {
                    Some(c) => c.changes_display,
                    None => false,
                };
                self.status = if inline {
                    Some(MusicStatus::Done)
                } else {
                    None
                };
                if !inline || art {
                    if here {
                        nav.needs_redraw = true;
                    }
                    Repaint::Nothing
                } else if !here {
                    Repaint::Nothing
                } else if display {
                    Repaint::Body
                } else {
                    Repaint::StatusLine
                }
            },
            None => {
                if inline {
                    self.status = Some(MusicStatus::Failed);
                    self.status_ticks.reset();
                    if here {
                        Repaint::StatusLine
                    } else {
                        Repaint::Nothing
                    }
                } else {
                    self.status = None;
                    self.remote.view = MusicView::Error;
                    if here {
                        nav.needs_redraw = true;
                    }
                    Repaint::Nothing
                }
            },
        }
    }

    /// Counts a pass of the main loop; after `limit` of them the position is
    /// told from the last fetch, and a track that has ended is fetched anew.
    pub fn tick(&mut self, nav: Nav, limit: u16, now_us: u64) -> (r: Progress)
        ensures
            ({
                let counted = nav.screen == Screen::Music && !nav.needs_redraw;
                let fires = counted && old(self).refresh.count + 1 >= limit;
                let ended = fires && old(self).anchor is Some && played(
                    old(self).anchor->0,
                    now_us,
                ) >= old(self).anchor->0.duration_secs;
                &&& r == progress(old(self).anchor, fires, now_us)
                &&& r == if !fires || old(self).anchor is None {
                    Progress::Nothing
                } else if ended {
                    Progress::Ended
                } else {
                    Progress::Show(
                        played(old(self).anchor->0, now_us) as u32,
                        old(self).anchor->0.duration_secs,
                    )
                }
                &&& *final(self) == (MusicPage {
                    refresh: Ticker {
                        count: if fires {
                            0
                        } else if counted {
                            (old(self).refresh.count + 1) as u16
                        } else {
                            old(self).refresh.count
                        },
                    },
                    command: if ended {
                        None
                    } else {
                        old(self).command
                    },
                    inline: old(self).inline && !ended,
                    anchor: if ended {
                        None
                    } else {
                        old(self).anchor
                    },
                    remote: Remote {
                        view: old(self).remote.view,
                        dirty: old(self).remote.dirty || ended,
                    },
                    ..*old(self)
                })
            }),
    {
        if !(nav.screen == Screen::Music && !nav.needs_redraw) {
            return Progress::Nothing;
        }
        if !self.refresh.tick(limit) {
            return Progress::Nothing;
        }
        match self.anchor {
            Some(a) => {
                let elapsed: u64 = if now_us >= a.at_us {
                    (now_us - a.at_us) / 1_000_000
                } else {
                    0
                };
                let current: u64 = a.base_secs as u64 + elapsed;
                if current >= a.duration_secs as u64 {
                    self.command = None;
                    self.inline = false;
                    self.anchor = None;
                    self.remote.invalidate();
                    Progress::Ended
                } else {
                    Progress::Show(current as u32, a.duration_secs)
                }
            },
            None => Progress::Nothing,
        }
    }

    /// Shows a track at a position.
    pub fn advance(&mut self, secs: u32)
        ensures
            *final(self) == (MusicPage {
                remote: Remote {
                    view: match old(self).remote.view {
                        MusicView::Playing(p) => MusicView::Playing(
                            NowPlaying { progress_secs: Some(secs), ..p },
                        ),
                        other => other,
                    },
                    dirty: old(self).remote.dirty,
                },
                ..*old(self)
            }),
    {
        match &mut self.remote.view {
            MusicView::Playing(p) => {
                p.progress_secs = Some(secs);
            },
            _ => {},
        }
    }

    /// Counts a pass of the main loop; the line at the bottom goes after
    /// `limit` of them. Says whether it went.
    pub fn tick_status(&mut self, nav: Nav, limit: u16) -> (r: bool)
        ensures
            ({
                let counted = nav.screen == Screen::Music && !nav.needs_redraw
                    && old(self).status is Some;
                &&& r == (counted && old(self).status_ticks.count + 1 >= limit)
                &&& final(self).status == if r {
                    None
                } else {
                    old(self).status
                }
                &&& *final(self) == (MusicPage {
                    status: final(self).status,
                    status_ticks: final(self).status_ticks,
                    ..*old(self)
                })
                &&& final(self).status_ticks.count == if r {
                    0
                } else if counted {
                    old(self).status_ticks.count + 1
                } else {
                    old(self).status_ticks.count as int
                }
            }),
    {
        if nav.screen == Screen::Music && !nav.needs_redraw && self.status.is_some() {
            if self.status_ticks.tick(limit) {
                self.status = None;
                return true;
            }
        }
        false
    }
}

/// The position that is shown never reaches the end of the track.
pub proof fn law_shown_position_is_within_track(a: Anchor, now_us: u64)
    requires
        played(a, now_us) < a.duration_secs,
    ensures
        a.base_secs <= played(a, now_us) <= u32::MAX,
{
}

/// The position goes on by a second for every whole second that went by since
/// it was told, and does not go back.
pub proof fn law_position_goes_on(a: Anchor, secs: int, rest: int)
    requires
        0 <= secs,
        0 <= rest < 1_000_000,
        a.at_us + 1_000_000 * secs + rest <= u64::MAX,
    ensures
        played(a, (a.at_us + 1_000_000 * secs + rest) as u64) == a.base_secs + secs,
        forall|early: u64| early < a.at_us ==> #[trigger] played(a, early) == a.base_secs,
{
    assert((1_000_000 * secs + rest) / 1_000_000 == secs);
}

/// A position is known only of a track that plays and whose position and
/// length were told, and it is that one.
pub proof fn law_position_is_that_of_the_track(p: NowPlaying, at_us: u64)
    ensures
        p.is_playing && p.progress_secs is Some && p.duration_secs is Some ==> position_in(
            MusicView::Playing(p),
            at_us,
        ) == Some(
            Anchor { base_secs: p.progress_secs->0, duration_secs: p.duration_secs->0, at_us },
        ),
        !p.is_playing || p.progress_secs is None || p.duration_secs is None ==> position_in(
            MusicView::Playing(p),
            at_us,
        ) is None,
        position_in(MusicView::Loading, at_us) is None,
        position_in(MusicView::Idle, at_us) is None,
        position_in(MusicView::Error, at_us) is None,
{
}

/// What is shown of the position when it is due.
pub open spec fn progress(anchor: Option<Anchor>, due: bool, now_us: u64) -> Progress {
    match anchor {
        Some(a) => if !due {
            Progress::Nothing
        } else if played(a, now_us) >= a.duration_secs {
            Progress::Ended
        } else {
            Progress::Show(played(a, now_us) as u32, a.duration_secs)
        },
        None => Progress::Nothing,
    }
}

/// The position is shown second by second until the length of the track is
/// reached, and then the track has ended; nothing is shown of one whose
/// position is not known.
pub proof fn law_track_plays_to_its_end(a: Anchor, secs: int, rest: int)
    requires
        0 <= secs,
        0 <= rest < 1_000_000,
        a.at_us + 1_000_000 * secs + rest <= u64::MAX,
    ensures
        ({
            let now = (a.at_us + 1_000_000 * secs + rest) as u64;
            &&& a.base_secs + secs < a.duration_secs ==> progress(Some(a), true, now)
                == Progress::Show((a.base_secs + secs) as u32, a.duration_secs)
            &&& a.base_secs + secs >= a.duration_secs ==> progress(Some(a), true, now)
                == Progress::Ended
            &&& progress(Some(a), false, now) == Progress::Nothing
            &&& progress(None, true, now) == Progress::Nothing
        }),
{
    law_position_goes_on(a, secs, rest);
}

/// What of the page is painted when an answer came: whether it holds a track,
/// whether it is one to a button, whether the button changes the cover or the
/// track, and whether the page is up.
pub open spec fn repaint_after(
    track: bool,
    inline: bool,
    art: bool,
    display: bool,
    here: bool,
) -> Repaint {
    if !inline || (track && art) || !here {
        Repaint::Nothing
    } else if track && display {
        Repaint::Body
    } else {
        Repaint::StatusLine
    }
}

/// An answer to a button paints what the button changes: the track where it
/// changes what is shown, and else the line that says how it went. Where the
/// cover changes, or nobody pressed a button, the whole page is painted
/// instead; and nothing on another page.
pub proof fn law_button_paints_what_it_changes(track: bool, inline: bool, art: bool, display: bool)
    ensures
        repaint_after(track, inline, art, display, false) == Repaint::Nothing,
        repaint_after(track, false, art, display, true) == Repaint::Nothing,
        repaint_after(true, true, true, display, true) == Repaint::Nothing,
        repaint_after(true, true, false, true, true) == Repaint::Body,
        repaint_after(true, true, false, false, true) == Repaint::StatusLine,
        repaint_after(false, true, art, display, true) == Repaint::StatusLine,
{
}

} // verus!
