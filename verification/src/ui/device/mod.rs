//! The device between two passes of the main loop: all its pages, and what
//! opening and touching them and the answers of the wireless task change.

mod answers;
pub mod loads;
mod paint;
mod sessions;
pub mod ticks;
pub mod touch;
pub mod typing;

use vstd::prelude::*;
use vstd::string::*;
use vstd::utf8::*;

use crate::chatlog::RECV_MAX;
use crate::keyboard::KeyCache;
use crate::pages::environment::EnvironmentView;
use crate::pages::gps::{MapView, FULL_ZOOM_MAX, FULL_ZOOM_MIN};
use crate::pages::lora::{message_box, message_field, Tab, MSG_MAX};
use crate::pages::music::MusicView;
use crate::pages::notes::{editor_box, editor_field, EDITABLE_CHARS};
use crate::pages::weather::WeatherView;
use crate::settings::Settings;
use crate::state::Remote;
use crate::text::{own, texts};
use crate::text_field::TextField;
use crate::ui::clock::{ClockSync, StatusBar};
use crate::ui::files_page::{FilesPage, FilesView};
use crate::ui::lora_page::{LoraPage, LoraView};
use crate::ui::map_page::MapPage;
use crate::ui::music_page::MusicPage;
use crate::ui::nav::{open_from_home, Nav, Opening, Screen, Ticker};
use crate::ui::notes_page::{NotesPage, NotesView};
use crate::ui::pending::Pending;
use crate::ui::wifi_page::{Keys, WifiPage, WifiPageView};
use crate::wifi::RETRY_INTERVAL_SECS;

verus! {

/// The books on the shelf, each by the path of its file.
pub enum Shelf {
    Loading,
    Ready(Vec<String>),
    Error,
}

/// The device between two passes of the main loop.
pub struct Device {
    pub nav: Nav,
    pub settings: Settings,
    /// Whether the settings were changed and not yet written.
    pub settings_dirty: bool,
    /// The level of the front light.
    pub brightness: u8,
    /// The layer of the keyboard that passphrases are typed on.
    pub keys: Keys,
    /// The keys of the keyboard that is up.
    pub cache: KeyCache,
    /// The field that a note is edited in.
    pub editor: TextField,
    /// The field that a message is composed in.
    pub composer: TextField,
    pub clock: ClockSync,
    /// What the status bar shows.
    pub bar: StatusBar,
    /// Passes since the values of the info page were painted.
    pub info_ticks: Ticker,
    /// Passes since the readout of the GPS page was painted.
    pub gps_ticks: Ticker,
    /// The session that is waited for.
    pub pending: Option<Pending>,
    pub wifi: WifiPage,
    pub music: MusicPage,
    pub environment: Remote<EnvironmentView>,
    pub weather: Remote<WeatherView>,
    pub map: MapPage,
    pub notes: NotesPage,
    pub files: FilesPage,
    pub shelf: Remote<Shelf>,
    /// The first book of the shelf that is shown.
    pub shelf_scroll: usize,
    pub lora: LoraPage,
}

/// A page of the player that is loaded anew.
pub open spec fn reloaded(p: MusicPage) -> MusicPage {
    MusicPage {
        remote: Remote { view: MusicView::Loading, dirty: true },
        command: None,
        inline: false,
        status: None,
        anchor: None,
        ..p
    }
}

impl Nav {
    /// The same screen, painted anew where it is the one that is meant.
    pub open spec fn repainted_on(self, screen: Screen) -> Nav {
        Nav { needs_redraw: self.needs_redraw || self.screen == screen, ..self }
    }
}

impl Device {
    /// What every pass keeps.
    pub open spec fn well_formed(&self) -> bool {
        &&& self.clock.well_formed()
        &&& self.lora.well_formed()
        &&& FULL_ZOOM_MIN <= self.map.zoom <= FULL_ZOOM_MAX
        &&& self.weather.view matches WeatherView::Ready(w) ==> w.daily.complete()
        &&& self.cache.well_formed()
        &&& editor_box(self.editor)
        &&& self.notes@.text.len() <= EDITABLE_CHARS
        &&& message_box(self.composer)
        &&& encode_utf8(self.lora@.message).len() <= MSG_MAX
    }

    /// The device when it starts, on `screen`: what that screen shows is loaded
    /// at once, and nothing else is.
    pub fn start(
        settings: Settings,
        screen: Screen,
        synced: bool,
        now_secs: u64,
        keys: Vec<u64>,
        received: Vec<String>,
    ) -> (r: Self)
        requires
            keys@.len() == received@.len(),
            received@.len() <= RECV_MAX,
        ensures
            r.well_formed(),
            r.nav == (Nav { screen, needs_redraw: true }),
            r.settings == settings,
            !r.settings_dirty,
            r.brightness == settings.brightness,
            r.keys == (Keys { symbols: false, shift: false }),
            r.cache.layer is None,
            !r.editor.symbols && !r.editor.shift && !r.editor.dirty && !r.editor.quick_pending,
            !r.composer.symbols && !r.composer.shift && !r.composer.dirty
                && !r.composer.quick_pending,
            r.editor.chars_this_pass == 0 && r.composer.chars_this_pass == 0,
            r.clock == (ClockSync {
                synced,
                last_resync_secs: now_secs,
                retry_secs: RETRY_INTERVAL_SECS,
            }),
            r.bar.minute == 60 && r.bar.battery.count == 0,
            r.info_ticks.count == 0 && r.gps_ticks.count == 0,
            r.pending is None,
            r.wifi@ == (WifiPageView {
                status: "tap Scan to find networks"@,
                networks: seq![],
                scan_dirty: false,
                join_dirty: false,
                sync_dirty: false,
                pw_mode: false,
                ssid: seq![],
                password: seq![],
                reconnect: false,
            }),
            r.music.remote == (Remote {
                view: MusicView::Loading,
                dirty: screen == Screen::Music,
            }),
            r.music.command is None,
            !r.music.inline,
            r.music.status is None,
            r.music.anchor is None,
            r.music.status_ticks.count == 0,
            r.music.refresh.count == 0,
            r.environment == (Remote {
                view: EnvironmentView::Loading,
                dirty: screen == Screen::Environment,
            }),
            r.weather == (Remote {
                view: WeatherView::Loading,
                dirty: screen == Screen::Weather,
            }),
            r.map.remote == (Remote { view: MapView::Loading, dirty: screen == Screen::Gps }),
            !r.map.download,
            r.map.shown_cell is None,
            r.map.shown_offset == (0i32, 0i32),
            r.map.marker_ticks == 0,
            r.map.zoom == 0,
            r.map.km2@ == Seq::<char>::empty(),
            r.notes@ == (NotesView {
                entries: seq![],
                scroll: 0,
                status: seq![],
                dirty: screen == Screen::Notes,
                name: seq![],
                text: seq![],
                note_dirty: false,
                delete_armed: false,
            }),
            r.files@ == (FilesView {
                path: "/"@,
                entries: seq![],
                scroll: 0,
                status: seq![],
                dirty: screen == Screen::Files,
                image_path: seq![],
                reader_path: seq![],
                reader_dirty: false,
                reader_return: Screen::Files,
            }),
            r.shelf == (Remote { view: Shelf::Loading, dirty: screen == Screen::Library }),
            r.shelf_scroll == 0,
            r.lora@ == (LoraView {
                tab: Tab::Info,
                message: seq![],
                status: "type a message, then SEND"@,
                sent: seq![],
                received: texts(received@),
                keys: keys@,
                scroll: 0,
                clear_armed: false,
            }),
    {
        let brightness: u8 = settings.brightness;
        Device {
            nav: Nav { screen, needs_redraw: true },
            settings,
            settings_dirty: false,
            brightness,
            keys: Keys { symbols: false, shift: false },
            cache: KeyCache::new(),
            editor: editor_field(),
            composer: message_field(),
            clock: ClockSync::new(synced, now_secs),
            bar: StatusBar::new(),
            info_ticks: Ticker { count: 0 },
            gps_ticks: Ticker { count: 0 },
            pending: None,
            wifi: WifiPage::new(),
            music: MusicPage::new(screen == Screen::Music),
            environment: Remote::new(EnvironmentView::Loading, screen == Screen::Environment),
            weather: Remote::new(WeatherView::Loading, screen == Screen::Weather),
            map: MapPage::new(screen == Screen::Gps),
            notes: NotesPage::new(screen == Screen::Notes),
            files: FilesPage::new(screen == Screen::Files),
            shelf: Remote::new(Shelf::Loading, screen == Screen::Library),
            shelf_scroll: 0,
            lora: LoraPage::new(keys, received),
        }
    }

    /// Opens a page from the home screen. What it shows is loaded anew; the
    /// lists of files and of notes are painted only then.
    pub fn open_page(&mut self, screen: Screen)
        ensures
            final(self).nav == (Nav {
                screen,
                needs_redraw: old(self).nav.needs_redraw || (screen != Screen::Files && screen
                    != Screen::Notes),
            }),
            final(self).files@ == if screen == Screen::Files {
                FilesView { path: "/"@, dirty: true, ..old(self).files@ }
            } else {
                old(self).files@
            },
            final(self).notes == if screen == Screen::Notes {
                NotesPage { dirty: true, ..old(self).notes }
            } else {
                old(self).notes
            },
            final(self).music == if screen == Screen::Music {
                reloaded(old(self).music)
            } else {
                old(self).music
            },
            final(self).environment == if screen == Screen::Environment {
                Remote { view: EnvironmentView::Loading, dirty: true }
            } else {
                old(self).environment
            },
            final(self).weather == if screen == Screen::Weather {
                Remote { view: WeatherView::Loading, dirty: true }
            } else {
                old(self).weather
            },
            final(self).map == if screen == Screen::Gps {
                MapPage {
                    remote: Remote { view: MapView::Loading, dirty: true },
                    ..old(self).map
                }
            } else {
                old(self).map
            },
            final(self).shelf == if screen == Screen::Library {
                Remote { view: Shelf::Loading, dirty: true }
            } else {
                old(self).shelf
            },
            final(self).shelf_scroll == if screen == Screen::Library {
                0
            } else {
                old(self).shelf_scroll
            },
            *final(self) == (Device {
                nav: final(self).nav,
                files: final(self).files,
                notes: final(self).notes,
                music: final(self).music,
                environment: final(self).environment,
                weather: final(self).weather,
                map: final(self).map,
                shelf: final(self).shelf,
                shelf_scroll: final(self).shelf_scroll,
                ..*old(self)
            }),
            old(self).well_formed() ==> final(self).well_formed(),
    {
        match open_from_home(&mut self.nav, screen) {
            Opening::Paint => {},
            Opening::LoadFiles => self.files.enter(own("/")),
            Opening::LoadNotes => {
                self.notes.dirty = true;
            },
            Opening::Refresh => match screen {
                Screen::Music => self.music.reload(),
                Screen::Environment => self.environment.refresh(EnvironmentView::Loading),
                Screen::Weather => self.weather.refresh(WeatherView::Loading),
                Screen::Library => {
                    self.shelf.refresh(Shelf::Loading);
                    self.shelf_scroll = 0;
                },
                _ => self.map.remote.refresh(MapView::Loading),
            },
        }
    }
}

/// An answer repaints the page that it is for where that page is up, and no
/// other.
pub proof fn law_answers_repaint_their_page(nav: Nav, screen: Screen)
    ensures
        nav.repainted_on(screen).screen == nav.screen,
        nav.screen == screen ==> nav.repainted_on(screen).needs_redraw,
        nav.screen != screen ==> nav.repainted_on(screen) == nav,
{
}

/// Opening the music page asks for the track anew and forgets what was shown.
pub proof fn law_music_is_asked_for_anew(p: MusicPage)
    ensures
        reloaded(p).remote.dirty,
        reloaded(p).remote.view is Loading,
        reloaded(p).command is None,
        reloaded(p).status is None,
        reloaded(p).anchor is None,
        !reloaded(p).inline,
{
}

} // verus!
