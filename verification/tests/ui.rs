use t5s3_epaper_ui::io48::{dispatch, Outcome};
use t5s3_epaper_ui::keyboard::Key;
use t5s3_epaper_ui::pages::environment::EnvironmentView;
use t5s3_epaper_ui::pages::gps::MapView;
use t5s3_epaper_ui::pages::lora::Tab;
use t5s3_epaper_ui::pages::music::{MusicView, NowPlaying};
use t5s3_epaper_ui::pages::notes::Entry;
use t5s3_epaper_ui::pages::settings::{reader, system, MenuHit};
use t5s3_epaper_ui::pages::weather::{WeatherView, HOST};
use t5s3_epaper_ui::scene::{Scene, Shape};
use t5s3_epaper_ui::settings::choices::{FontSize, IconStyle, Io48Action};
use t5s3_epaper_ui::settings::Settings;
use t5s3_epaper_ui::state::Remote;
use t5s3_epaper_ui::ui::clock::{
    check_status, lora_stamp, redraw_for_sync, start_clock, time_of_day, ClockSync, StartClock, StatusBar,
};
use t5s3_epaper_ui::ui::fetch::{
    on_environment, on_weather, request_environment, request_weather, touch_fetched,
};
use t5s3_epaper_ui::ui::files_page::{shelf_down, shelf_up, FileEntry, FileKind, FilesPage};
use t5s3_epaper_ui::ui::lora_page::{push_capped, radio_step, LoraPage, RadioStep, Sending};
use t5s3_epaper_ui::ui::map_page::{
    missing_tiles, on_area_tile, Cached, MapCell, MapLoad, MapPage,
};
use t5s3_epaper_ui::ui::music_page::{playback, Anchor, MusicPage, MusicStatus, Progress, Repaint};
use t5s3_epaper_ui::ui::nav::{
    aux_button, brighten, dim, first_screen, open_from_home, settings_to_save, what_to_save,
    AuxAction, Edge, Nav, Opening, Save, Screen, Ticker,
};
use t5s3_epaper_ui::ui::notes_page::{EditorTouch, ListRepaint, ListSpot, NotesPage};
use t5s3_epaper_ui::ui::notices::{
    draw_beside_book, draw_gps_head, draw_over_image, draw_setting_clock,
};
use t5s3_epaper_ui::ui::pending::{route, saved_request, MusicCommand, Pending, Route};
use t5s3_epaper_ui::ui::power::{boot_sync, gauge_plan, keep_draining, settings_at_rest};
use t5s3_epaper_ui::ui::settings_page::{touch_menu, touch_reader, touch_system, SettingsRepaint};
use t5s3_epaper_ui::ui::wifi_page::{Keys, PasswordKey, WifiPage};
use t5s3_epaper_ui::wifi::{Event, Host, Link, Op, ScanEntry};

fn at(screen: Screen) -> Nav {
    Nav { screen, needs_redraw: false }
}

fn known() -> Settings {
    Settings::fresh(0, "home", "pw")
}

// ---- Screens --------------------------------------------------------------

#[test]
fn screens_are_remembered() {
    for i in 0..=19u8 {
        assert_eq!(Screen::from_index(i).to_index(), i);
    }
    assert_eq!(Screen::from_index(20), Screen::Home);
    assert_eq!(first_screen(false, 3), Screen::Home);
    assert_eq!(first_screen(true, 13), Screen::Music);
    assert!(Screen::Image.hides_status_bar());
    assert!(!Screen::Gps.hides_status_bar());
}

#[test]
fn home_button_leaves_and_saves() {
    let mut nav = at(Screen::NoteEdit);
    assert_eq!(nav.home_button(false), Save::Nothing);
    assert_eq!(nav.screen, Screen::NoteEdit);
    assert_eq!(nav.home_button(true), Save::Note);
    assert_eq!(nav, Nav { screen: Screen::Home, needs_redraw: true });
    let mut nav = at(Screen::Home);
    assert_eq!(nav.home_button(true), Save::Nothing);
    assert!(!nav.needs_redraw);
    assert_eq!(what_to_save(Screen::Reader), Save::Progress);
}

#[test]
fn held_button_acts_once() {
    let mut e = Edge::new();
    let acts: Vec<bool> = [true, true, true, false, true].iter().map(|&d| e.sample(d)).collect();
    assert_eq!(acts, vec![true, false, false, false, true]);
    let mut e = Edge::new();
    assert_eq!(aux_button(&mut e, true, Screen::Reader), AuxAction::TurnPage);
    assert_eq!(aux_button(&mut e, true, Screen::Reader), AuxAction::Nothing);
    assert_eq!(aux_button(&mut e, false, Screen::Home), AuxAction::Nothing);
    assert_eq!(aux_button(&mut e, true, Screen::Home), AuxAction::Dispatch);
}

#[test]
fn ticker_fires_every_so_often() {
    let mut t = Ticker { count: 0 };
    let fired: Vec<bool> = (0..6).map(|_| t.tick(3)).collect();
    assert_eq!(fired, vec![false, false, true, false, false, true]);
}

#[test]
fn pages_are_opened_from_home() {
    let mut nav = at(Screen::Home);
    assert_eq!(open_from_home(&mut nav, Screen::Files), Opening::LoadFiles);
    assert!(!nav.needs_redraw);
    assert_eq!(open_from_home(&mut nav, Screen::Notes), Opening::LoadNotes);
    assert!(!nav.needs_redraw);
    assert_eq!(open_from_home(&mut nav, Screen::Weather), Opening::Refresh);
    assert!(nav.needs_redraw);
    assert_eq!(open_from_home(&mut nav, Screen::Info), Opening::Paint);
    assert_eq!(nav.screen, Screen::Info);
}

#[test]
fn settings_are_written_on_leaving() {
    let mut dirty = true;
    assert!(!settings_to_save(&mut dirty, Screen::SettingsWifi));
    assert!(dirty);
    assert!(settings_to_save(&mut dirty, Screen::Home));
    assert!(!dirty);
    assert!(!settings_to_save(&mut dirty, Screen::Home));
}

#[test]
fn front_light_steps() {
    assert_eq!(dim(5, 10), 0);
    assert_eq!(dim(50, 10), 40);
    assert_eq!(brighten(95, 10), 100);
    assert_eq!(brighten(40, 10), 50);
    assert_eq!(brighten(250, 10), 100);
}

// ---- The clock ------------------------------------------------------------

#[test]
fn clock_at_the_start() {
    assert_eq!(start_clock(true, Some(5)), StartClock::Kept);
    assert_eq!(start_clock(false, Some(5)), StartClock::Restore(5_000_000));
    assert_eq!(start_clock(false, None), StartClock::Lost);
    assert!(boot_sync(false, &known()));
    assert!(!boot_sync(true, &known()));
    assert!(!boot_sync(false, &Settings::fresh(0, "", "")));
}

#[test]
fn retries_slow_down_and_recover() {
    let mut c = ClockSync::new(false, 0);
    let mut waits = Vec::new();
    for i in 0..8 {
        waits.push(c.retry_secs);
        c.on_time_synced(false, i);
    }
    assert_eq!(waits, vec![120, 240, 480, 960, 1920, 3840, 7680, 14400]);
    assert_eq!(c.last_resync_secs, 7);
    c.on_joined();
    assert_eq!(c.retry_secs, 120);
    c.on_time_synced(false, 9);
    c.on_time_synced(true, 10);
    assert!(c.synced);
    assert_eq!(c.retry_secs, 120);
    c.on_time_synced(false, 11);
    assert!(c.synced);
}

#[test]
fn clock_is_set_when_due() {
    let mut link = Link::new();
    let mut pending = None;
    let mut c = ClockSync::new(false, 100);
    c.resync(219, &known(), &mut pending, &mut link);
    assert!(pending.is_none());
    c.resync(220, &Settings::fresh(0, "", ""), &mut pending, &mut link);
    assert!(pending.is_none());
    c.resync(220, &known(), &mut pending, &mut link);
    assert!(matches!(pending, Some(Pending::Resync)));
    assert_eq!(c.last_resync_secs, 220);
    let req = link.take_request().unwrap();
    assert_eq!(req.ssid, "home");
    assert_eq!(req.password, "pw");
    assert!(matches!(req.op, Op::SyncTime));
    c.resync(9_999_999, &known(), &mut pending, &mut link);
    assert!(link.take_request().is_none());
}

#[test]
fn times_of_the_day() {
    assert_eq!(time_of_day(1_700_000_000, 0), (22, 13, 20));
    assert_eq!(time_of_day(1_700_000_000, -7), (15, 13, 20));
    assert_eq!(time_of_day(1_700_000_000, 2), (0, 13, 20));
    assert_eq!(time_of_day(0, -1), (23, 0, 0));
}

#[test]
fn checks_are_reported() {
    assert_eq!(check_status(true), "internet ok - clock synced");
    assert_eq!(check_status(false), "check failed - no internet?");
    let mut nav = at(Screen::SettingsWifi);
    redraw_for_sync(&mut nav, false, false);
    assert!(!nav.needs_redraw);
    redraw_for_sync(&mut nav, false, true);
    assert!(nav.needs_redraw);
    let mut nav = at(Screen::Home);
    redraw_for_sync(&mut nav, false, true);
    assert!(!nav.needs_redraw);
    redraw_for_sync(&mut nav, true, false);
    assert!(nav.needs_redraw);
}

#[test]
fn status_bar_follows_the_minute() {
    let mut bar = StatusBar::new();
    assert!(!bar.minute_passed(None));
    assert!(bar.minute_passed(Some((12, 30))));
    assert!(!bar.minute_passed(Some((12, 30))));
    assert!(bar.minute_passed(Some((12, 31))));
    bar.painted(None);
    assert_eq!(bar.minute, 60);
    bar.time_painted(Some((1, 2)));
    assert_eq!(bar.minute, 2);
}

#[test]
fn messages_are_stamped() {
    assert_eq!(lora_stamp(None, true), "");
    assert_eq!(lora_stamp(Some((9, 5, 7)), true), "[09:05:07] ");
    assert_eq!(lora_stamp(Some((9, 5, 7)), false), "[9:05:07am] ");
    assert_eq!(lora_stamp(Some((0, 0, 0)), false), "[12:00:00am] ");
    assert_eq!(lora_stamp(Some((12, 0, 0)), false), "[12:00:00pm] ");
    assert_eq!(lora_stamp(Some((23, 59, 1)), false), "[11:59:01pm] ");
}

// ---- Answers --------------------------------------------------------------

#[test]
fn answers_are_routed() {
    let mut p = Some(Pending::SyncCheck);
    assert!(matches!(route(&Event::TimeSynced(None), &mut p), Route::Time { check: true }));
    assert!(p.is_none());
    let mut p = Some(Pending::Resync);
    assert!(matches!(route(&Event::TimeSynced(None), &mut p), Route::Time { check: false }));
    let mut p = Some(Pending::Join { reconnect: true });
    assert!(matches!(route(&Event::JoinDone(false), &mut p), Route::Join { reconnect: true }));
    let mut p = Some(Pending::Weather);
    assert!(matches!(route(&Event::GotBody(None), &mut p), Route::Weather));
    let mut p = Some(Pending::Environment);
    assert!(matches!(route(&Event::GotBody(None), &mut p), Route::Environment));
    let mut p = Some(Pending::MapTile { key: 1, dx: 2, dy: 3 });
    assert!(matches!(
        route(&Event::GotBody(None), &mut p),
        Route::MapTile { key: 1, dx: 2, dy: 3 }
    ));
    let mut p = None;
    assert!(matches!(route(&Event::GotBody(None), &mut p), Route::Dropped));
    let mut p = Some(Pending::Scan);
    assert!(matches!(route(&Event::ScanDone(None), &mut p), Route::Scan));
    let mut p = Some(Pending::Scan);
    assert!(matches!(
        route(&Event::MusicDone(None), &mut p),
        Route::Music { inline: false, command: None }
    ));
}

#[test]
fn area_cells_are_counted() {
    let mut p = Some(Pending::MapArea { total: 40, done: 0 });
    let tile = Event::Tile { key: 5, body: vec![1] };
    assert!(matches!(route(&tile, &mut p), Route::AreaTile { total: 40, done: 1 }));
    assert!(matches!(p, Some(Pending::MapArea { total: 40, done: 1 })));
    let done = Event::DownloadDone { fetched: 1 };
    assert!(matches!(route(&done, &mut p), Route::AreaDone { total: 40 }));
    assert!(p.is_none());
    assert!(matches!(route(&tile, &mut p), Route::Dropped));
    assert_eq!(on_area_tile(40, 0, at(Screen::Gps)), (1, false));
    assert_eq!(on_area_tile(40, 1, at(Screen::Gps)), (2, true));
    assert_eq!(on_area_tile(40, 1, at(Screen::Home)), (2, false));
    assert_eq!(on_area_tile(7, 2, at(Screen::Gps)), (3, true));
    assert!(keep_draining(&Some(tile)));
    assert!(!keep_draining(&Some(done)));
    assert!(!keep_draining(&None));
}

// ---- Wi-Fi ----------------------------------------------------------------

fn keys() -> Keys {
    Keys { symbols: true, shift: true }
}

fn net(ssid: &str, secured: bool) -> ScanEntry {
    ScanEntry { ssid: String::from(ssid), rssi: -50, secured }
}

fn scanned() -> WifiPage {
    let mut p = WifiPage::new();
    p.on_scan_done(Some(vec![net("home", true), net("cafe", false), net("neighbour", true)]));
    p
}

#[test]
fn scanning() {
    let mut p = WifiPage::new();
    assert_eq!(p.status, "tap Scan to find networks");
    p.tap_scan();
    assert_eq!(p.status, "scanning...");
    let mut link = Link::new();
    let mut pending = None;
    p.request(at(Screen::Home), &known(), &mut pending, &mut link);
    assert!(pending.is_none());
    let painting = Nav { screen: Screen::SettingsWifi, needs_redraw: true };
    p.request(painting, &known(), &mut pending, &mut link);
    assert!(pending.is_none());
    p.request(at(Screen::SettingsWifi), &known(), &mut pending, &mut link);
    assert!(matches!(pending, Some(Pending::Scan)));
    assert!(!p.scan_dirty);
    assert!(matches!(link.take_request().unwrap().op, Op::Scan));
    p.on_scan_done(Some(Vec::new()));
    assert_eq!(p.status, "no networks found");
    p.on_scan_done(None);
    assert_eq!(p.status, "scan failed");
    assert_eq!(scanned().status, "3 networks - tap one to join");
    p.open();
    assert_eq!(p.status, "tap Scan to find networks");
}

#[test]
fn joining_a_known_network() {
    let mut p = scanned();
    let mut k = keys();
    let mut s = known();
    assert!(p.tap_network(0, &s, &mut k));
    assert_eq!(p.status, "reconnecting...");
    assert_eq!(p.pw_buf, "pw");
    assert!(p.join_dirty && p.reconnect);
    assert_eq!(k, keys());
    let mut link = Link::new();
    let mut pending = None;
    p.request(at(Screen::SettingsWifi), &s, &mut pending, &mut link);
    assert!(matches!(pending, Some(Pending::Join { reconnect: true })));
    let req = link.take_request().unwrap();
    assert_eq!((req.ssid.as_str(), req.password.as_str()), ("home", "pw"));
    let mut dirty = false;
    p.on_join_done(false, true, &mut s, &mut dirty, &mut k);
    assert_eq!(p.status, "reconnect failed - re-enter password");
    assert!(p.pw_mode && !dirty);
    assert_eq!(k, Keys { symbols: false, shift: false });
}

#[test]
fn joining_an_open_network() {
    let mut p = scanned();
    let mut k = keys();
    let mut s = known();
    assert!(p.tap_network(1, &s, &mut k));
    assert_eq!(p.status, "connecting...");
    assert!(p.join_dirty && !p.pw_mode);
    let mut dirty = false;
    p.on_join_done(false, false, &mut s, &mut dirty, &mut k);
    assert_eq!(p.status, "join failed");
    assert!(!p.pw_mode);
    assert_eq!(s.saved_wifi_password("cafe"), None);
    p.on_join_done(true, false, &mut s, &mut dirty, &mut k);
    assert_eq!(p.status, "connected: cafe");
    assert!(dirty);
    assert_eq!(s.wifi_ssid(), "cafe");
    assert_eq!(s.saved_wifi_password("cafe"), Some(""));
    assert!(!p.tap_network(9, &s, &mut k));
}

#[test]
fn typing_a_passphrase() {
    let mut p = scanned();
    let mut k = keys();
    let mut s = known();
    p.tap_network(2, &s, &mut k);
    assert_eq!(p.status, "enter password, then SAVE");
    assert!(p.pw_mode);
    assert_eq!(k, Keys { symbols: false, shift: false });
    assert_eq!(p.password_key(Key::Shift, &mut k), PasswordKey::Layer);
    assert!(k.shift);
    for _ in 0..70 {
        assert_eq!(p.password_key(Key::Char('A'), &mut k), PasswordKey::Typed);
    }
    assert_eq!(p.pw_buf.len(), 63);
    p.password_key(Key::Backspace, &mut k);
    p.password_key(Key::Space, &mut k);
    assert!(p.pw_buf.ends_with("A "));
    assert_eq!(p.password_key(Key::Enter, &mut k), PasswordKey::Join);
    assert!(!p.pw_mode && p.join_dirty);
    let mut dirty = false;
    p.on_join_done(false, false, &mut s, &mut dirty, &mut k);
    assert_eq!(p.status, "join failed - check password");
    assert_eq!(p.pw_buf.len(), 63);
    p.cancel_password();
    assert_eq!(p.status, "join cancelled");
    assert!(!p.pw_mode);
}

#[test]
fn checking_and_forgetting() {
    let mut p = scanned();
    p.tap_sync(&Settings::fresh(0, "", ""));
    assert_eq!(p.status, "no saved network - join one first");
    p.tap_sync(&known());
    assert_eq!(p.status, "checking internet...");
    let mut link = Link::new();
    let mut pending = None;
    p.request(at(Screen::SettingsWifi), &known(), &mut pending, &mut link);
    assert!(matches!(pending, Some(Pending::SyncCheck)));
    p.on_checked(true);
    assert_eq!(p.status, "internet ok - clock synced");
    let mut s = known();
    let mut dirty = true;
    assert!(p.tap_forget(0, &mut s, &mut dirty));
    assert_eq!(p.status, "forgot home");
    assert_eq!(s.saved_wifi_password("home"), None);
    assert!(!dirty);
    assert!(!p.tap_forget(7, &mut s, &mut dirty));
    let req = saved_request(&known(), Op::Scan);
    assert_eq!(req.ssid, "home");
}

// ---- Fetched pages --------------------------------------------------------

#[test]
fn environment_is_fetched_once() {
    let mut page = Remote::new(EnvironmentView::Loading, true);
    let mut link = Link::new();
    let mut pending = None;
    let nav = at(Screen::Environment);
    request_environment(&mut page, nav, &known(), &mut pending, &mut link);
    assert!(matches!(pending, Some(Pending::Environment)));
    assert!(!page.is_dirty());
    match link.take_request().unwrap().op {
        Op::Get { host: Host::Server, path, max_body } => {
            assert_eq!(path, "/api/sensors");
            assert_eq!(max_body, 8192);
        }
        _ => panic!("another request"),
    }
    let mut nav = nav;
    on_environment(&mut page, None, &mut nav);
    assert!(matches!(page.view, EnvironmentView::Error));
    assert!(nav.needs_redraw);
}

#[test]
fn weather_needs_a_position() {
    let mut page = Remote::new(WeatherView::Loading, true);
    let mut link = Link::new();
    let mut pending = None;
    let mut nav = at(Screen::Weather);
    request_weather(&mut page, None, &mut nav, &known(), &mut pending, &mut link);
    assert!(matches!(page.view, WeatherView::NoFix));
    assert!(nav.needs_redraw && !page.is_dirty() && pending.is_none());
    page.refresh(WeatherView::Loading);
    let mut nav = at(Screen::Weather);
    let place = Some(("1.0000", "2.0000"));
    request_weather(&mut page, place, &mut nav, &known(), &mut pending, &mut link);
    assert!(matches!(pending, Some(Pending::Weather)));
    match link.take_request().unwrap().op {
        Op::Get { host: Host::External(h), path, max_body } => {
            assert_eq!(h, HOST);
            assert!(path.starts_with("/v1/forecast?latitude=1.0000&longitude=2.0000&current="));
            assert_eq!(max_body, 16384);
        }
        _ => panic!("another request"),
    }
    let mut nav = at(Screen::Home);
    on_weather(&mut page, None, &mut nav);
    assert!(matches!(page.view, WeatherView::Error));
    assert!(!nav.needs_redraw);
    let mut nav = at(Screen::Weather);
    assert!(touch_fetched(&mut nav, false));
    assert_eq!(nav.screen, Screen::Weather);
    assert!(!touch_fetched(&mut nav, true));
    assert_eq!(nav.screen, Screen::Home);
}

// ---- Music ----------------------------------------------------------------

fn next_track() -> MusicCommand {
    MusicCommand { path: "/api/next", changes_art: true, changes_display: true }
}

fn volume() -> MusicCommand {
    MusicCommand { path: "/api/volume-up", changes_art: false, changes_display: false }
}

#[test]
fn music_command_is_sent() {
    let mut page = MusicPage::new(false);
    page.press(next_track());
    assert_eq!(page.status, Some(MusicStatus::Contacting));
    assert_eq!(page.status.unwrap().text(), "contacting server...");
    let mut link = Link::new();
    let mut pending = None;
    page.request(at(Screen::Music), &known(), &mut pending, &mut link);
    assert!(matches!(pending, Some(Pending::Music { inline: true, command: Some(_) })));
    assert!(!page.remote.is_dirty() && page.command.is_none() && !page.inline);
    match link.take_request().unwrap().op {
        Op::Music { command } => assert_eq!(command, Some("/api/next")),
        _ => panic!("another request"),
    }
}

#[test]
fn music_answers_repaint_what_changed() {
    let mut page = MusicPage::new(true);
    let mut nav = at(Screen::Music);
    let r = page.on_done(Some(MusicView::Idle), None, false, None, &mut nav);
    assert_eq!(r, Repaint::Nothing);
    assert!(nav.needs_redraw && page.status.is_none());
    let mut nav = at(Screen::Music);
    let r = page.on_done(Some(MusicView::Idle), None, true, Some(next_track()), &mut nav);
    assert_eq!(r, Repaint::Nothing);
    assert!(nav.needs_redraw);
    assert_eq!(page.status, Some(MusicStatus::Done));
    let pause = MusicCommand { path: "/p", changes_art: false, changes_display: true };
    let mut nav = at(Screen::Music);
    let r = page.on_done(Some(MusicView::Idle), None, true, Some(pause), &mut nav);
    assert_eq!(r, Repaint::Body);
    assert!(!nav.needs_redraw);
    let r = page.on_done(Some(MusicView::Idle), None, true, Some(volume()), &mut nav);
    assert_eq!(r, Repaint::StatusLine);
    let r = page.on_done(None, None, true, Some(volume()), &mut nav);
    assert_eq!(r, Repaint::StatusLine);
    assert_eq!(page.status, Some(MusicStatus::Failed));
    assert!(matches!(page.remote.view, MusicView::Idle));
    let mut away = at(Screen::Home);
    assert_eq!(page.on_done(None, None, true, None, &mut away), Repaint::Nothing);
    page.on_done(None, None, false, None, &mut nav);
    assert!(matches!(page.remote.view, MusicView::Error));
    assert!(nav.needs_redraw);
}

#[test]
fn music_position_is_told() {
    let mut page = MusicPage::new(false);
    page.anchor = Some(Anchor { base_secs: 10, duration_secs: 20, at_us: 1_000_000 });
    let nav = at(Screen::Music);
    assert_eq!(page.tick(nav, 2, 4_900_000), Progress::Nothing);
    assert_eq!(page.tick(nav, 2, 4_900_000), Progress::Show(13, 20));
    assert_eq!(page.tick(at(Screen::Home), 1, 0), Progress::Nothing);
    assert_eq!(page.tick(nav, 1, 0), Progress::Show(10, 20));
    assert_eq!(page.tick(nav, 1, 11_000_000), Progress::Ended);
    assert!(page.anchor.is_none() && page.remote.is_dirty());
    assert_eq!(page.tick(nav, 1, 12_000_000), Progress::Nothing);
    page.status = Some(MusicStatus::Done);
    assert!(!page.tick_status(nav, 2));
    assert!(page.tick_status(nav, 2));
    assert!(page.status.is_none());
    page.reload();
    assert!(matches!(page.remote.view, MusicView::Loading));
}

#[test]
fn positions_are_followed_while_a_track_plays() {
    let track = |is_playing, progress_secs, duration_secs| {
        MusicView::Playing(NowPlaying {
            track: String::new(),
            artist: String::new(),
            album: String::new(),
            is_playing,
            progress_secs,
            duration_secs,
        })
    };
    assert_eq!(
        playback(&track(true, Some(3), Some(9)), 5),
        Some(Anchor { base_secs: 3, duration_secs: 9, at_us: 5 })
    );
    assert_eq!(playback(&track(false, Some(3), Some(9)), 5), None);
    assert_eq!(playback(&track(true, None, Some(9)), 5), None);
    assert_eq!(playback(&track(true, Some(3), None), 5), None);
    assert_eq!(playback(&MusicView::Idle, 5), None);
    let mut page = MusicPage::new(false);
    page.advance(4);
    assert!(matches!(page.remote.view, MusicView::Loading));
    page.remote.view = track(true, Some(3), Some(9));
    page.advance(4);
    assert!(matches!(&page.remote.view, MusicView::Playing(p) if p.progress_secs == Some(4)));
}

// ---- The map --------------------------------------------------------------

const HERE: MapCell = MapCell { key: 7, dx: 3, dy: 4 };

#[test]
fn map_comes_from_the_card_first() {
    let mut page = MapPage::new(true);
    let mut link = Link::new();
    let mut pending = None;
    assert!(page.wanted(at(Screen::Gps)));
    assert!(!page.wanted(at(Screen::Home)));
    let r = page.load(Some(HERE), Cached::Decoded, "/p", &known(), &mut pending, &mut link);
    assert_eq!(r, MapLoad::Paint);
    assert!(matches!(page.remote.view, MapView::Ready { dx: 3, dy: 4 }));
    assert_eq!(page.shown_cell, Some(7));
    assert!(pending.is_none() && !page.remote.is_dirty());
}

#[test]
fn map_is_fetched_where_the_card_lacks_it() {
    let mut page = MapPage::new(true);
    let mut link = Link::new();
    let mut pending = Some(Pending::Scan);
    let r = page.load(Some(HERE), Cached::Missing, "/p", &known(), &mut pending, &mut link);
    assert_eq!(r, MapLoad::Wait);
    assert!(page.remote.is_dirty());
    pending = None;
    let r = page.load(Some(HERE), Cached::Corrupt, "/p", &known(), &mut pending, &mut link);
    assert_eq!(r, MapLoad::Paint);
    assert!(matches!(pending, Some(Pending::MapTile { key: 7, dx: 3, dy: 4 })));
    assert!(matches!(page.remote.view, MapView::Loading));
    match link.take_request().unwrap().op {
        Op::Get { path, max_body, .. } => {
            assert_eq!(path, "/p");
            assert_eq!(max_body, 256 * 1024);
        }
        _ => panic!("another request"),
    }
    assert!(page.on_map(HERE, true));
    assert!(!page.on_map(HERE, false));
    assert!(matches!(page.remote.view, MapView::Error));
    page.remote.invalidate();
    let r = page.load(None, Cached::Missing, "", &known(), &mut pending, &mut link);
    assert_eq!(r, MapLoad::Paint);
    assert!(matches!(page.remote.view, MapView::NoFix));
    assert_eq!(page.shown_cell, None);
}

#[test]
fn marker_follows_the_position() {
    let mut page = MapPage::new(false);
    assert!(!page.follow(HERE));
    page.on_map(HERE, true);
    assert!(!page.follow(MapCell { key: 8, dx: 0, dy: 0 }));
    assert!(page.remote.is_dirty());
    page.remote.clear();
    let moved = MapCell { key: 7, dx: -3, dy: 10 };
    for _ in 0..399 {
        assert!(!page.follow(moved));
    }
    assert!(!page.follow(MapCell { key: 7, dx: 3, dy: 15 }));
    assert!(page.follow(moved));
    assert!(matches!(page.remote.view, MapView::Ready { dx: -3, dy: 10 }));
    assert_eq!(page.marker_ticks, 0);
    assert_eq!(page.shown_offset, (-3, 10));
}

#[test]
fn areas_are_saved() {
    let mut page = MapPage::new(false);
    let mut nav = at(Screen::Gps);
    page.touch(&mut nav, false, true, false);
    assert!(page.download);
    let mut link = Link::new();
    let mut pending = None;
    let km2 = || String::from("700");
    assert!(page.save_area(Some(Vec::new()), km2(), &known(), &mut pending, &mut link));
    assert!(matches!(&page.remote.view, MapView::Saved { km2, new_tiles: 0 } if km2 == "700"));
    assert!(!page.download && pending.is_none());
    assert!(!page.save_area(None, km2(), &known(), &mut pending, &mut link));
    let tiles = vec![(1u32, String::from("/a")), (2, String::from("/b"))];
    assert!(page.save_area(Some(tiles), km2(), &known(), &mut pending, &mut link));
    assert!(matches!(page.remote.view, MapView::Downloading(2)));
    assert!(matches!(pending, Some(Pending::MapArea { total: 2, done: 0 })));
    match link.take_request().unwrap().op {
        Op::DownloadMaps { tiles, .. } => assert_eq!(tiles.len(), 2),
        _ => panic!("another request"),
    }
    page.on_download_done(2);
    assert!(matches!(&page.remote.view, MapView::Saved { km2, new_tiles: 2 } if km2 == "700"));
    assert!(page.remote.is_dirty());
}

#[test]
fn only_lacking_cells_are_fetched() {
    let names = vec![String::from("0000000a.jpg"), String::from("x"), String::from("0000000C.JPG")];
    assert_eq!(missing_tiles(&vec![9, 10, 11, 12], &names), vec![9, 11]);
    assert_eq!(missing_tiles(&vec![9], &Vec::new()), vec![9]);
}

#[test]
fn map_page_is_touched() {
    let mut page = MapPage::new(false);
    let mut nav = at(Screen::Gps);
    page.touch(&mut nav, false, false, false);
    assert!(page.remote.is_dirty());
    page.zoom = 2;
    page.touch(&mut nav, false, false, true);
    assert_eq!(nav.screen, Screen::MapFull);
    assert_eq!(page.zoom, 0);
    for _ in 0..5 {
        page.touch_full(&mut nav, 0, 900);
    }
    assert_eq!(page.zoom, 2);
    for _ in 0..9 {
        page.touch_full(&mut nav, 200, 900);
    }
    assert_eq!(page.zoom, -1);
    page.touch_full(&mut nav, 200, 10);
    assert_eq!(nav.screen, Screen::MapFull);
    page.touch_full(&mut nav, 500, 900);
    assert_eq!(nav.screen, Screen::Gps);
    page.touch(&mut nav, true, false, false);
    assert_eq!(nav.screen, Screen::Home);
}

// ---- Notes ----------------------------------------------------------------

fn notes(n: usize) -> NotesPage {
    let mut p = NotesPage::new(true);
    let entries = (0..n)
        .map(|i| Entry { name: format!("NOTE{:04}.TXT", i + 1), preview: String::new() })
        .collect();
    p.on_list(Some(entries), &mut at(Screen::Notes));
    p
}

#[test]
fn notes_are_listed_and_scrolled() {
    let mut p = notes(20);
    assert_eq!(p.status, "20 notes");
    assert!(!p.dirty);
    let mut nav = at(Screen::Notes);
    let mut k = keys();
    assert_eq!(p.spot(200, 800, false), ListSpot::Down);
    assert_eq!(p.touch_list(ListSpot::Down, &mut nav, &mut k), ListRepaint::List);
    assert_eq!(p.scroll, 14);
    assert_eq!(p.touch_list(ListSpot::Down, &mut nav, &mut k), ListRepaint::Nothing);
    assert_eq!(p.scroll, 14);
    assert_eq!(p.spot(20, 150, false), ListSpot::Note(14));
    assert_eq!(p.touch_list(ListSpot::Up, &mut nav, &mut k), ListRepaint::List);
    assert_eq!(p.touch_list(ListSpot::Up, &mut nav, &mut k), ListRepaint::Nothing);
    assert_eq!(p.scroll, 0);
    assert_eq!(p.spot(0, 0, true), ListSpot::Back);
    p.touch_list(ListSpot::Back, &mut nav, &mut k);
    assert_eq!(nav.screen, Screen::Home);
    let mut nav = at(Screen::Notes);
    p.on_list(None, &mut nav);
    assert_eq!(p.status, "SD read failed");
    assert!(p.entries.is_empty() && nav.needs_redraw);
}

#[test]
fn notes_are_opened() {
    let mut p = notes(3);
    let mut nav = at(Screen::Notes);
    let mut k = keys();
    p.touch_list(ListSpot::Note(1), &mut nav, &mut k);
    assert_eq!(p.name, "NOTE0002.TXT");
    assert!(p.note_dirty && !nav.needs_redraw);
    assert_eq!(nav.screen, Screen::NoteEdit);
    assert_eq!(k, Keys { symbols: false, shift: false });
    p.on_note(Some(String::from("text")), &mut nav);
    assert_eq!(p.text, "text");
    assert!(nav.needs_redraw && !p.note_dirty);
    p.on_note(None, &mut nav);
    assert_eq!(p.status, "note read failed");
    assert_eq!(nav.screen, Screen::Notes);
    let mut nav = at(Screen::Notes);
    assert_eq!(p.touch_list(ListSpot::New, &mut nav, &mut k), ListRepaint::Nothing);
    assert_eq!(p.name, "NOTE0004.TXT");
    assert_eq!(p.text, "");
    assert!(nav.needs_redraw);
    let mut full = notes(9999);
    let mut nav = at(Screen::Notes);
    assert_eq!(full.touch_list(ListSpot::New, &mut nav, &mut k), ListRepaint::Footer);
    assert_eq!(full.status, "notes full");
    assert_eq!(nav.screen, Screen::Notes);
}

#[test]
fn deleting_takes_two_touches() {
    let mut p = notes(1);
    let mut nav = at(Screen::NoteEdit);
    assert_eq!(p.touch_editor(&mut nav, false, true), EditorTouch::Arm);
    assert_eq!(p.touch_editor(&mut nav, false, false), EditorTouch::Type { disarmed: true });
    assert_eq!(p.touch_editor(&mut nav, false, false), EditorTouch::Type { disarmed: false });
    assert_eq!(p.touch_editor(&mut nav, false, true), EditorTouch::Arm);
    assert_eq!(nav.screen, Screen::NoteEdit);
    assert_eq!(p.touch_editor(&mut nav, false, true), EditorTouch::DeleteAndLeave);
    assert_eq!(nav.screen, Screen::Notes);
    assert!(p.dirty);
    let mut nav = at(Screen::NoteEdit);
    assert_eq!(p.touch_editor(&mut nav, true, false), EditorTouch::SaveAndLeave);
    assert_eq!(nav.screen, Screen::Notes);
}

// ---- LoRa -----------------------------------------------------------------

#[test]
fn messages_are_sent() {
    let mut p = LoraPage::new(Vec::new(), Vec::new());
    assert_eq!(p.tab, Tab::Info);
    assert_eq!(p.status, "type a message, then SEND");
    assert!(!p.on_send(Sending::Sent, ""));
    assert_eq!(p.status, "nothing to send");
    for text in ["one", "two", "three", "f\u{fc}nf"] {
        p.message = String::from(text);
        assert!(p.on_send(Sending::Sent, "[t] "));
        assert_eq!(p.message, "");
    }
    assert_eq!(p.status, "sent 5 bytes");
    assert_eq!(p.sent, vec!["[t] two", "[t] three", "[t] f\u{fc}nf"]);
    p.message = String::from("x");
    assert!(p.on_send(Sending::Refused(String::from("busy")), ""));
    assert_eq!(p.status, "tx error: busy");
    assert_eq!(p.message, "x");
    assert!(!p.on_send(Sending::NoRadio, ""));
    assert_eq!(p.status, "radio not ready");
}

#[test]
fn messages_are_received_and_known() {
    let mut p = LoraPage::new(vec![5], vec![String::from("old")]);
    assert!(p.knows(5));
    assert!(!p.knows(6));
    p.on_receive(6, "[t] ", "hi", 2, -80);
    assert_eq!(p.status, "received 2 bytes (-80 dBm)");
    assert_eq!(p.received, vec!["old", "[t] hi"]);
    assert!(p.knows(6));
    p.on_receive(0, "", "own", 3, 0);
    assert!(!p.knows(0));
    for i in 0..120 {
        p.on_receive(100 + i, "", "m", 1, 0);
    }
    assert_eq!(p.received.len(), 120);
    assert_eq!(p.keys.len(), 120);
    assert!(!p.knows(6));
    assert!(p.knows(100));
    p.scroll_down();
    assert_eq!(p.scroll, 39);
    p.scroll_down();
    p.scroll_down();
    assert_eq!(p.scroll, 80);
    p.scroll_up();
    assert_eq!(p.scroll, 41);
    p.scroll_up();
    p.scroll_up();
    assert_eq!(p.scroll, 0);
    assert!(!p.tap_clear());
    assert!(p.disarm());
    assert!(!p.tap_clear());
    assert!(p.tap_clear());
    assert!(p.received.is_empty() && p.keys.is_empty());
    let mut list = vec![String::from("a")];
    push_capped(&mut list, String::from("b"), 1);
    assert_eq!(list, vec!["b"]);
}

#[test]
fn radio_is_on_while_wanted() {
    let mut tried = false;
    assert_eq!(radio_step(at(Screen::Home), false, false, &mut tried), RadioStep::Keep);
    assert_eq!(radio_step(at(Screen::Lora), false, false, &mut tried), RadioStep::Start);
    assert!(tried);
    assert_eq!(radio_step(at(Screen::Lora), false, false, &mut tried), RadioStep::Keep);
    assert_eq!(radio_step(at(Screen::Home), true, true, &mut tried), RadioStep::Keep);
    assert_eq!(radio_step(at(Screen::Home), false, true, &mut tried), RadioStep::Stop);
    assert!(!tried);
}

// ---- Files ----------------------------------------------------------------

fn file(name: &str, is_directory: bool) -> FileEntry {
    FileEntry { name: String::from(name), path: format!("/{}", name), is_directory, size: 12 }
}

#[test]
fn files_are_opened() {
    let mut p = FilesPage::new(true);
    let mut nav = at(Screen::Files);
    p.on_listing(Some(vec![file("dir", true), file("a.bmp", false), file("b.txt", false)]), &mut nav);
    assert_eq!(p.status, "3 items");
    assert!(nav.needs_redraw && !p.dirty);
    let mut nav = at(Screen::Files);
    assert!(!p.open_entry(0, FileKind::Other, &mut nav));
    assert_eq!(p.path, "/dir");
    assert!(p.dirty);
    assert!(!p.open_entry(1, FileKind::Image, &mut nav));
    assert_eq!(p.image_path, "/a.bmp");
    assert_eq!(nav.screen, Screen::Image);
    assert!(!p.open_entry(2, FileKind::Book, &mut nav));
    assert_eq!(p.reader_path, "/b.txt");
    assert_eq!(nav.screen, Screen::Reader);
    assert!(p.reader_dirty);
    assert!(p.open_entry(2, FileKind::Other, &mut nav));
    assert_eq!(p.status, "b.txt - 12 bytes");
    assert!(!p.open_entry(3, FileKind::Other, &mut nav));
    assert!(!p.leave_reader(&mut nav));
    assert_eq!(nav.screen, Screen::Files);
    p.open_book(String::from("/c"), Screen::Library, &mut nav);
    assert!(p.leave_reader(&mut nav));
    assert_eq!(nav.screen, Screen::Library);
    p.on_listing(None, &mut nav);
    assert_eq!(p.status, "SD read failed");
    p.enter(String::from("/x"));
    assert_eq!(p.path, "/x");
}

#[test]
fn listings_scroll() {
    let mut p = FilesPage::new(false);
    assert!(!p.scroll_up(10));
    assert!(p.scroll_down(10, 11));
    assert!(!p.scroll_down(10, 20));
    assert_eq!(p.scroll, 10);
    assert!(p.scroll_up(20));
    assert_eq!(p.scroll, 0);
    let mut shelf = 0;
    assert!(!shelf_up(&mut shelf, 4));
    assert!(shelf_down(&mut shelf, 4, 5));
    assert!(!shelf_down(&mut shelf, 4, 8));
    assert!(shelf_up(&mut shelf, 4));
    assert_eq!(shelf, 0);
}

// ---- Settings -------------------------------------------------------------

#[test]
fn settings_are_changed() {
    let mut s = Settings::fresh(-12, "", "");
    let mut dirty = false;
    let mut nav = at(Screen::SettingsSystem);
    let r = touch_system(Some(system::Hit::TzMinus), &mut s, &mut dirty, &mut nav);
    assert_eq!(r, SettingsRepaint::Timezone);
    assert_eq!(s.tz_offset_hours, -12);
    assert!(dirty);
    s.tz_offset_hours = 14;
    touch_system(Some(system::Hit::TzPlus), &mut s, &mut dirty, &mut nav);
    assert_eq!(s.tz_offset_hours, 14);
    touch_system(Some(system::Hit::TzMinus), &mut s, &mut dirty, &mut nav);
    assert_eq!(s.tz_offset_hours, 13);
    touch_system(Some(system::Hit::ToggleFormat), &mut s, &mut dirty, &mut nav);
    assert!(!s.time_24h);
    touch_system(Some(system::Hit::CycleIcons), &mut s, &mut dirty, &mut nav);
    assert_eq!(s.icon_style, IconStyle::Material);
    dirty = false;
    touch_system(None, &mut s, &mut dirty, &mut nav);
    touch_system(Some(system::Hit::Back), &mut s, &mut dirty, &mut nav);
    assert!(!dirty);
    assert_eq!(nav.screen, Screen::Settings);
    let r = touch_reader(Some(reader::Hit::CycleFontSize), &mut s, &mut dirty, &mut nav);
    assert_eq!(r, SettingsRepaint::FontSize);
    assert_eq!(s.reader_font_size, FontSize::Large);
    assert!(touch_menu(Some(MenuHit::Wifi), &mut nav));
    assert_eq!(nav.screen, Screen::SettingsWifi);
    assert!(!touch_menu(Some(MenuHit::Back), &mut nav));
    assert_eq!(nav.screen, Screen::Home);
}

#[test]
fn power() {
    let p = gauge_plan(true, 3000);
    assert!(p.exit_config_update);
    assert_eq!(p.program, Some(1620));
    assert_eq!(gauge_plan(false, 1620).program, None);
    let mut s = known();
    settings_at_rest(&mut s, 33);
    assert_eq!(s.brightness, 33);
    assert_eq!(s.wifi_ssid(), "home");
}

#[test]
fn presses_switch_the_light() {
    let mut level = 0;
    for expected in [30, 0, 30] {
        assert_eq!(dispatch(Io48Action::Backlight, &mut level, 30), Outcome::Done);
        assert_eq!(level, expected);
    }
    level = 0;
    dispatch(Io48Action::Backlight, &mut level, 0);
    assert_eq!(level, 50);
    assert_eq!(dispatch(Io48Action::LoraReceive, &mut level, 0), Outcome::OpenLoraRecv);
    assert_eq!(level, 50);
}

fn said(scene: &Scene) -> Vec<(String, i32, i32)> {
    scene
        .shapes
        .iter()
        .filter_map(|shape| match shape {
            Shape::Text { text, x, y, .. } => Some((text.clone(), *x, *y)),
            _ => None,
        })
        .collect()
}

#[test]
fn notices() {
    let mut scene = Scene::new();
    draw_gps_head(&mut scene, false);
    assert_eq!(
        said(&scene),
        vec![(String::from("GPS"), 270, 120), (String::from("no module detected"), 270, 400)]
    );
    let mut scene = Scene::new();
    draw_gps_head(&mut scene, true);
    assert_eq!(said(&scene).len(), 1);
    let mut scene = Scene::new();
    draw_over_image(&mut scene, true);
    assert_eq!(scene.shapes, vec![Shape::BackButton]);
    draw_over_image(&mut scene, false);
    assert_eq!(said(&scene), vec![(String::from("cannot display image"), 270, 400)]);
    let mut scene = Scene::new();
    draw_beside_book(&mut scene, Some("why"));
    assert_eq!(
        said(&scene),
        vec![(String::from("cannot open file"), 270, 380), (String::from("why"), 270, 420)]
    );
    let mut scene = Scene::new();
    draw_setting_clock(&mut scene);
    assert_eq!(said(&scene), vec![(String::from("syncing clock over wifi..."), 270, 400)]);
}
