use t5s3_epaper_ui::keyboard::{keyboard, Key};
use t5s3_epaper_ui::pages::environment::EnvironmentView;
use t5s3_epaper_ui::pages::lora::Tab;
use t5s3_epaper_ui::pages::music::MusicView;
use t5s3_epaper_ui::pages::weather::WeatherView;
use t5s3_epaper_ui::scene::{Scene, Shape};
use t5s3_epaper_ui::settings::Settings;
use t5s3_epaper_ui::text_field::{FieldEvent, Flush};
use t5s3_epaper_ui::ui::device::loads::Load;
use t5s3_epaper_ui::ui::device::ticks::BarPaint;
use t5s3_epaper_ui::ui::device::touch::{LoraTouch, Rest, WifiTouch};
use t5s3_epaper_ui::ui::device::{Device, Shelf};
use t5s3_epaper_ui::ui::lora_page::Sending;
use t5s3_epaper_ui::ui::music_page::{MusicStatus, Repaint};
use t5s3_epaper_ui::ui::nav::Screen;
use t5s3_epaper_ui::ui::notes_page::{EditorTouch, ListRepaint};
use t5s3_epaper_ui::ui::pending::{MusicCommand, Pending};
use t5s3_epaper_ui::ui::settings_page::SettingsRepaint;
use t5s3_epaper_ui::wifi::{Link, Op, ScanEntry, ServerPath};

fn on(screen: Screen) -> Device {
    let mut d = Device::start(
        Settings::fresh(0, "home", "pw"),
        screen,
        false,
        100,
        Vec::new(),
        Vec::new(),
    );
    d.nav.needs_redraw = false;
    d
}

fn words(s: &Scene) -> Vec<String> {
    s.shapes
        .iter()
        .filter_map(|shape| match shape {
            Shape::Text { text, .. } => Some(text.clone()),
            _ => None,
        })
        .collect()
}

/// Where a key of the plain letters lies.
fn at_key(symbols: bool, shift: bool, key: Key) -> (i32, i32) {
    let keys = keyboard(symbols, shift);
    let k = keys.iter().find(|k| k.key == key).unwrap();
    (k.x + k.w / 2, k.y + k.h / 2)
}

#[test]
fn start_loads_what_is_up() {
    let d = Device::start(
        Settings::fresh(0, "", ""),
        Screen::Music,
        true,
        7,
        vec![9],
        vec![String::from("m")],
    );
    assert!(d.nav.needs_redraw);
    assert!(d.music.remote.is_dirty());
    assert!(!d.environment.is_dirty() && !d.weather.is_dirty() && !d.map.remote.is_dirty());
    assert!(!d.notes.dirty && !d.files.dirty && !d.shelf.is_dirty());
    assert!(d.clock.synced);
    assert_eq!(d.clock.last_resync_secs, 7);
    assert!(d.lora.knows(9));
    assert!(d.pending.is_none());
}

#[test]
fn opening_pages_loads_them() {
    let mut d = on(Screen::Home);
    d.open_page(Screen::Files);
    assert!(d.files.dirty && !d.nav.needs_redraw);
    d.open_page(Screen::Notes);
    assert!(d.notes.dirty && !d.nav.needs_redraw);
    d.environment.view = EnvironmentView::Error;
    d.open_page(Screen::Environment);
    assert!(matches!(d.environment.view, EnvironmentView::Loading));
    assert!(d.environment.is_dirty() && d.nav.needs_redraw);
    d.shelf_scroll = 5;
    d.shelf.view = Shelf::Error;
    d.open_page(Screen::Library);
    assert!(matches!(d.shelf.view, Shelf::Loading));
    assert_eq!(d.shelf_scroll, 0);
    d.open_page(Screen::Gps);
    assert!(d.map.remote.is_dirty());
    d.open_page(Screen::Info);
    assert_eq!(d.nav.screen, Screen::Info);
}

#[test]
fn only_the_page_that_is_up_asks() {
    let mut d = on(Screen::Environment);
    d.music.remote.invalidate();
    let mut link = Link::new();
    d.request(None, &mut link);
    assert!(matches!(d.pending, Some(Pending::Environment)));
    assert!(d.music.remote.is_dirty() && !d.environment.is_dirty());
    assert!(matches!(link.take_request().unwrap().op, Op::Get { .. }));
    d.nav.screen = Screen::Music;
    d.request(None, &mut link);
    assert!(link.take_request().is_none());
    d.pending = None;
    d.request(None, &mut link);
    assert!(matches!(link.take_request().unwrap().op, Op::Music { command: None }));
    let mut d = on(Screen::Weather);
    d.request(None, &mut link);
    assert!(matches!(d.weather.view, WeatherView::NoFix));
    assert!(d.nav.needs_redraw);
    assert!(!d.area_wanted());
}

#[test]
fn joining_from_the_list() {
    let mut d = on(Screen::SettingsWifi);
    let mut link = Link::new();
    link.path = ServerPath::Lan;
    let net = ScanEntry { ssid: String::from("cafe"), rssi: -40, secured: true };
    d.on_scan(Some(vec![net]));
    assert!(d.nav.needs_redraw);
    assert_eq!(d.touch_wifi(100, 350, false), WifiTouch::Page);
    assert!(d.wifi.pw_mode);
    for c in ['q', 'w'] {
        let (x, y) = at_key(false, false, Key::Char(c));
        assert_eq!(d.touch_wifi(x, y, false), WifiTouch::Typed);
    }
    let (x, y) = at_key(false, false, Key::Shift);
    assert_eq!(d.touch_wifi(x, y, false), WifiTouch::Layer);
    let (x, y) = at_key(false, true, Key::Enter);
    assert_eq!(d.touch_wifi(x, y, false), WifiTouch::Page);
    assert_eq!(d.wifi.status, "connecting...");
    d.nav.needs_redraw = false;
    d.request(None, &mut link);
    let req = link.take_request().unwrap();
    assert_eq!((req.ssid.as_str(), req.password.as_str()), ("cafe", "qw"));
    d.clock.retry_secs = 480;
    d.pending = None;
    d.on_join(true, false, &mut link);
    assert_eq!(d.wifi.status, "connected: cafe");
    assert_eq!(d.settings.wifi_ssid(), "cafe");
    assert_eq!(d.settings.saved_wifi_password("cafe"), Some("qw"));
    assert!(d.settings_dirty);
    assert_eq!(d.clock.retry_secs, 120);
    assert_eq!(link.path, ServerPath::Unknown);
    assert_eq!(d.touch_wifi(100, 700, false), WifiTouch::Nothing);
    assert_eq!(d.touch_wifi(0, 0, true), WifiTouch::Page);
    assert_eq!(d.nav.screen, Screen::Settings);
}

#[test]
fn a_failed_join_keeps_the_way_to_the_server() {
    let mut d = on(Screen::Home);
    let mut link = Link::new();
    link.path = ServerPath::Lan;
    d.wifi.pw_buf = String::from("x");
    d.on_join(false, true, &mut link);
    assert_eq!(link.path, ServerPath::Lan);
    assert!(d.wifi.pw_mode && !d.nav.needs_redraw && !d.settings_dirty);
}

#[test]
fn checks_of_the_clock() {
    let mut d = on(Screen::SettingsWifi);
    d.on_time(false, true, 200);
    assert_eq!(d.wifi.status, "check failed - no internet?");
    assert!(d.nav.needs_redraw);
    assert_eq!(d.clock.retry_secs, 240);
    let mut d = on(Screen::Home);
    d.on_time(true, false, 200);
    assert_eq!(d.wifi.status, "tap Scan to find networks");
    assert!(d.clock.synced && d.nav.needs_redraw);
}

#[test]
fn plain_touches() {
    let mut d = on(Screen::Info);
    d.touch_plain(false);
    assert_eq!(d.nav.screen, Screen::Info);
    d.touch_plain(true);
    assert_eq!(d.nav.screen, Screen::Home);
    d.brightness = 5;
    assert!(d.touch_light(false, true, false, 10));
    assert_eq!(d.brightness, 0);
    assert!(d.touch_light(false, false, true, 10));
    assert_eq!(d.brightness, 10);
    assert!(!d.touch_light(false, false, false, 10));
    assert!(!d.touch_light(true, true, false, 10));
    assert_eq!(d.brightness, 10);
    assert_eq!(d.touch_sleep(false, true, false), Rest::Sleep);
    assert_eq!(d.touch_sleep(false, false, true), Rest::PowerOff);
    assert_eq!(d.touch_sleep(true, true, true), Rest::Awake);
    d.touch_image();
    assert_eq!(d.nav.screen, Screen::Files);
    d.touch_environment(false);
    assert!(d.environment.is_dirty());
    d.touch_weather(false);
    assert!(d.weather.is_dirty());
}

#[test]
fn the_shelf() {
    let mut d = on(Screen::Library);
    d.touch_shelf(false, false, true, None, 2);
    assert_eq!(d.shelf_scroll, 0);
    let books = (0..3).map(|i| format!("/b{}", i)).collect();
    d.shelf.view = Shelf::Ready(books);
    d.touch_shelf(false, false, true, None, 2);
    assert_eq!(d.shelf_scroll, 2);
    d.touch_shelf(false, false, true, None, 2);
    assert_eq!(d.shelf_scroll, 2);
    d.touch_shelf(false, true, false, None, 2);
    assert_eq!(d.shelf_scroll, 0);
    d.touch_shelf(false, false, false, Some(3), 2);
    assert_eq!(d.nav.screen, Screen::Library);
    d.touch_shelf(false, false, false, Some(1), 2);
    assert_eq!(d.nav.screen, Screen::Reader);
    assert_eq!(d.files.reader_path, "/b1");
    d.shelf.clear();
    d.leave_reader();
    assert_eq!(d.nav.screen, Screen::Library);
    assert!(d.shelf.is_dirty());
}

#[test]
fn settings_from_the_menu() {
    let mut d = on(Screen::Settings);
    d.wifi.pw_mode = true;
    d.touch_menu(100, 460, false);
    assert_eq!(d.nav.screen, Screen::SettingsWifi);
    assert!(!d.wifi.pw_mode);
    assert_eq!(d.touch_system(450, 220, false), SettingsRepaint::Timezone);
    assert_eq!(d.settings.tz_offset_hours, 1);
    assert!(d.settings_dirty);
    assert_eq!(d.touch_system(0, 0, true), SettingsRepaint::Nothing);
    assert_eq!(d.nav.screen, Screen::Settings);
    assert_eq!(d.touch_reader(300, 220, false), SettingsRepaint::FontSize);
    assert_eq!(d.touch_reader(0, 0, false), SettingsRepaint::Nothing);
}

#[test]
fn the_player() {
    let mut d = on(Screen::Music);
    d.music.remote.clear();
    let next = MusicCommand { path: "/next", changes_art: true, changes_display: true };
    assert_eq!(d.touch_music(false, Some(next)), Repaint::StatusLine);
    assert_eq!(d.music.status, Some(MusicStatus::Contacting));
    assert!(d.music.remote.is_dirty() && !d.nav.needs_redraw);
    assert_eq!(d.touch_music(false, None), Repaint::Nothing);
    assert!(matches!(d.music.remote.view, MusicView::Loading));
    assert!(d.nav.needs_redraw && d.music.command.is_none());
    d.touch_music(true, None);
    assert_eq!(d.nav.screen, Screen::Home);
}

#[test]
fn the_map() {
    let mut d = on(Screen::Gps);
    d.touch_gps(360, 520, false);
    assert!(d.area_wanted());
    d.pending = Some(Pending::Scan);
    assert!(!d.area_wanted());
    d.touch_gps(50, 520, false);
    assert_eq!(d.nav.screen, Screen::MapFull);
}

#[test]
fn a_note_is_typed() {
    let mut d = on(Screen::Notes);
    assert_eq!(d.touch_notes(400, 800, false), ListRepaint::Nothing);
    assert_eq!(d.nav.screen, Screen::NoteEdit);
    assert_eq!(d.notes.name, "NOTE0001.TXT");
    d.nav.needs_redraw = false;
    assert_eq!(d.touch_editor(100, 700, false), EditorTouch::Type { disarmed: false });
    let mut scene = Scene::new();
    let (x, y) = at_key(false, false, Key::Char('h'));
    assert!(d.type_note(&mut scene, x, y, 10).0 == FieldEvent::Changed);
    let (x, y) = at_key(false, false, Key::Enter);
    assert!(d.type_note(&mut scene, x, y, 11).0 == FieldEvent::Changed);
    assert_eq!(d.notes.text, "h\n");
    assert!(matches!(d.end_pass(&mut scene, 12), Some(Flush::Quick(_))));
    assert!(d.end_pass(&mut scene, 13).is_none());
    assert!(matches!(d.end_pass(&mut scene, 400_012), Some(Flush::Fast(_))));
    let (x, y) = at_key(false, false, Key::Symbols);
    let r = d.type_note(&mut scene, x, y, 14);
    assert!(r.0 == FieldEvent::Ignored && matches!(r.1, Some(Flush::Fast(_))));
    assert!(d.editor.symbols);
    assert_eq!(d.touch_editor(0, 0, true), EditorTouch::SaveAndLeave);
    assert!(d.notes.dirty);
    d.on_note(Some(String::from("other")));
    assert_eq!(d.notes.text, "other");
}

#[test]
fn a_message_is_composed_and_sent() {
    let mut d = on(Screen::Lora);
    assert_eq!(d.touch_lora(100, 700, false), LoraTouch::Nothing);
    assert_eq!(d.touch_lora(200, 80, false), LoraTouch::Page);
    assert_eq!(d.lora.tab, Tab::Send);
    assert_eq!(d.touch_lora(100, 700, false), LoraTouch::Type);
    let mut scene = Scene::new();
    let (x, y) = at_key(false, false, Key::Char('a'));
    for _ in 0..201 {
        d.type_message(&mut scene, x, y, 0);
    }
    assert_eq!(d.lora.message.len(), 200);
    let (x, y) = at_key(false, false, Key::Enter);
    assert!(d.type_message(&mut scene, x, y, 0).0 == FieldEvent::Submit);
    assert!(d.on_send(Sending::Sent, ""));
    assert_eq!(d.lora.message, "");
    assert_eq!(d.lora.status, "sent 200 bytes");
}

#[test]
fn the_log_is_deleted_by_two_touches() {
    let mut d = on(Screen::Lora);
    d.lora.on_receive(3, "", "hello", 5, -70);
    d.touch_lora(400, 80, false);
    assert_eq!(d.lora.tab, Tab::Recv);
    assert_eq!(d.touch_lora(480, 570, false), LoraTouch::Log);
    assert_eq!(d.touch_lora(100, 300, false), LoraTouch::Log);
    assert_eq!(d.touch_lora(100, 300, false), LoraTouch::Nothing);
    assert_eq!(d.touch_lora(480, 570, false), LoraTouch::Log);
    assert_eq!(d.touch_lora(480, 570, false), LoraTouch::Deleted);
    assert!(d.lora.received.is_empty());
    assert_eq!(d.touch_lora(480, 150, false), LoraTouch::Log);
    assert_eq!(d.touch_lora(480, 850, false), LoraTouch::Log);
    d.touch_lora(0, 0, true);
    assert_eq!(d.nav.screen, Screen::Home);
}

#[test]
fn pages_are_painted() {
    let mut scene = Scene::new();
    assert!(on(Screen::Settings).paint(&mut scene, None));
    assert!(words(&scene).contains(&String::from("Settings")));
    let mut scene = Scene::new();
    assert!(!on(Screen::Home).paint(&mut scene, None));
    assert!(scene.shapes.is_empty());
    let mut d = on(Screen::SettingsWifi);
    d.wifi.pw_mode = true;
    d.wifi.pw_ssid = String::from("cafe");
    let mut scene = Scene::new();
    assert!(d.paint(&mut scene, None));
    assert!(words(&scene).iter().any(|w| w.contains("cafe")));
    for screen in [
        Screen::Environment,
        Screen::Weather,
        Screen::Music,
        Screen::Notes,
        Screen::NoteEdit,
        Screen::Lora,
        Screen::SettingsSystem,
        Screen::SettingsReader,
    ] {
        let mut scene = Scene::new();
        assert!(on(screen).paint(&mut scene, None));
        assert!(scene.shapes.contains(&Shape::BackButton));
    }
}

#[test]
fn replayed_messages_are_shown_once() {
    let mut d = on(Screen::Lora);
    assert!(d.on_message(3, "[t] ", "hi", 2, -70));
    assert!(!d.on_message(3, "[u] ", "hi", 2, -60));
    assert_eq!(d.lora.received, vec!["[t] hi"]);
    assert_eq!(d.lora.status, "received 2 bytes (-70 dBm)");
    assert!(d.on_message(0, "", "own", 3, 0));
    assert!(d.on_message(0, "", "own", 3, 0));
    assert_eq!(d.lora.received.len(), 3);
}

#[test]
fn the_status_bar_ticks() {
    let mut d = on(Screen::Info);
    let quiet = BarPaint { time: false, battery: false };
    let battery = BarPaint { time: false, battery: true };
    let both = BarPaint { time: true, battery: true };
    assert_eq!(d.tick_bar(None, 3), quiet);
    assert_eq!(d.tick_bar(Some((1, 2)), 3), both);
    assert_eq!(d.tick_bar(Some((1, 2)), 3), battery);
    assert_eq!(d.bar.battery.count, 0);
    d.nav.screen = Screen::Image;
    assert_eq!(d.tick_bar(Some((1, 3)), 1), quiet);
    assert_eq!(d.bar.minute, 2);
    d.nav.needs_redraw = true;
    d.painted(Some((4, 5)));
    assert_eq!(d.bar.minute, 5);
    assert!(!d.nav.needs_redraw);
}

#[test]
fn pages_tick_while_they_are_up() {
    let mut d = on(Screen::Info);
    let fired = (0..80).filter(|_| d.tick_info()).count();
    assert_eq!(fired, 2);
    assert!(!d.tick_gps() && !d.follows_position());
    d.nav.screen = Screen::Gps;
    assert!(d.follows_position());
    let fired = (0..60).filter(|_| d.tick_gps()).count();
    assert_eq!(fired, 2);
    d.nav.needs_redraw = true;
    assert!(!d.tick_gps() && d.gps_ticks.count == 0);
}

#[test]
fn lists_are_loaded_when_they_are_up() {
    let mut d = on(Screen::Files);
    assert_eq!(d.wanted_load(), Load::Files);
    d.on_files(None);
    assert_eq!(d.files.status, "SD read failed");
    assert_eq!(d.wanted_load(), Load::Nothing);
    let mut d = on(Screen::Notes);
    assert_eq!(d.wanted_load(), Load::Notes);
    d.on_notes(Some(Vec::new()));
    assert_eq!(d.notes.status, "0 notes");
    assert!(d.nav.needs_redraw);
    d.nav.screen = Screen::NoteEdit;
    d.notes.note_dirty = true;
    assert_eq!(d.wanted_load(), Load::Note);
    d.nav.screen = Screen::Reader;
    d.files.reader_dirty = true;
    assert_eq!(d.wanted_load(), Load::Book);
    d.on_book();
    assert_eq!(d.wanted_load(), Load::Nothing);
    let mut d = on(Screen::Library);
    d.nav.needs_redraw = true;
    assert_eq!(d.wanted_load(), Load::Nothing);
    d.nav.needs_redraw = false;
    assert_eq!(d.wanted_load(), Load::Shelf);
    d.on_shelf(Shelf::Ready(Vec::new()));
    assert!(!d.shelf.is_dirty() && d.nav.needs_redraw);
}

#[test]
fn areas_need_a_position() {
    let mut d = on(Screen::Gps);
    assert!(!d.begin_area(true));
    d.map.download = true;
    d.pending = Some(Pending::Scan);
    assert!(!d.begin_area(true));
    assert!(d.map.download);
    d.pending = None;
    assert!(!d.begin_area(false));
    assert!(!d.map.download);
    d.map.download = true;
    assert!(d.begin_area(true));
}

#[test]
fn the_log_is_opened() {
    let mut d = on(Screen::Home);
    d.open_log();
    assert_eq!(d.nav.screen, Screen::Lora);
    assert_eq!(d.lora.tab, Tab::Recv);
    d.on_no_radio();
    assert_eq!(d.lora.status, "radio init failed");
}
