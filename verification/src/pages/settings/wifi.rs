//! The Wi-Fi settings: the networks in reach, and the passphrase of one.
use vstd::prelude::*;
use vstd::string::*;

use super::{button, control, page_title, title};
use crate::keyboard::{self, keyboard_picture};
use crate::layout::{in_rect, inside, native_of, screen_to_native_rect, NativeRect};
use crate::scene::{filled, framed, label, outlined, Font, Ink, Picture, Scene, Shape, BLACK, WHITE};
use crate::settings::{saved_password, Settings, SettingsView};
use crate::text::{first_chars, own, take_chars};
use crate::wifi::{scan_views, ScanEntry, ScanView};

verus! {

/// Networks that fit on the page.
pub const LIST_VISIBLE: usize = 9;

/// What a touch of the page is on.
#[derive(Clone, Copy, Debug, PartialEq, Eq, Structural)]
pub enum Hit {
    Back,
    Scan,
    Sync,
    /// The network of this number.
    Network(usize),
}

/// How many networks the page lists.
pub open spec fn listed(count: int) -> int {
    if count < 9 {
        count
    } else {
        9
    }
}

/// What lies at a point, where `back` says that it is the back button.
pub open spec fn hit_at(sx: int, sy: int, count: int, back: bool) -> Option<Hit> {
    if back {
        Some(Hit::Back)
    } else if inside(sx, sy, 30, 245, 230, 64) {
        Some(Hit::Scan)
    } else if inside(sx, sy, 280, 245, 230, 64) {
        Some(Hit::Sync)
    } else if inside(sx, sy, 30, 345, 480, 62 * listed(count)) {
        Some(Hit::Network(((sy - 345) / 62) as usize))
    } else {
        None
    }
}

/// What a touch of the page is on, where `back` says that it is on the back
/// button.
pub fn status_hit(sx: i32, sy: i32, network_count: usize, back: bool) -> (r: Option<Hit>)
    ensures
        r == hit_at(sx as int, sy as int, network_count as int, back),
{
    if back {
        return Some(Hit::Back);
    }
    if in_rect(sx, sy, 30, 245, 230, 64) {
        return Some(Hit::Scan);
    }
    if in_rect(sx, sy, 280, 245, 230, 64) {
        return Some(Hit::Sync);
    }
    let shown: i32 = if network_count < LIST_VISIBLE {
        network_count as i32
    } else {
        9
    };
    if in_rect(sx, sy, 30, 345, 480, 62 * shown) {
        return Some(Hit::Network(((sy - 345) / 62) as usize));
    }
    None
}

/// A network's signal, from none to four bars.
pub open spec fn bars(rssi: int) -> int {
    if rssi >= -55 {
        4
    } else if rssi >= -67 {
        3
    } else if rssi >= -78 {
        2
    } else if rssi >= -88 {
        1
    } else {
        0
    }
}

/// A network's signal, from none to four bars.
pub fn signal_level(rssi: i8) -> (r: u8)
    ensures
        r == bars(rssi as int),
{
    if rssi >= -55 {
        4
    } else if rssi >= -67 {
        3
    } else if rssi >= -78 {
        2
    } else if rssi >= -88 {
        1
    } else {
        0
    }
}

/// One of the bars of a signal.
pub open spec fn bar(x: int, baseline: int, level: int, i: int) -> Shape<Seq<char>> {
    if i < level {
        filled(x + 10 * i, baseline - (6 + 6 * i), 7, 6 + 6 * i, BLACK)
    } else {
        Shape::Rect {
            x: (x + 10 * i) as i32,
            y: (baseline - (6 + 6 * i)) as i32,
            w: 7,
            h: (6 + 6 * i) as u32,
            ink: Ink::Stroke { gray: 6, width: 1 },
        }
    }
}

/// The four bars of a signal, the tallest last.
pub open spec fn signal_picture(x: int, baseline: int, level: int) -> Picture {
    Seq::new(4, |i: int| bar(x, baseline, level, i))
}

/// Paints the bars of a signal.
fn draw_signal(scene: &mut Scene, x: i32, baseline: i32, level: u8)
    requires
        0 <= x <= 1000,
        100 <= baseline <= 10_000,
    ensures
        final(scene)@ == old(scene)@ + signal_picture(x as int, baseline as int, level as int),
{
    let ghost start = scene@;
    let ghost all = signal_picture(x as int, baseline as int, level as int);
    let mut i: u8 = 0;
    while i < 4
        invariant
            i <= 4,
            0 <= x <= 1000,
            100 <= baseline <= 10_000,
            all == signal_picture(x as int, baseline as int, level as int),
            scene@ == start + all.take(i as int),
        decreases 4 - i,
    {
        let h: i32 = 6 + 6 * i as i32;
        let bx: i32 = x + 10 * i as i32;
        let by: i32 = baseline - h;
        if i < level {
            scene.fill(bx, by, 7, h as u32, BLACK);
        } else {
            scene.put(
                Shape::Rect {
                    x: bx,
                    y: by,
                    w: 7,
                    h: h as u32,
                    ink: Ink::Stroke { gray: 6, width: 1 },
                },
            );
        }
        assert(all[i as int] == bar(x as int, baseline as int, level as int, i as int));
        assert(all.take(i + 1) =~= all.take(i as int).push(all[i as int]));
        i = i + 1;
    }
    assert(all.take(4) =~= all);
}

/// A small padlock.
pub open spec fn lock_picture(x: int, y: int) -> Picture {
    seq![outlined(x + 3, y, 10, 8, 2), filled(x, y + 6, 16, 12, BLACK)]
}

/// Paints a small padlock.
fn draw_lock(scene: &mut Scene, x: i32, y: i32)
    requires
        0 <= x <= 1000,
        0 <= y <= 10_000,
    ensures
        final(scene)@ == old(scene)@ + lock_picture(x as int, y as int),
{
    let ghost start = scene@;
    scene.outline(x + 3, y, 10, 8, 2);
    scene.fill(x, y + 6, 16, 12, BLACK);
    assert(scene@ =~= start + lock_picture(x as int, y as int));
}

/// The name of a network as the list shows it: cut where it is too long, more
/// so where it is followed by a mark.
pub open spec fn shown_name(ssid: Seq<char>, saved: bool) -> Seq<char> {
    first_chars(
        ssid,
        if saved {
            26
        } else {
            34
        },
    )
}

/// A network in the list: its name, a mark where it is saved, a padlock where
/// it is secured, and its signal.
pub open spec fn network_picture(e: ScanView, saved: bool, y: int) -> Picture {
    let name = shown_name(e.ssid, saved);
    seq![filled(30, y + 61, 480, 1, 8), label(name, 44, y + 36, Font::Bold, BLACK)] + (if saved {
        seq![label("saved"@, 58 + 9 * (name.len() as int), y + 36, Font::Body, 6)]
    } else {
        seq![]
    }) + (if e.secured {
        lock_picture(480, y + 22)
    } else {
        seq![]
    }) + signal_picture(410, y + 41, bars(e.rssi as int))
}

/// Paints a network in the list.
fn draw_network(scene: &mut Scene, entry: &ScanEntry, saved: bool, y: i32)
    requires
        100 <= y <= 5000,
    ensures
        final(scene)@ == old(scene)@ + network_picture(entry@, saved, y as int),
{
    let ghost start = scene@;
    scene.fill(30, y + 61, 480, 1, 8);
    let room: usize = if saved {
        26
    } else {
        34
    };
    let name: String = take_chars(entry.ssid.as_str(), room);
    scene.text(name.as_str(), 44, y + 36, Font::Bold, BLACK);
    if saved {
        let n: usize = name.as_str().unicode_len();
        scene.text("saved", 58 + 9 * n as i32, y + 36, Font::Body, 6);
    }
    if entry.secured {
        draw_lock(scene, 480, y + 22);
    }
    draw_signal(scene, 410, y + 41, signal_level(entry.rssi));
    assert(scene@ =~= start + network_picture(entry@, saved, y as int));
}

/// The first `n` networks of the list.
pub open spec fn networks_picture(s: SettingsView, networks: Seq<ScanView>, n: int) -> Picture
    decreases n,
{
    if n <= 0 {
        seq![]
    } else {
        networks_picture(s, networks, n - 1) + network_picture(
            networks[n - 1],
            saved_password(s.table(), networks[n - 1].ssid) is Some,
            345 + 62 * (n - 1),
        )
    }
}

/// The network that is used.
pub open spec fn network_line(s: SettingsView) -> Seq<char> {
    let ssid = if s.count == 0 {
        seq![]
    } else {
        s.networks[0].ssid_text()
    };
    "Network: "@ + if ssid.len() == 0 {
        "(not set)"@
    } else {
        ssid
    }
}

/// The page.
pub open spec fn status_picture(
    s: SettingsView,
    status: Seq<char>,
    networks: Seq<ScanView>,
) -> Picture {
    seq![
        Shape::BackButton,
        page_title("Wi-Fi"@),
        label(network_line(s), 40, 165, Font::Body, BLACK),
        label(status, 40, 205, Font::Body, 6),
    ] + control(30, 245, 230, "Scan"@) + control(280, 245, 230, "Sync clock"@) + networks_picture(
        s,
        networks,
        listed(networks.len() as int),
    )
}

/// Paints the page.
pub fn draw_status(
    scene: &mut Scene,
    settings: &Settings,
    status: &str,
    networks: &Vec<ScanEntry>,
)
    ensures
        final(scene)@ == old(scene)@ + status_picture(
            settings@,
            status@,
            scan_views(networks@),
        ),
{
    let ghost start = scene@;
    let ghost all = scan_views(networks@);
    scene.back_button();
    title(scene, "Wi-Fi");
    let ssid: &str = settings.wifi_ssid();
    let mut line: String = own("Network: ");
    line.append(
        if ssid.is_empty() {
            "(not set)"
        } else {
            ssid
        },
    );
    scene.text(line.as_str(), 40, 165, Font::Body, BLACK);
    scene.text(status, 40, 205, Font::Body, 6);
    button(scene, 30, 245, 230, "Scan");
    button(scene, 280, 245, 230, "Sync clock");
    let ghost headed = scene@;
    let shown: usize = if networks.len() < LIST_VISIBLE {
        networks.len()
    } else {
        LIST_VISIBLE
    };
    let mut y: i32 = 345;
    let mut i: usize = 0;
    while i < shown
        invariant
            i <= shown <= 9,
            shown <= networks@.len(),
            all == scan_views(networks@),
            y == 345 + 62 * i,
            scene@ == headed + networks_picture(settings@, all, i as int),
        decreases shown - i,
    {
        let entry: &ScanEntry = &networks[i];
        let saved: bool = settings.saved_wifi_password(entry.ssid.as_str()).is_some();
        let ghost before = scene@;
        draw_network(scene, entry, saved, y);
        assert(all[i as int] == entry@);
        y = y + 62;
        i = i + 1;
        assert(scene@ =~= headed + networks_picture(settings@, all, i as int));
    }
    assert(scene@ =~= start + status_picture(settings@, status@, all));
}

/// The box for the passphrase.
pub open spec fn password_box_picture(password: Seq<char>) -> Picture {
    seq![
        framed(30, 195, 480, 60, WHITE, 2),
        label(first_chars(password, 50), 42, 231, Font::Body, BLACK),
    ]
}

/// Paints the box for the passphrase.
pub fn redraw_password(scene: &mut Scene, password: &str)
    ensures
        final(scene)@ == old(scene)@ + password_box_picture(password@),
{
    let ghost start = scene@;
    scene.frame(30, 195, 480, 60, WHITE, 2);
    let shown: String = take_chars(password, 50);
    scene.text(shown.as_str(), 42, 231, Font::Body, BLACK);
    assert(scene@ =~= start + password_box_picture(password@));
}

/// The page for a passphrase.
pub open spec fn password_picture(
    ssid: Seq<char>,
    password: Seq<char>,
    hint: Seq<char>,
    symbols: bool,
    shift: bool,
) -> Picture {
    seq![
        Shape::BackButton,
        page_title("Join "@ + first_chars(ssid, 24)),
        label("Password:"@, 30, 183, Font::Body, 6),
    ] + password_box_picture(password) + seq![label(hint, 30, 285, Font::Body, 6)]
        + keyboard_picture(symbols, shift, "SAVE"@)
}

/// Paints the page for a passphrase. The hint says, for one, why the keyboard
/// is up again after a failed try.
pub fn draw_password(
    scene: &mut Scene,
    ssid: &str,
    password: &str,
    hint: &str,
    symbols: bool,
    shift: bool,
)
    ensures
        final(scene)@ == old(scene)@ + password_picture(ssid@, password@, hint@, symbols, shift),
{
    let ghost start = scene@;
    scene.back_button();
    let mut heading: String = own("Join ");
    let name: String = take_chars(ssid, 24);
    heading.append(name.as_str());
    title(scene, heading.as_str());
    scene.text("Password:", 30, 183, Font::Body, 6);
    redraw_password(scene, password);
    scene.text(hint, 30, 285, Font::Body, 6);
    keyboard::draw(scene, symbols, shift, "SAVE");
    assert(scene@ =~= start + password_picture(ssid@, password@, hint@, symbols, shift));
}

/// The part of the panel that the box for the passphrase fills.
pub fn password_box_rect() -> (r: NativeRect)
    ensures
        r == native_of(30, 195, 480, 60),
{
    screen_to_native_rect(30, 195, 480, 60)
}

/// Every network that was found, up to nine of them, has its row below the
/// others, and a touch of its row is one of that network.
pub proof fn law_every_network_has_its_row(
    s: SettingsView,
    status: Seq<char>,
    networks: Seq<ScanView>,
    i: int,
    sx: int,
    sy: int,
)
    requires
        0 <= i < networks.len(),
        i < 9,
    ensures
        ({
            let row = network_picture(
                networks[i],
                saved_password(s.table(), networks[i].ssid) is Some,
                345 + 62 * i,
            );
            exists|at: int|
                0 <= at && at + row.len() <= status_picture(s, status, networks).len()
                    && #[trigger] status_picture(s, status, networks).subrange(
                    at,
                    at + row.len(),
                ) == row
        }),
        hit_at(sx, sy, networks.len() as int, false) == Some(Hit::Network(i as usize)) <==> 30 <= sx
            < 510 && 345 + 62 * i <= sy < 407 + 62 * i,
{
    let shown = status_picture(s, status, networks);
    let n = listed(networks.len() as int);
    let all = networks_picture(s, networks, n);
    let row = network_picture(
        networks[i],
        saved_password(s.table(), networks[i].ssid) is Some,
        345 + 62 * i,
    );
    let at = networks_picture(s, networks, i).len() as int;
    lemma_row_of_network(s, networks, n, i);
    assert(shown.len() == 8 + all.len());
    assert(shown.subrange(8 + at, 8 + at + row.len()) =~= all.subrange(at, at + row.len()));
    if inside(sx, sy, 30, 345, 480, 62 * n) {
        assert((sy - 345) / 62 < 9);
    }
}

/// The row of a network begins where those in front of it end.
proof fn lemma_row_of_network(s: SettingsView, networks: Seq<ScanView>, n: int, i: int)
    requires
        0 <= i < n,
    ensures
        ({
            let at = networks_picture(s, networks, i).len() as int;
            let row = network_picture(
                networks[i],
                saved_password(s.table(), networks[i].ssid) is Some,
                345 + 62 * i,
            );
            let all = networks_picture(s, networks, n);
            &&& at + row.len() <= all.len()
            &&& all.subrange(at, at + row.len()) == row
        }),
    decreases n,
{
    let at = networks_picture(s, networks, i).len() as int;
    let row = network_picture(
        networks[i],
        saved_password(s.table(), networks[i].ssid) is Some,
        345 + 62 * i,
    );
    let all = networks_picture(s, networks, n);
    let before = networks_picture(s, networks, n - 1);
    if i == n - 1 {
        assert(all.subrange(at, at + row.len()) =~= row);
    } else {
        lemma_row_of_network(s, networks, n - 1, i);
        assert(all.subrange(at, at + row.len()) =~= before.subrange(at, at + row.len()));
    }
}

/// The row of a network shows its name, up to 34 characters of it, or 26 with a
/// mark behind it where its passphrase was saved; a lock where it needs one; and
/// four bars, as many of them filled as its signal is strong.
pub proof fn law_network_is_described(e: ScanView, saved: bool, y: int)
    ensures
        ({
            let shown = network_picture(e, saved, y);
            let most = if saved {
                26int
            } else {
                34
            };
            let name = if e.ssid.len() <= most {
                e.ssid
            } else {
                e.ssid.subrange(0, most)
            };
            let marks = if saved {
                1int
            } else {
                0
            };
            let locks = if e.secured {
                2int
            } else {
                0
            };
            &&& shown.len() == 6 + marks + locks
            &&& shown[1] == label(name, 44, y + 36, Font::Bold, BLACK)
            &&& saved ==> shown[2] == label(
                "saved"@,
                58 + 9 * (name.len() as int),
                y + 36,
                Font::Body,
                6,
            )
            &&& e.secured ==> shown[2 + marks] == outlined(483, y + 22, 10, 8, 2) && shown[3
                + marks] == filled(480, y + 28, 16, 12, BLACK)
            &&& forall|k: int|
                0 <= k < 4 ==> #[trigger] shown[2 + marks + locks + k] == bar(
                    410,
                    y + 41,
                    bars(e.rssi as int),
                    k,
                )
        }),
{
    let most = if saved {
        26int
    } else {
        34
    };
    if e.ssid.len() > most {
        assert(e.ssid.take(most) =~= e.ssid.subrange(0, most));
    }
}

/// A stronger signal has no fewer bars; none below -88 dBm, and all four from
/// -55 dBm on, with -78 and -67 dBm between.
pub proof fn law_bars_follow_the_signal(a: int, b: int, x: int, baseline: int, k: int)
    requires
        a <= b,
        0 <= k < 4,
    ensures
        0 <= bars(a) <= bars(b) <= 4,
        bars(a) >= 1 <==> a >= -88,
        bars(a) >= 2 <==> a >= -78,
        bars(a) >= 3 <==> a >= -67,
        bars(a) == 4 <==> a >= -55,
        k < bars(a) ==> bar(x, baseline, bars(a), k) == filled(
            x + 10 * k,
            baseline - 6 - 6 * k,
            7,
            6 + 6 * k,
            BLACK,
        ),
        k >= bars(a) ==> bar(x, baseline, bars(a), k) == (Shape::<Seq<char>>::Rect {
            x: (x + 10 * k) as i32,
            y: (baseline - 6 - 6 * k) as i32,
            w: 7,
            h: (6 + 6 * k) as u32,
            ink: Ink::Stroke { gray: 6, width: 1 },
        }),
{
}

/// The page names the network in use, says what it does, and has its two
/// buttons, which are touched where they are painted.
pub proof fn law_wifi_page_has_its_buttons(
    s: SettingsView,
    status: Seq<char>,
    networks: Seq<ScanView>,
    sx: int,
    sy: int,
)
    ensures
        ({
            let shown = status_picture(s, status, networks);
            let ssid = if s.count == 0 {
                seq![]
            } else {
                s.networks[0].ssid_text()
            };
            &&& shown[2] == label(
                "Network: "@ + if ssid.len() > 0 {
                    ssid
                } else {
                    "(not set)"@
                },
                40,
                165,
                Font::Body,
                BLACK,
            )
            &&& shown[3] == label(status, 40, 205, Font::Body, 6)
            &&& shown.subrange(4, 6) == control(30, 245, 230, "Scan"@)
            &&& shown.subrange(6, 8) == control(280, 245, 230, "Sync clock"@)
        }),
        hit_at(sx, sy, networks.len() as int, true) == Some(Hit::Back),
        hit_at(sx, sy, networks.len() as int, false) == Some(Hit::Scan) <==> 30 <= sx < 260 && 245
            <= sy < 309,
        hit_at(sx, sy, networks.len() as int, false) == Some(Hit::Sync) <==> 280 <= sx < 510 && 245
            <= sy < 309,
{
    let shown = status_picture(s, status, networks);
    assert(shown.subrange(4, 6) =~= control(30, 245, 230, "Scan"@));
    assert(shown.subrange(6, 8) =~= control(280, 245, 230, "Sync clock"@));
}

/// The page for a passphrase names the network, up to 24 characters of it, and
/// shows what was typed, up to fifty characters, and a hint.
pub proof fn law_passphrase_is_shown(
    ssid: Seq<char>,
    password: Seq<char>,
    hint: Seq<char>,
    symbols: bool,
    shift: bool,
)
    ensures
        ({
            let shown = password_picture(ssid, password, hint, symbols, shift);
            &&& shown[1] == page_title(
                "Join "@ + if ssid.len() <= 24 {
                    ssid
                } else {
                    ssid.subrange(0, 24)
                },
            )
            &&& shown[4] == label(
                if password.len() <= 50 {
                    password
                } else {
                    password.subrange(0, 50)
                },
                42,
                231,
                Font::Body,
                BLACK,
            )
            &&& shown[5] == label(hint, 30, 285, Font::Body, 6)
            &&& shown.skip(6) == keyboard_picture(symbols, shift, "SAVE"@)
        }),
{
    let shown = password_picture(ssid, password, hint, symbols, shift);
    if ssid.len() > 24 {
        assert(ssid.take(24) =~= ssid.subrange(0, 24));
    }
    if password.len() > 50 {
        assert(password.take(50) =~= password.subrange(0, 50));
    }
    assert(shown.skip(6) =~= keyboard_picture(symbols, shift, "SAVE"@));
}

} // verus!
