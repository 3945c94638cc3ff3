//! The settings pages: a menu, and a page for each group of settings.
use vstd::prelude::*;
use vstd::string::*;

use crate::layout::{in_rect, inside};
use crate::scene::{centered, flush_right, label, rounded, Font, Picture, Scene, Shape, BLACK, WHITE};

pub mod mesh;
pub mod reader;
pub mod system;
pub mod wifi;

verus! {

/// A control: a box with its value in the middle.
pub open spec fn control(x: int, y: int, w: int, text: Seq<char>) -> Picture {
    seq![
        rounded(x, y, w, 64, 10, WHITE, 3),
        centered(text, x + w / 2, y + 38, Font::Bold, BLACK),
    ]
}

/// The name of a setting, to the left of its control.
pub open spec fn row_name(text: Seq<char>, y: int) -> Shape<Seq<char>> {
    label(text, 40, y + 38, Font::Bold, BLACK)
}

/// The title of a page.
pub open spec fn page_title(text: Seq<char>) -> Shape<Seq<char>> {
    centered(text, 270, 120, Font::Bold, BLACK)
}

/// A setting with a wide control.
pub open spec fn setting_row(name: Seq<char>, value: Seq<char>, y: int) -> Picture {
    seq![row_name(name, y)] + control(280, y, 220, value)
}

/// Paints a control.
pub fn button(scene: &mut Scene, x: i32, y: i32, w: u32, text: &str)
    requires
        w <= i32::MAX,
        x + w / 2 <= i32::MAX,
        y + 38 <= i32::MAX,
    ensures
        final(scene)@ == old(scene)@ + control(x as int, y as int, w as int, text@),
{
    let ghost start = scene@;
    scene.round(x, y, w, 64, 10, WHITE, 3);
    scene.center(text, x + w as i32 / 2, y + 38, Font::Bold, BLACK);
    assert(scene@ =~= start + control(x as int, y as int, w as int, text@));
}

/// Paints the name of a setting.
pub fn row_label(scene: &mut Scene, text: &str, y: i32)
    requires
        y + 38 <= i32::MAX,
    ensures
        final(scene)@ == old(scene)@.push(row_name(text@, y as int)),
{
    scene.text(text, 40, y + 38, Font::Bold, BLACK);
}

/// Paints the title of a page.
pub fn title(scene: &mut Scene, text: &str)
    ensures
        final(scene)@ == old(scene)@.push(page_title(text@)),
{
    scene.center(text, 270, 120, Font::Bold, BLACK);
}

/// Paints a setting with a wide control.
pub fn draw_setting(scene: &mut Scene, name: &str, value: &str, y: i32)
    requires
        y + 38 <= i32::MAX,
    ensures
        final(scene)@ == old(scene)@ + setting_row(name@, value@, y as int),
{
    let ghost start = scene@;
    row_label(scene, name, y);
    button(scene, 280, y, 220, value);
    assert(scene@ =~= start + setting_row(name@, value@, y as int));
}

/// Whether a point lies on the wide control of the setting at `y`.
pub open spec fn on_control(sx: int, sy: int, y: int) -> bool {
    inside(sx, sy, 280, y, 220, 64)
}

/// Whether a point lies on the wide control of the setting at `y`.
pub fn control_hit(sx: i32, sy: i32, y: i32) -> (r: bool)
    requires
        y + 64 <= i32::MAX,
    ensures
        r == on_control(sx as int, sy as int, y as int),
{
    in_rect(sx, sy, 280, y, 220, 64)
}

/// What a touch of the menu is on.
#[derive(Clone, Copy, Debug, PartialEq, Eq, Structural)]
pub enum MenuHit {
    Back,
    System,
    Reader,
    Wifi,
}

/// What lies at a point, where `back` says that it is the back button.
pub open spec fn menu_at(sx: int, sy: int, back: bool) -> Option<MenuHit> {
    if back {
        Some(MenuHit::Back)
    } else if inside(sx, sy, 40, 210, 460, 90) {
        Some(MenuHit::System)
    } else if inside(sx, sy, 40, 330, 460, 90) {
        Some(MenuHit::Reader)
    } else if inside(sx, sy, 40, 450, 460, 90) {
        Some(MenuHit::Wifi)
    } else {
        None
    }
}

/// What a touch of the menu is on, where `back` says that it is on the back
/// button.
pub fn menu_hit(sx: i32, sy: i32, back: bool) -> (r: Option<MenuHit>)
    ensures
        r == menu_at(sx as int, sy as int, back),
{
    if back {
        Some(MenuHit::Back)
    } else if in_rect(sx, sy, 40, 210, 460, 90) {
        Some(MenuHit::System)
    } else if in_rect(sx, sy, 40, 330, 460, 90) {
        Some(MenuHit::Reader)
    } else if in_rect(sx, sy, 40, 450, 460, 90) {
        Some(MenuHit::Wifi)
    } else {
        None
    }
}

/// An entry of the menu.
pub open spec fn entry_picture(text: Seq<char>, y: int) -> Picture {
    seq![
        rounded(40, y, 460, 90, 12, WHITE, 3),
        label(text, 64, y + 51, Font::Bold, BLACK),
        flush_right(">"@, 476, y + 51, Font::Bold, BLACK),
    ]
}

/// Paints an entry of the menu.
fn draw_entry(scene: &mut Scene, text: &str, y: i32)
    requires
        0 <= y <= 1000,
    ensures
        final(scene)@ == old(scene)@ + entry_picture(text@, y as int),
{
    let ghost start = scene@;
    scene.round(40, y, 460, 90, 12, WHITE, 3);
    scene.text(text, 64, y + 51, Font::Bold, BLACK);
    scene.right(">", 476, y + 51, Font::Bold, BLACK);
    assert(scene@ =~= start + entry_picture(text@, y as int));
}

/// The menu.
pub open spec fn menu_picture() -> Picture {
    seq![Shape::BackButton, page_title("Settings"@)] + entry_picture("System"@, 210)
        + entry_picture("Reader"@, 330) + entry_picture("Wi-Fi"@, 450)
}

/// Paints the menu.
pub fn draw_menu(scene: &mut Scene)
    ensures
        final(scene)@ == old(scene)@ + menu_picture(),
{
    let ghost start = scene@;
    scene.back_button();
    title(scene, "Settings");
    draw_entry(scene, "System", 210);
    draw_entry(scene, "Reader", 330);
    draw_entry(scene, "Wi-Fi", 450);
    assert(scene@ =~= start + menu_picture());
}

/// A setting is shown with its name and, in a button beside it, its value; the
/// button is touched exactly where it is painted.
pub proof fn law_setting_is_shown(name: Seq<char>, value: Seq<char>, y: int, sx: int, sy: int)
    ensures
        setting_row(name, value, y).len() == 3,
        setting_row(name, value, y)[0] == label(name, 40, y + 38, Font::Bold, BLACK),
        setting_row(name, value, y)[1] == rounded(280, y, 220, 64, 10, WHITE, 3),
        setting_row(name, value, y)[2] == centered(value, 390, y + 38, Font::Bold, BLACK),
        on_control(sx, sy, y) <==> 280 <= sx < 500 && y <= sy < y + 64,
{
}

/// The entries of the menu are touched exactly where they are painted.
pub proof fn law_menu_is_where_it_is_painted(sx: int, sy: int)
    ensures
        menu_at(sx, sy, true) == Some(MenuHit::Back),
        menu_at(sx, sy, false) == Some(MenuHit::System) <==> 40 <= sx < 500 && 210 <= sy < 300,
        menu_at(sx, sy, false) == Some(MenuHit::Reader) <==> 40 <= sx < 500 && 330 <= sy < 420,
        menu_at(sx, sy, false) == Some(MenuHit::Wifi) <==> 40 <= sx < 500 && 450 <= sy < 540,
        menu_at(sx, sy, false) != Some(MenuHit::Back),
        menu_picture().len() == 11,
        menu_picture()[2] == rounded(40, 210, 460, 90, 12, WHITE, 3),
        menu_picture()[3] == label("System"@, 64, 261, Font::Bold, BLACK),
        menu_picture()[5] == rounded(40, 330, 460, 90, 12, WHITE, 3),
        menu_picture()[6] == label("Reader"@, 64, 381, Font::Bold, BLACK),
        menu_picture()[8] == rounded(40, 450, 460, 90, 12, WHITE, 3),
        menu_picture()[9] == label("Wi-Fi"@, 64, 501, Font::Bold, BLACK),
{
}

/// Every page of the settings has its title in the same place.
pub proof fn law_title_of_a_page(text: Seq<char>)
    ensures
        page_title(text) == centered(text, 270, 120, Font::Bold, BLACK),
        menu_picture()[1] == page_title("Settings"@),
{
}

} // verus!
