//! The reader's settings: how books are set.
use vstd::prelude::*;
use vstd::string::*;

use super::{button, control, control_hit, draw_setting, on_control, page_title, setting_row, title};
use crate::layout::{native_of, screen_to_native_rect, NativeRect};
use crate::scene::{Picture, Scene, Shape};
use crate::settings::Settings;

verus! {

/// What a touch of the page is on.
#[derive(Clone, Copy, Debug, PartialEq, Eq, Structural)]
pub enum Hit {
    Back,
    CycleFontSize,
    CycleFontFamily,
    CycleSpacing,
}

/// What lies at a point, where `back` says that it is the back button.
pub open spec fn hit_at(sx: int, sy: int, back: bool) -> Option<Hit> {
    if back {
        Some(Hit::Back)
    } else if on_control(sx, sy, 210) {
        Some(Hit::CycleFontSize)
    } else if on_control(sx, sy, 300) {
        Some(Hit::CycleFontFamily)
    } else if on_control(sx, sy, 390) {
        Some(Hit::CycleSpacing)
    } else {
        None
    }
}

/// What a touch of the page is on, where `back` says that it is on the back
/// button.
pub fn hit_test(sx: i32, sy: i32, back: bool) -> (r: Option<Hit>)
    ensures
        r == hit_at(sx as int, sy as int, back),
{
    if back {
        Some(Hit::Back)
    } else if control_hit(sx, sy, 210) {
        Some(Hit::CycleFontSize)
    } else if control_hit(sx, sy, 300) {
        Some(Hit::CycleFontFamily)
    } else if control_hit(sx, sy, 390) {
        Some(Hit::CycleSpacing)
    } else {
        None
    }
}

/// The page.
pub open spec fn screen_picture(s: Settings) -> Picture {
    seq![Shape::BackButton, page_title("Reader"@)] + setting_row(
        "Font size"@,
        s.reader_font_size.name(),
        210,
    ) + setting_row("Font"@, s.reader_font_family.name(), 300) + setting_row(
        "Spacing"@,
        s.reader_line_spacing.name(),
        390,
    )
}

/// Paints the page.
pub fn draw(scene: &mut Scene, settings: &Settings)
    ensures
        final(scene)@ == old(scene)@ + screen_picture(*settings),
{
    let ghost start = scene@;
    scene.back_button();
    title(scene, "Reader");
    draw_setting(scene, "Font size", settings.reader_font_size.label(), 210);
    draw_setting(scene, "Font", settings.reader_font_family.label(), 300);
    draw_setting(scene, "Spacing", settings.reader_line_spacing.label(), 390);
    assert(scene@ =~= start + screen_picture(*settings));
}

/// Paints the text size.
pub fn redraw_font_size(scene: &mut Scene, settings: &Settings)
    ensures
        final(scene)@ == old(scene)@ + control(280, 210, 220, settings.reader_font_size.name()),
{
    button(scene, 280, 210, 220, settings.reader_font_size.label());
}

/// Paints the typeface.
pub fn redraw_family(scene: &mut Scene, settings: &Settings)
    ensures
        final(scene)@ == old(scene)@ + control(280, 300, 220, settings.reader_font_family.name()),
{
    button(scene, 280, 300, 220, settings.reader_font_family.label());
}

/// Paints the line spacing.
pub fn redraw_spacing(scene: &mut Scene, settings: &Settings)
    ensures
        final(scene)@ == old(scene)@ + control(280, 390, 220, settings.reader_line_spacing.name()),
{
    button(scene, 280, 390, 220, settings.reader_line_spacing.label());
}

/// The part of the panel that the control for the text size fills.
pub fn font_size_button_rect() -> (r: NativeRect)
    ensures
        r == native_of(280, 210, 220, 64),
{
    screen_to_native_rect(280, 210, 220, 64)
}

/// The part of the panel that the control for the typeface fills.
pub fn family_button_rect() -> (r: NativeRect)
    ensures
        r == native_of(280, 300, 220, 64),
{
    screen_to_native_rect(280, 300, 220, 64)
}

/// The part of the panel that the control for the line spacing fills.
pub fn spacing_button_rect() -> (r: NativeRect)
    ensures
        r == native_of(280, 390, 220, 64),
{
    screen_to_native_rect(280, 390, 220, 64)
}

/// The three settings of the reader are shown below one another, each with its
/// value, and a touch of a value is one of its setting.
pub proof fn law_reader_settings_are_shown(s: Settings, sx: int, sy: int)
    ensures
        screen_picture(s).len() == 11,
        screen_picture(s).subrange(2, 5) == setting_row(
            "Font size"@,
            s.reader_font_size.name(),
            210,
        ),
        screen_picture(s).subrange(5, 8) == setting_row("Font"@, s.reader_font_family.name(), 300),
        screen_picture(s).subrange(8, 11) == setting_row(
            "Spacing"@,
            s.reader_line_spacing.name(),
            390,
        ),
        hit_at(sx, sy, true) == Some(Hit::Back),
        hit_at(sx, sy, false) == Some(Hit::CycleFontSize) <==> 280 <= sx < 500 && 210 <= sy < 274,
        hit_at(sx, sy, false) == Some(Hit::CycleFontFamily) <==> 280 <= sx < 500 && 300 <= sy
            < 364,
        hit_at(sx, sy, false) == Some(Hit::CycleSpacing) <==> 280 <= sx < 500 && 390 <= sy < 454,
        hit_at(sx, sy, false) != Some(Hit::Back),
{
    let shown = screen_picture(s);
    assert(shown.subrange(2, 5) =~= setting_row("Font size"@, s.reader_font_size.name(), 210));
    assert(shown.subrange(5, 8) =~= setting_row("Font"@, s.reader_font_family.name(), 300));
    assert(shown.subrange(8, 11) =~= setting_row("Spacing"@, s.reader_line_spacing.name(), 390));
}

} // verus!
