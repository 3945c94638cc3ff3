//! The system settings: the clock, the icons and the auxiliary button.
use vstd::prelude::*;
use vstd::string::*;

use super::{
    button, control, control_hit, draw_setting, on_control, page_title, row_label, row_name,
    setting_row, title,
};
use crate::layout::{in_rect, inside, native_of, screen_to_native_rect, NativeRect};
use crate::scene::{centered, filled, Font, Picture, Scene, Shape, BLACK, WHITE};
use crate::settings::Settings;
use crate::text::{dec_plus, own, push_plus};

verus! {

/// What a touch of the page is on.
#[derive(Clone, Copy, Debug, PartialEq, Eq, Structural)]
pub enum Hit {
    Back,
    TzMinus,
    TzPlus,
    ToggleFormat,
    CycleIcons,
    CycleIconSize,
    CycleIo48,
}

/// What lies at a point, where `back` says that it is the back button.
pub open spec fn hit_at(sx: int, sy: int, back: bool) -> Option<Hit> {
    if back {
        Some(Hit::Back)
    } else if inside(sx, sy, 280, 210, 60, 64) {
        Some(Hit::TzMinus)
    } else if inside(sx, sy, 440, 210, 60, 64) {
        Some(Hit::TzPlus)
    } else if on_control(sx, sy, 300) {
        Some(Hit::ToggleFormat)
    } else if on_control(sx, sy, 390) {
        Some(Hit::CycleIcons)
    } else if on_control(sx, sy, 480) {
        Some(Hit::CycleIconSize)
    } else if on_control(sx, sy, 570) {
        Some(Hit::CycleIo48)
    } else {
        None
    }
}

/// What a touch of the page is on, where `back` says that it is on the back
/// button.
pub fn hit_test(sx: i32, sy: i32, back: bool) -> (r: Option<Hit>)
    ensures
        r == hit_at(sx as int, sy as int, back),
{
    if back {
        Some(Hit::Back)
    } else if in_rect(sx, sy, 280, 210, 60, 64) {
        Some(Hit::TzMinus)
    } else if in_rect(sx, sy, 440, 210, 60, 64) {
        Some(Hit::TzPlus)
    } else if control_hit(sx, sy, 300) {
        Some(Hit::ToggleFormat)
    } else if control_hit(sx, sy, 390) {
        Some(Hit::CycleIcons)
    } else if control_hit(sx, sy, 480) {
        Some(Hit::CycleIconSize)
    } else if control_hit(sx, sy, 570) {
        Some(Hit::CycleIo48)
    } else {
        None
    }
}

/// The hours from UTC, between the two buttons that change them.
pub open spec fn tz_picture(offset_hours: int) -> Picture {
    seq![
        filled(345, 210, 90, 64, WHITE),
        centered("UTC"@ + dec_plus(offset_hours), 390, 247, Font::Body, BLACK),
    ]
}

/// How the time is written.
pub open spec fn format_text(time_24h: bool) -> Seq<char> {
    if time_24h {
        "24-hour"@
    } else {
        "12-hour"@
    }
}

/// Paints the hours from UTC.
pub fn redraw_tz(scene: &mut Scene, offset_hours: i8)
    ensures
        final(scene)@ == old(scene)@ + tz_picture(offset_hours as int),
{
    let ghost start = scene@;
    scene.fill(345, 210, 90, 64, WHITE);
    let mut buf: String = own("UTC");
    push_plus(&mut buf, offset_hours as i64);
    scene.center(buf.as_str(), 390, 247, Font::Body, BLACK);
    assert(scene@ =~= start + tz_picture(offset_hours as int));
}

/// Paints how the time is written.
pub fn redraw_format(scene: &mut Scene, time_24h: bool)
    ensures
        final(scene)@ == old(scene)@ + control(280, 300, 220, format_text(time_24h)),
{
    button(
        scene,
        280,
        300,
        220,
        if time_24h {
            "24-hour"
        } else {
            "12-hour"
        },
    );
}

/// Paints the icon set.
pub fn redraw_icons(scene: &mut Scene, settings: &Settings)
    ensures
        final(scene)@ == old(scene)@ + control(280, 390, 220, settings.icon_style.name()),
{
    button(scene, 280, 390, 220, settings.icon_style.label());
}

/// Paints the icon size.
pub fn redraw_icon_size(scene: &mut Scene, settings: &Settings)
    ensures
        final(scene)@ == old(scene)@ + control(280, 480, 220, settings.icon_size.name()),
{
    button(scene, 280, 480, 220, settings.icon_size.label());
}

/// Paints what the auxiliary button does.
pub fn redraw_io48(scene: &mut Scene, settings: &Settings)
    ensures
        final(scene)@ == old(scene)@ + control(280, 570, 220, settings.io48_action.name()),
{
    button(scene, 280, 570, 220, settings.io48_action.label());
}

/// The page.
pub open spec fn screen_picture(s: Settings) -> Picture {
    seq![Shape::BackButton, page_title("System"@), row_name("Timezone"@, 210)] + control(
        280,
        210,
        60,
        "-"@,
    ) + control(440, 210, 60, "+"@) + tz_picture(s.tz_offset_hours as int) + setting_row(
        "Time format"@,
        format_text(s.time_24h),
        300,
    ) + setting_row("Icons"@, s.icon_style.name(), 390) + setting_row(
        "Icon size"@,
        s.icon_size.name(),
        480,
    ) + setting_row("IO48 Button"@, s.io48_action.name(), 570)
}

/// Paints the page.
pub fn draw(scene: &mut Scene, settings: &Settings)
    ensures
        final(scene)@ == old(scene)@ + screen_picture(*settings),
{
    let ghost start = scene@;
    scene.back_button();
    title(scene, "System");
    row_label(scene, "Timezone", 210);
    button(scene, 280, 210, 60, "-");
    button(scene, 440, 210, 60, "+");
    redraw_tz(scene, settings.tz_offset_hours);
    let format: &str = if settings.time_24h {
        "24-hour"
    } else {
        "12-hour"
    };
    draw_setting(scene, "Time format", format, 300);
    draw_setting(scene, "Icons", settings.icon_style.label(), 390);
    draw_setting(scene, "Icon size", settings.icon_size.label(), 480);
    draw_setting(scene, "IO48 Button", settings.io48_action.label(), 570);
    assert(scene@ =~= start + screen_picture(*settings));
}

/// The part of the panel that the hours from UTC fill.
pub fn tz_value_rect() -> (r: NativeRect)
    ensures
        r == native_of(345, 210, 90, 64),
{
    screen_to_native_rect(345, 210, 90, 64)
}

/// The part of the panel that the control for the time fills.
pub fn format_button_rect() -> (r: NativeRect)
    ensures
        r == native_of(280, 300, 220, 64),
{
    screen_to_native_rect(280, 300, 220, 64)
}

/// The part of the panel that the control for the icon set fills.
pub fn icons_button_rect() -> (r: NativeRect)
    ensures
        r == native_of(280, 390, 220, 64),
{
    screen_to_native_rect(280, 390, 220, 64)
}

/// The part of the panel that the control for the icon size fills.
pub fn icon_size_button_rect() -> (r: NativeRect)
    ensures
        r == native_of(280, 480, 220, 64),
{
    screen_to_native_rect(280, 480, 220, 64)
}

/// The part of the panel that the control for the auxiliary button fills.
pub fn io48_button_rect() -> (r: NativeRect)
    ensures
        r == native_of(280, 570, 220, 64),
{
    screen_to_native_rect(280, 570, 220, 64)
}

/// The settings of the system are shown below one another, each with its value,
/// the hours from UTC with their sign between the two buttons that change them;
/// a touch of a value or a button is one of its setting.
pub proof fn law_system_settings_are_shown(s: Settings, sx: int, sy: int)
    ensures
        ({
            let shown = screen_picture(s);
            &&& shown.len() == 21
            &&& shown.subrange(3, 5) == control(280, 210, 60, "-"@)
            &&& shown.subrange(5, 7) == control(440, 210, 60, "+"@)
            &&& shown[8] == centered(
                "UTC"@ + dec_plus(s.tz_offset_hours as int),
                390,
                247,
                Font::Body,
                BLACK,
            )
            &&& shown.subrange(9, 12) == setting_row(
                "Time format"@,
                if s.time_24h {
                    "24-hour"@
                } else {
                    "12-hour"@
                },
                300,
            )
            &&& shown.subrange(12, 15) == setting_row("Icons"@, s.icon_style.name(), 390)
            &&& shown.subrange(15, 18) == setting_row("Icon size"@, s.icon_size.name(), 480)
            &&& shown.subrange(18, 21) == setting_row("IO48 Button"@, s.io48_action.name(), 570)
        }),
        hit_at(sx, sy, true) == Some(Hit::Back),
        hit_at(sx, sy, false) == Some(Hit::TzMinus) <==> 280 <= sx < 340 && 210 <= sy < 274,
        hit_at(sx, sy, false) == Some(Hit::TzPlus) <==> 440 <= sx < 500 && 210 <= sy < 274,
        hit_at(sx, sy, false) == Some(Hit::ToggleFormat) <==> 280 <= sx < 500 && 300 <= sy < 364,
        hit_at(sx, sy, false) == Some(Hit::CycleIcons) <==> 280 <= sx < 500 && 390 <= sy < 454,
        hit_at(sx, sy, false) == Some(Hit::CycleIconSize) <==> 280 <= sx < 500 && 480 <= sy < 544,
        hit_at(sx, sy, false) == Some(Hit::CycleIo48) <==> 280 <= sx < 500 && 570 <= sy < 634,
        hit_at(sx, sy, false) != Some(Hit::Back),
{
    let shown = screen_picture(s);
    assert(shown.subrange(3, 5) =~= control(280, 210, 60, "-"@));
    assert(shown.subrange(5, 7) =~= control(440, 210, 60, "+"@));
    assert(shown.subrange(9, 12) =~= setting_row("Time format"@, format_text(s.time_24h), 300));
    assert(shown.subrange(12, 15) =~= setting_row("Icons"@, s.icon_style.name(), 390));
    assert(shown.subrange(15, 18) =~= setting_row("Icon size"@, s.icon_size.name(), 480));
    assert(shown.subrange(18, 21) =~= setting_row("IO48 Button"@, s.io48_action.name(), 570));
}

} // verus!
