//! The settings pages: what a touch changes.
use vstd::prelude::*;

use super::nav::{Nav, Screen};
use crate::pages::settings::{reader, system, MenuHit};
use crate::settings::Settings;

verus! {

/// What of a settings page is painted anew.
#[derive(Clone, Copy, Debug, PartialEq, Eq, Structural)]
pub enum SettingsRepaint {
    Nothing,
    Timezone,
    TimeFormat,
    Icons,
    IconSize,
    Io48,
    FontSize,
    FontFamily,
    Spacing,
}

/// Hours from UTC one less, from -12 on.
pub open spec fn earlier(tz: int) -> int {
    if tz - 1 < -12 {
        -12
    } else {
        tz - 1
    }
}

/// Hours from UTC one more, up to 14.
pub open spec fn later(tz: int) -> int {
    if tz + 1 > 14 {
        14
    } else {
        tz + 1
    }
}

/// The settings after a touch of the system page.
pub open spec fn system_changed(s: Settings, hit: system::Hit) -> Settings {
    match hit {
        system::Hit::Back => s,
        system::Hit::TzMinus => Settings {
            tz_offset_hours: earlier(s.tz_offset_hours as int) as i8,
            ..s
        },
        system::Hit::TzPlus => Settings {
            tz_offset_hours: later(s.tz_offset_hours as int) as i8,
            ..s
        },
        system::Hit::ToggleFormat => Settings { time_24h: !s.time_24h, ..s },
        system::Hit::CycleIcons => Settings { icon_style: s.icon_style.following(), ..s },
        system::Hit::CycleIconSize => Settings { icon_size: s.icon_size.following(), ..s },
        system::Hit::CycleIo48 => Settings { io48_action: s.io48_action.following(), ..s },
    }
}

/// What a touch of the system page paints anew; the first three change the
/// time in the status bar too.
pub open spec fn system_repaint(hit: system::Hit) -> SettingsRepaint {
    match hit {
        system::Hit::Back => SettingsRepaint::Nothing,
        system::Hit::TzMinus => SettingsRepaint::Timezone,
        system::Hit::TzPlus => SettingsRepaint::Timezone,
        system::Hit::ToggleFormat => SettingsRepaint::TimeFormat,
        system::Hit::CycleIcons => SettingsRepaint::Icons,
        system::Hit::CycleIconSize => SettingsRepaint::IconSize,
        system::Hit::CycleIo48 => SettingsRepaint::Io48,
    }
}

/// A touch of the menu. Says whether the Wi-Fi page is opened.
pub fn touch_menu(hit: Option<MenuHit>, nav: &mut Nav) -> (r: bool)
    ensures
        r == (hit == Some(MenuHit::Wifi)),
        *final(nav) == match hit {
            Some(MenuHit::Back) => Nav { screen: Screen::Home, needs_redraw: true },
            Some(MenuHit::System) => Nav { screen: Screen::SettingsSystem, needs_redraw: true },
            Some(MenuHit::Reader) => Nav { screen: Screen::SettingsReader, needs_redraw: true },
            Some(MenuHit::Wifi) => Nav { screen: Screen::SettingsWifi, needs_redraw: true },
            None => *old(nav),
        },
{
    match hit {
        Some(MenuHit::Back) => {
            nav.go(Screen::Home);
            false
        },
        Some(MenuHit::System) => {
            nav.go(Screen::SettingsSystem);
            false
        },
        Some(MenuHit::Reader) => {
            nav.go(Screen::SettingsReader);
            false
        },
        Some(MenuHit::Wifi) => {
            nav.go(Screen::SettingsWifi);
            true
        },
        None => false,
    }
}

/// A touch of the system page.
pub fn touch_system(
    hit: Option<system::Hit>,
    settings: &mut Settings,
    dirty: &mut bool,
    nav: &mut Nav,
) -> (r: SettingsRepaint)
    requires
        i8::MIN < old(settings).tz_offset_hours < i8::MAX,
    ensures
        match hit {
            None => {
                &&& r == SettingsRepaint::Nothing
                &&& *final(settings) == *old(settings)
                &&& *final(dirty) == *old(dirty)
                &&& *final(nav) == *old(nav)
            },
            Some(h) => {
                &&& r == system_repaint(h)
                &&& *final(settings) == system_changed(*old(settings), h)
                &&& *final(dirty) == (*old(dirty) || h != system::Hit::Back)
                &&& *final(nav) == if h == system::Hit::Back {
                    Nav { screen: Screen::Settings, needs_redraw: true }
                } else {
                    *old(nav)
                }
            },
        },
{
    match hit {
        None => SettingsRepaint::Nothing,
        Some(system::Hit::Back) => {
            nav.go(Screen::Settings);
            SettingsRepaint::Nothing
        },
        Some(system::Hit::TzMinus) => {
            let tz: i8 = settings.tz_offset_hours - 1;
            settings.tz_offset_hours = if tz < -12 {
                -12
            } else {
                tz
            };
            *dirty = true;
            SettingsRepaint::Timezone
        },
        Some(system::Hit::TzPlus) => {
            let tz: i8 = settings.tz_offset_hours + 1;
            settings.tz_offset_hours = if tz > 14 {
                14
            } else {
                tz
            };
            *dirty = true;
            SettingsRepaint::Timezone
        },
        Some(system::Hit::ToggleFormat) => {
            settings.time_24h = !settings.time_24h;
            *dirty = true;
            SettingsRepaint::TimeFormat
        },
        Some(system::Hit::CycleIcons) => {
            settings.icon_style = settings.icon_style.next();
            *dirty = true;
            SettingsRepaint::Icons
        },
        Some(system::Hit::CycleIconSize) => {
            settings.icon_size = settings.icon_size.next();
            *dirty = true;
            SettingsRepaint::IconSize
        },
        Some(system::Hit::CycleIo48) => {
            settings.io48_action = settings.io48_action.next();
            *dirty = true;
            SettingsRepaint::Io48
        },
    }
}

/// A touch of the reader's page.
pub fn touch_reader(
    hit: Option<reader::Hit>,
    settings: &mut Settings,
    dirty: &mut bool,
    nav: &mut Nav,
) -> (r: SettingsRepaint)
    ensures
        match hit {
            None => {
                &&& r == SettingsRepaint::Nothing
                &&& *final(settings) == *old(settings)
                &&& *final(dirty) == *old(dirty)
                &&& *final(nav) == *old(nav)
            },
            Some(reader::Hit::Back) => {
                &&& r == SettingsRepaint::Nothing
                &&& *final(settings) == *old(settings)
                &&& *final(dirty) == *old(dirty)
                &&& *final(nav) == (Nav { screen: Screen::Settings, needs_redraw: true })
            },
            Some(reader::Hit::CycleFontSize) => {
                &&& r == SettingsRepaint::FontSize
                &&& *final(settings) == (Settings {
                    reader_font_size: old(settings).reader_font_size.following(),
                    ..*old(settings)
                })
                &&& *final(dirty)
                &&& *final(nav) == *old(nav)
            },
            Some(reader::Hit::CycleFontFamily) => {
                &&& r == SettingsRepaint::FontFamily
                &&& *final(settings) == (Settings {
                    reader_font_family: old(settings).reader_font_family.following(),
                    ..*old(settings)
                })
                &&& *final(dirty)
                &&& *final(nav) == *old(nav)
            },
            Some(reader::Hit::CycleSpacing) => {
                &&& r == SettingsRepaint::Spacing
                &&& *final(settings) == (Settings {
                    reader_line_spacing: old(settings).reader_line_spacing.following(),
                    ..*old(settings)
                })
                &&& *final(dirty)
                &&& *final(nav) == *old(nav)
            },
        },
{
    match hit {
        None => SettingsRepaint::Nothing,
        Some(reader::Hit::Back) => {
            nav.go(Screen::Settings);
            SettingsRepaint::Nothing
        },
        Some(reader::Hit::CycleFontSize) => {
            settings.reader_font_size = settings.reader_font_size.next();
            *dirty = true;
            SettingsRepaint::FontSize
        },
        Some(reader::Hit::CycleFontFamily) => {
            settings.reader_font_family = settings.reader_font_family.next();
            *dirty = true;
            SettingsRepaint::FontFamily
        },
        Some(reader::Hit::CycleSpacing) => {
            settings.reader_line_spacing = settings.reader_line_spacing.next();
            *dirty = true;
            SettingsRepaint::Spacing
        },
    }
}

/// Hours from UTC stay between -12 and 14 once they are, and a step back takes
/// back a step on, except at the ends.
pub proof fn law_hours_from_utc(tz: int)
    requires
        -12 <= tz <= 14,
    ensures
        -12 <= earlier(tz) <= tz,
        tz <= later(tz) <= 14,
        tz < 14 ==> earlier(later(tz)) == tz,
        tz > -12 ==> later(earlier(tz)) == tz,
{
}

/// A touch of the system page changes the one setting that it is on, and no
/// other: the hours from UTC by one, within their limits, the time format to
/// the other one, and each choice to the next.
pub proof fn law_touch_changes_one_setting(s: Settings)
    requires
        -12 <= s.tz_offset_hours <= 14,
    ensures
        system_changed(s, system::Hit::Back) == s,
        system_changed(s, system::Hit::TzMinus) == (Settings {
            tz_offset_hours: if s.tz_offset_hours > -12 {
                (s.tz_offset_hours - 1) as i8
            } else {
                s.tz_offset_hours
            },
            ..s
        }),
        system_changed(s, system::Hit::TzPlus) == (Settings {
            tz_offset_hours: if s.tz_offset_hours < 14 {
                (s.tz_offset_hours + 1) as i8
            } else {
                s.tz_offset_hours
            },
            ..s
        }),
        system_changed(s, system::Hit::ToggleFormat) == (Settings { time_24h: !s.time_24h, ..s }),
        system_changed(s, system::Hit::CycleIcons) == (Settings {
            icon_style: s.icon_style.following(),
            ..s
        }),
        system_changed(s, system::Hit::CycleIconSize) == (Settings {
            icon_size: s.icon_size.following(),
            ..s
        }),
        system_changed(s, system::Hit::CycleIo48) == (Settings {
            io48_action: s.io48_action.following(),
            ..s
        }),
        forall|hit: system::Hit|
            #[trigger] system_repaint(hit) == SettingsRepaint::Nothing <==> hit
                == system::Hit::Back,
{
}

} // verus!
