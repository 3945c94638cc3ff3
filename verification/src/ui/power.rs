//! Starting and stopping the device.
use vstd::prelude::*;

use super::pending::used_ssid;
use crate::settings::{Settings, SettingsView};
use crate::wifi::Event;

verus! {

/// What the battery holds, in milliampere hours.
pub const BATTERY_MAH: u16 = 1620;

/// What is done about the fuel gauge when the device starts.
#[derive(Clone, Copy, Debug, PartialEq, Eq, Structural)]
pub struct GaugePlan {
    /// It is taken out of a change of its configuration that was never ended.
    pub exit_config_update: bool,
    /// It is told what the battery holds.
    pub program: Option<u16>,
}

/// What is done about the fuel gauge when the device starts. Its profile is
/// lost when the battery is unplugged.
pub fn gauge_plan(config_update: bool, design_mah: u16) -> (r: GaugePlan)
    ensures
        r.exit_config_update == config_update,
        r.program == if design_mah != BATTERY_MAH {
            Some(BATTERY_MAH)
        } else {
            None
        },
{
    GaugePlan {
        exit_config_update: config_update,
        program: if design_mah != BATTERY_MAH {
            Some(BATTERY_MAH)
        } else {
            None
        },
    }
}

/// Whether the clock is set over the network when the device starts: when it
/// holds no time and a network is known.
pub fn boot_sync(synced: bool, settings: &Settings) -> (r: bool)
    ensures
        r == (!synced && used_ssid(settings@).len() > 0),
{
    !synced && !settings.wifi_ssid().is_empty()
}

/// Whether to wait on for the end of a session before the device stops: while
/// cells of an area still come.
pub fn keep_draining(event: &Option<Event>) -> (r: bool)
    ensures
        r == (event matches Some(e) && e is Tile),
{
    match event {
        Some(Event::Tile { .. }) => true,
        _ => false,
    }
}

/// The settings as they are written before the device stops: the level of the
/// front light goes along.
pub fn settings_at_rest(settings: &mut Settings, brightness: u8)
    ensures
        final(settings)@ == (SettingsView { brightness: brightness as int, ..old(settings)@ }),
{
    settings.brightness = brightness;
    assert(settings@.networks =~= old(settings)@.networks);
}

} // verus!
