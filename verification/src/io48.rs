//! What a press of the auxiliary button does.
use vstd::prelude::*;

use crate::settings::choices::Io48Action;

verus! {

/// What is left to do after a press.
#[derive(Clone, Copy, Debug, PartialEq, Eq, Structural)]
pub enum Outcome {
    /// Go to deep sleep.
    Sleep,
    /// Switch to the receive tab of the LoRa page.
    OpenLoraRecv,
    /// Nothing.
    Done,
}

/// The level at which the front light comes on when none was ever set.
pub const MID_LEVEL: u8 = 50;

/// The level of the front light after it was switched: off, or the level it was
/// last set to.
pub open spec fn switched(light: u8, brightness: u8) -> u8 {
    if light > 0 {
        0
    } else if brightness > 0 {
        brightness
    } else {
        MID_LEVEL
    }
}

/// Acts on a press. `light` is the level that the front light is at, where
/// zero is off, and `brightness` the level it was last set to.
pub fn dispatch(action: Io48Action, light: &mut u8, brightness: u8) -> (r: Outcome)
    ensures
        r == outcome_of(action),
        r == match action {
            Io48Action::Sleep => Outcome::Sleep,
            Io48Action::LoraReceive => Outcome::OpenLoraRecv,
            _ => Outcome::Done,
        },
        *final(light) == if action == Io48Action::Backlight {
            switched(*old(light), brightness)
        } else {
            *old(light)
        },
{
    match action {
        Io48Action::Sleep => Outcome::Sleep,
        Io48Action::Backlight => {
            if *light > 0 {
                *light = 0;
            } else if brightness > 0 {
                *light = brightness;
            } else {
                *light = MID_LEVEL;
            }
            Outcome::Done
        },
        Io48Action::LoraReceive => Outcome::OpenLoraRecv,
        Io48Action::Nothing => Outcome::Done,
    }
}

/// A press always changes whether the light is on, and two presses bring back
/// a light that was off or at the level it was last set to.
pub proof fn law_presses_switch_the_light(light: u8, brightness: u8)
    ensures
        switched(light, brightness) > 0 <==> light == 0,
        light == 0 || light == brightness ==> switched(
            switched(light, brightness),
            brightness,
        ) == light,
{
}

/// What is left to do for an action.
pub open spec fn outcome_of(action: Io48Action) -> Outcome {
    match action {
        Io48Action::Sleep => Outcome::Sleep,
        Io48Action::LoraReceive => Outcome::OpenLoraRecv,
        _ => Outcome::Done,
    }
}

/// Each action has its own outcome: the device sleeps, or opens its messages, or
/// nothing is left to do. The light comes on at the level that was set, or half
/// way up where none was.
pub proof fn law_outcomes_of_actions(action: Io48Action, brightness: u8)
    ensures
        outcome_of(action) == Outcome::Sleep <==> action == Io48Action::Sleep,
        outcome_of(action) == Outcome::OpenLoraRecv <==> action == Io48Action::LoraReceive,
        brightness > 0 ==> switched(0, brightness) == brightness,
        switched(0, 0) == 50,
{
}

} // verus!
