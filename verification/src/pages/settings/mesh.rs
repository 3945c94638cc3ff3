//! The mesh settings: the node's name, its radio and what it shares.
use vstd::prelude::*;
use vstd::string::*;

use super::{button, control, control_hit, draw_setting, on_control, page_title, setting_row, title};
use crate::keyboard::keyboard_picture;
use crate::layout::{native_of, screen_to_native_rect, NativeRect};
use crate::scene::{Picture, Scene, Shape};
use crate::settings::{Settings, SettingsView};
use crate::text_field::TextField;

verus! {

/// What a touch of the page is on.
#[derive(Clone, Copy, Debug, PartialEq, Eq, Structural)]
pub enum Hit {
    Back,
    EditName,
    ToggleRadio,
    ToggleShare,
}

/// What a touch of the page is on, where `back` says that it is on the back
/// button.
pub fn hit_test(sx: i32, sy: i32, back: bool) -> (r: Option<Hit>)
    ensures
        r == if back {
            Some(Hit::Back)
        } else if on_control(sx as int, sy as int, 210) {
            Some(Hit::EditName)
        } else if on_control(sx as int, sy as int, 300) {
            Some(Hit::ToggleRadio)
        } else if on_control(sx as int, sy as int, 390) {
            Some(Hit::ToggleShare)
        } else {
            None
        },
{
    if back {
        Some(Hit::Back)
    } else if control_hit(sx, sy, 210) {
        Some(Hit::EditName)
    } else if control_hit(sx, sy, 300) {
        Some(Hit::ToggleRadio)
    } else if control_hit(sx, sy, 390) {
        Some(Hit::ToggleShare)
    } else {
        None
    }
}

/// The node's name, or a dash where it has none.
pub open spec fn name_text(s: SettingsView) -> Seq<char> {
    if s.alias_text().len() == 0 {
        "-"@
    } else {
        s.alias_text()
    }
}

/// When the radio listens.
pub open spec fn radio_text(background: bool) -> Seq<char> {
    if background {
        "Always on"@
    } else {
        "Lora page only"@
    }
}

/// When the position is shared.
pub open spec fn share_text(share: bool) -> Seq<char> {
    if share {
        "Every 10 min"@
    } else {
        "Manual only"@
    }
}

/// When the radio listens.
fn radio_label(background: bool) -> (r: &'static str)
    ensures
        r@ == radio_text(background),
{
    if background {
        "Always on"
    } else {
        "Lora page only"
    }
}

/// When the position is shared.
fn share_label(share: bool) -> (r: &'static str)
    ensures
        r@ == share_text(share),
{
    if share {
        "Every 10 min"
    } else {
        "Manual only"
    }
}

/// The page; while the name is edited, with the editor and the keyboard over
/// it.
pub open spec fn screen_picture(
    s: Settings,
    share: bool,
    editing: bool,
    draft: Seq<char>,
    field: TextField,
) -> Picture {
    seq![Shape::BackButton, page_title("Mesh"@)] + setting_row("Node name"@, name_text(s@), 210)
        + setting_row("Mesh radio"@, radio_text(s.mesh_background), 300) + setting_row(
        "Share location"@,
        share_text(share),
        390,
    ) + if editing {
        field.picture(draft) + keyboard_picture(field.symbols, field.shift, field.enter_label@)
    } else {
        seq![]
    }
}

/// Paints the page.
pub fn draw(
    scene: &mut Scene,
    settings: &Settings,
    share: bool,
    editing: bool,
    draft: &str,
    field: &TextField,
)
    requires
        editing ==> field.can_show(draft@),
    ensures
        final(scene)@ == old(scene)@ + screen_picture(*settings, share, editing, draft@, *field),
{
    let ghost start = scene@;
    scene.back_button();
    title(scene, "Mesh");
    let name: &str = settings.mesh_alias();
    draw_setting(
        scene,
        "Node name",
        if name.is_empty() {
            "-"
        } else {
            name
        },
        210,
    );
    draw_setting(scene, "Mesh radio", radio_label(settings.mesh_background), 300);
    draw_setting(scene, "Share location", share_label(share), 390);
    if editing {
        field.draw_full(scene, draft);
    }
    assert(scene@ =~= start + screen_picture(*settings, share, editing, draft@, *field));
}

/// Paints when the position is shared.
pub fn redraw_share(scene: &mut Scene, share: bool)
    ensures
        final(scene)@ == old(scene)@ + control(280, 390, 220, share_text(share)),
{
    button(scene, 280, 390, 220, share_label(share));
}

/// Paints when the radio listens.
pub fn redraw_radio(scene: &mut Scene, background: bool)
    ensures
        final(scene)@ == old(scene)@ + control(280, 300, 220, radio_text(background)),
{
    button(scene, 280, 300, 220, radio_label(background));
}

/// The part of the panel that the control for sharing fills.
pub fn share_button_rect() -> (r: NativeRect)
    ensures
        r == native_of(280, 390, 220, 64),
{
    screen_to_native_rect(280, 390, 220, 64)
}

/// The part of the panel that the control for the radio fills.
pub fn radio_button_rect() -> (r: NativeRect)
    ensures
        r == native_of(280, 300, 220, 64),
{
    screen_to_native_rect(280, 300, 220, 64)
}

/// The settings of the mesh are shown below one another, each with its value,
/// and below them the field for the name while it is being edited.
pub proof fn law_mesh_settings_are_shown(
    s: Settings,
    share: bool,
    editing: bool,
    draft: Seq<char>,
    field: TextField,
)
    ensures
        ({
            let shown = screen_picture(s, share, editing, draft, field);
            &&& shown.subrange(2, 5) == setting_row(
                "Node name"@,
                if s@.alias_text().len() > 0 {
                    s@.alias_text()
                } else {
                    "-"@
                },
                210,
            )
            &&& shown.subrange(5, 8) == setting_row(
                "Mesh radio"@,
                if s.mesh_background {
                    "Always on"@
                } else {
                    "Lora page only"@
                },
                300,
            )
            &&& shown.subrange(8, 11) == setting_row(
                "Share location"@,
                if share {
                    "Every 10 min"@
                } else {
                    "Manual only"@
                },
                390,
            )
            &&& !editing ==> shown.len() == 11
            &&& editing ==> shown.skip(11) == field.picture(draft) + keyboard_picture(
                field.symbols,
                field.shift,
                field.enter_label@,
            )
        }),
{
    let shown = screen_picture(s, share, editing, draft, field);
    assert(shown.subrange(2, 5) =~= setting_row("Node name"@, name_text(s@), 210));
    assert(shown.subrange(5, 8) =~= setting_row("Mesh radio"@, radio_text(s.mesh_background), 300));
    assert(shown.subrange(8, 11) =~= setting_row("Share location"@, share_text(share), 390));
    if editing {
        assert(shown.skip(11) =~= field.picture(draft) + keyboard_picture(
            field.symbols,
            field.shift,
            field.enter_label@,
        ));
    }
}

} // verus!
