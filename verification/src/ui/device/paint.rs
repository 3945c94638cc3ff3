//! Painting the page that is up.
use vstd::prelude::*;
use vstd::string::*;

use super::Device;
use super::typing::lemma_len_within_bytes;
use crate::pages::environment;
use crate::pages::lora::{self, info_behind, MeshInfo};
use crate::pages::music;
use crate::pages::notes::{
    draw_edit_screen, draw_list_screen, edit_screen_picture, law_editor_shows_any_note,
    list_screen_picture,
};
use crate::pages::settings::{draw_menu, menu_picture, reader, system, wifi};
use crate::pages::weather;
use crate::scene::{Picture, Scene};
use crate::text_field::law_message_can_be_shown;
use crate::ui::nav::Screen;

verus! {

impl Device {
    /// What the page that is up looks like, where nothing but the device itself
    /// is needed to tell; `mesh` is what is known of the mesh.
    pub open spec fn picture(&self, mesh: Option<MeshInfo>) -> Option<Picture> {
        match self.nav.screen {
            Screen::Environment => Some(environment::screen_picture(self.environment.view)),
            Screen::Weather => Some(weather::screen_picture(self.weather.view)),
            Screen::Music => Some(music::screen_picture(self.music.remote.view)),
            Screen::Notes => Some(
                list_screen_picture(
                    self.notes@.entries,
                    self.notes@.scroll,
                    self.notes@.status,
                ),
            ),
            Screen::NoteEdit => Some(
                edit_screen_picture(
                    self.notes@.name,
                    self.editor,
                    self.notes@.text,
                    self.notes@.delete_armed,
                ),
            ),
            Screen::Lora => Some(
                lora::screen_picture(
                    self.lora@.tab,
                    self.composer,
                    self.lora@.message,
                    self.lora@.status,
                    self.lora@.sent,
                    self.lora@.received,
                    self.lora@.scroll,
                    mesh,
                ),
            ),
            Screen::Settings => Some(menu_picture()),
            Screen::SettingsSystem => Some(system::screen_picture(self.settings)),
            Screen::SettingsReader => Some(reader::screen_picture(self.settings)),
            Screen::SettingsWifi => Some(
                if self.wifi@.pw_mode {
                    wifi::password_picture(
                        self.wifi@.ssid,
                        self.wifi@.password,
                        self.wifi@.status,
                        self.keys.symbols,
                        self.keys.shift,
                    )
                } else {
                    wifi::status_picture(
                        self.settings@,
                        self.wifi@.status,
                        self.wifi@.networks,
                    )
                },
            ),
            _ => None,
        }
    }

    /// Paints the page that is up. Says whether it is one of those that need
    /// nothing but the device itself.
    pub fn paint(&self, scene: &mut Scene, mesh: Option<&MeshInfo>) -> (r: bool)
        requires
            self.well_formed(),
        ensures
            r == self.picture(info_behind(mesh)) is Some,
            final(scene)@ == match self.picture(info_behind(mesh)) {
                Some(page) => old(scene)@ + page,
                None => old(scene)@,
            },
    {
        match self.nav.screen {
            Screen::Environment => environment::draw_screen(scene, &self.environment.view),
            Screen::Weather => weather::draw_screen(scene, &self.weather.view),
            Screen::Music => music::draw_screen(scene, &self.music.remote.view),
            Screen::Notes => draw_list_screen(
                scene,
                &self.notes.entries,
                self.notes.scroll,
                self.notes.status.as_str(),
            ),
            Screen::NoteEdit => {
                proof {
                    law_editor_shows_any_note(self.editor, self.notes@.text);
                }
                draw_edit_screen(
                    scene,
                    self.notes.name.as_str(),
                    &self.editor,
                    self.notes.text.as_str(),
                    self.notes.delete_armed,
                )
            },
            Screen::Lora => {
                proof {
                    lemma_len_within_bytes(self.lora@.message);
                    law_message_can_be_shown(self.composer, self.lora@.message);
                }
                lora::draw_lora_screen(
                    scene,
                    self.lora.tab,
                    &self.composer,
                    self.lora.message.as_str(),
                    self.lora.status.as_str(),
                    &self.lora.sent,
                    &self.lora.received,
                    self.lora.scroll,
                    mesh,
                )
            },
            Screen::Settings => draw_menu(scene),
            Screen::SettingsSystem => system::draw(scene, &self.settings),
            Screen::SettingsReader => reader::draw(scene, &self.settings),
            Screen::SettingsWifi => {
                if self.wifi.pw_mode {
                    wifi::draw_password(
                        scene,
                        self.wifi.pw_ssid.as_str(),
                        self.wifi.pw_buf.as_str(),
                        self.wifi.status.as_str(),
                        self.keys.symbols,
                        self.keys.shift,
                    )
                } else {
                    wifi::draw_status(
                        scene,
                        &self.settings,
                        self.wifi.status.as_str(),
                        &self.wifi.networks,
                    )
                }
            },
            _ => {
                return false;
            },
        }
        true
    }
}

/// The page that is up is the one that is painted, with what the device holds
/// for it.
pub proof fn law_page_that_is_up_is_painted(d: Device, mesh: Option<MeshInfo>)
    ensures
        d.nav.screen == Screen::Environment ==> d.picture(mesh) == Some(
            environment::screen_picture(d.environment.view),
        ),
        d.nav.screen == Screen::Weather ==> d.picture(mesh) == Some(
            weather::screen_picture(d.weather.view),
        ),
        d.nav.screen == Screen::Music ==> d.picture(mesh) == Some(
            music::screen_picture(d.music.remote.view),
        ),
        d.nav.screen == Screen::Notes ==> d.picture(mesh) == Some(
            list_screen_picture(d.notes@.entries, d.notes@.scroll, d.notes@.status),
        ),
        d.nav.screen == Screen::NoteEdit ==> d.picture(mesh) == Some(
            edit_screen_picture(d.notes@.name, d.editor, d.notes@.text, d.notes@.delete_armed),
        ),
        d.nav.screen == Screen::Lora ==> d.picture(mesh) == Some(
            lora::screen_picture(
                d.lora@.tab,
                d.composer,
                d.lora@.message,
                d.lora@.status,
                d.lora@.sent,
                d.lora@.received,
                d.lora@.scroll,
                mesh,
            ),
        ),
        d.nav.screen == Screen::Settings ==> d.picture(mesh) == Some(menu_picture()),
        d.nav.screen == Screen::SettingsSystem ==> d.picture(mesh) == Some(
            system::screen_picture(d.settings),
        ),
        d.nav.screen == Screen::SettingsReader ==> d.picture(mesh) == Some(
            reader::screen_picture(d.settings),
        ),
        d.nav.screen == Screen::SettingsWifi && !d.wifi@.pw_mode ==> d.picture(mesh) == Some(
            wifi::status_picture(d.settings@, d.wifi@.status, d.wifi@.networks),
        ),
        d.nav.screen == Screen::SettingsWifi && d.wifi@.pw_mode ==> d.picture(mesh) == Some(
            wifi::password_picture(
                d.wifi@.ssid,
                d.wifi@.password,
                d.wifi@.status,
                d.keys.symbols,
                d.keys.shift,
            ),
        ),
{
}

} // verus!
