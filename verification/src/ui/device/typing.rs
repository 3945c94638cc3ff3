//! Typing notes and messages.
use vstd::prelude::*;
use vstd::string::*;
use vstd::utf8::*;

use super::Device;
use crate::keyboard::{key_under, keyboard_picture, keys_of, Key};
use crate::layout::native_of;
use crate::pages::lora::MSG_MAX;
use crate::pages::notes::{law_editor_shows_any_note, EDITABLE_CHARS, NOTE_MAX};
use crate::scene::{Picture, Scene};
use crate::text_field::{
    edited, key_event, law_message_can_be_shown, law_text_stays_within_limit, FieldEvent, Flush,
    TextField,
};
use crate::ui::lora_page::{after_send, LoraView, Sending};
use crate::ui::nav::{Nav, Screen};
use crate::ui::notes_page::NotesView;

verus! {

impl Device {
    /// A touch of the keyboard under the note that is edited: what came of it,
    /// and what of the panel is refreshed at once.
    pub fn type_note(&mut self, scene: &mut Scene, sx: i32, sy: i32, now_us: u64) -> (r: (
        FieldEvent,
        Option<Flush>,
    ))
        requires
            old(self).well_formed(),
            old(self).editor.chars_this_pass < u32::MAX,
        ensures
            final(self).well_formed(),
            ({
                let o = *old(self);
                let f = *final(self);
                let text = o.notes@.text;
                &&& f == (Device { cache: f.cache, editor: f.editor, notes: f.notes, ..o })
                &&& f.notes@ == (NotesView { text: f.notes@.text, ..o.notes@ })
                &&& match key_under(
                    keys_of(o.editor.symbols, o.editor.shift),
                    sx as int,
                    sy as int,
                ) {
                    Some(key) => {
                        &&& f.notes@.text == edited(
                            text,
                            key,
                            o.editor.enter,
                            NOTE_MAX as int,
                        )
                        &&& r.0 == key_event(text, key, o.editor.enter, NOTE_MAX as int)
                        &&& r.1 == layer_flush(key)
                        &&& f.editor == field_after(o.editor, key, text, f.notes@.text, now_us)
                        &&& final(scene)@ == old(scene)@ + typed_picture(
                            o.editor,
                            key,
                            text,
                            f.notes@.text,
                        )
                    },
                    None => {
                        &&& f.notes == o.notes
                        &&& f.editor == o.editor
                        &&& r == (FieldEvent::Ignored, None::<Flush>)
                        &&& final(scene)@ == old(scene)@
                    },
                }
            }),
    {
        match self.editor.hit_key(&mut self.cache, sx, sy) {
            Some(key) => {
                proof {
                    let after = edited(self.notes@.text, key, self.editor.enter, NOTE_MAX as int);
                    lemma_len_within_bytes(after);
                    law_editor_shows_any_note(self.editor, after);
                }
                let r: (FieldEvent, Option<Flush>) = self.editor.handle_key(
                    scene,
                    &mut self.notes.text,
                    key,
                    NOTE_MAX,
                    now_us,
                );
                r
            },
            None => (FieldEvent::Ignored, None),
        }
    }

    /// A touch of the keyboard under the message that is composed: what came of
    /// it, and what of the panel is refreshed at once.
    pub fn type_message(&mut self, scene: &mut Scene, sx: i32, sy: i32, now_us: u64) -> (r: (
        FieldEvent,
        Option<Flush>,
    ))
        requires
            old(self).well_formed(),
            old(self).composer.chars_this_pass < u32::MAX,
        ensures
            final(self).well_formed(),
            ({
                let o = *old(self);
                let f = *final(self);
                let text = o.lora@.message;
                &&& f == (Device { cache: f.cache, composer: f.composer, lora: f.lora, ..o })
                &&& f.lora@ == (LoraView { message: f.lora@.message, ..o.lora@ })
                &&& match key_under(
                    keys_of(o.composer.symbols, o.composer.shift),
                    sx as int,
                    sy as int,
                ) {
                    Some(key) => {
                        &&& f.lora@.message == edited(
                            text,
                            key,
                            o.composer.enter,
                            MSG_MAX as int,
                        )
                        &&& r.0 == key_event(text, key, o.composer.enter, MSG_MAX as int)
                        &&& r.1 == layer_flush(key)
                        &&& f.composer == field_after(
                            o.composer,
                            key,
                            text,
                            f.lora@.message,
                            now_us,
                        )
                        &&& final(scene)@ == old(scene)@ + typed_picture(
                            o.composer,
                            key,
                            text,
                            f.lora@.message,
                        )
                    },
                    None => {
                        &&& f.lora == o.lora
                        &&& f.composer == o.composer
                        &&& r == (FieldEvent::Ignored, None::<Flush>)
                        &&& final(scene)@ == old(scene)@
                    },
                }
            }),
    {
        match self.composer.hit_key(&mut self.cache, sx, sy) {
            Some(key) => {
                proof {
                    let text = self.lora@.message;
                    let after = edited(text, key, self.composer.enter, MSG_MAX as int);
                    law_text_stays_within_limit(
                        text,
                        key,
                        self.composer.enter,
                        MSG_MAX as int,
                    );
                    lemma_len_within_bytes(after);
                    law_message_can_be_shown(self.composer, after);
                }
                let r: (FieldEvent, Option<Flush>) = self.composer.handle_key(
                    scene,
                    &mut self.lora.message,
                    key,
                    MSG_MAX,
                    now_us,
                );
                r
            },
            None => (FieldEvent::Ignored, None),
        }
    }

    /// Ends a pass over the touches that were waiting: what was typed on the
    /// screen that is up is refreshed.
    pub fn end_pass(&mut self, scene: &mut Scene, now_us: u64) -> (r: Option<Flush>)
        requires
            old(self).well_formed(),
        ensures
            final(self).well_formed(),
            ({
                let o = *old(self);
                let f = *final(self);
                match o.nav.screen {
                    Screen::NoteEdit => {
                        &&& f == (Device { editor: o.editor.passed(now_us), ..o })
                        &&& r == o.editor.refresh_due(now_us)
                        &&& final(scene)@ == old(scene)@ + o.editor.settling(
                            o.notes@.text,
                            now_us,
                        )
                    },
                    Screen::Lora => {
                        &&& f == (Device { composer: o.composer.passed(now_us), ..o })
                        &&& r == o.composer.refresh_due(now_us)
                        &&& final(scene)@ == old(scene)@ + o.composer.settling(
                            o.lora@.message,
                            now_us,
                        )
                    },
                    _ => f == o && r is None && final(scene)@ == old(scene)@,
                }
            }),
    {
        match self.nav.screen {
            Screen::NoteEdit => {
                proof {
                    law_editor_shows_any_note(self.editor, self.notes@.text);
                }
                self.editor.end_pass(scene, self.notes.text.as_str(), now_us)
            },
            Screen::Lora => {
                proof {
                    lemma_len_within_bytes(self.lora@.message);
                    law_message_can_be_shown(self.composer, self.lora@.message);
                }
                self.composer.end_pass(scene, self.lora.message.as_str(), now_us)
            },
            _ => None,
        }
    }

    /// SEND was touched, and `sending` is what came of it. Says whether what was
    /// typed and the list of sent messages are painted.
    pub fn on_send(&mut self, sending: Sending, stamp: &str) -> (r: bool)
        requires
            old(self).well_formed(),
        ensures
            final(self).well_formed(),
            final(self).lora@ == after_send(old(self).lora@, sending, stamp@),
            r == (old(self).lora@.message.len() > 0 && !(sending is NoRadio)),
            *final(self) == (Device { lora: final(self).lora, ..*old(self) }),
    {
        proof {
            reveal_with_fuel(encode_utf8, 1);
        }
        self.lora.on_send(sending, stamp)
    }

    /// Takes the text of the open note, where it could be read; else the list
    /// comes up with the failure under it.
    pub fn on_note(&mut self, text: Option<String>)
        requires
            old(self).well_formed(),
            text matches Some(t) ==> t@.len() <= EDITABLE_CHARS,
        ensures
            final(self).well_formed(),
            final(self).notes@ == (NotesView {
                note_dirty: false,
                text: match text {
                    Some(t) => t@,
                    None => old(self).notes@.text,
                },
                status: match text {
                    Some(_) => old(self).notes@.status,
                    None => "note read failed"@,
                },
                ..old(self).notes@
            }),
            *final(self) == (Device {
                notes: final(self).notes,
                nav: Nav {
                    screen: if text is Some {
                        old(self).nav.screen
                    } else {
                        Screen::Notes
                    },
                    needs_redraw: true,
                },
                ..*old(self)
            }),
    {
        self.notes.on_note(text, &mut self.nav);
    }
}

/// What of the panel is refreshed at once after a key: the keyboard, where its
/// layer changed.
pub open spec fn layer_flush(key: Key) -> Option<Flush> {
    if key == Key::Shift || key == Key::Symbols {
        Some(Flush::Fast(native_of(0, 594, 540, 356)))
    } else {
        None
    }
}

/// A field after a key that made its text `after`.
pub open spec fn field_after(
    field: TextField,
    key: Key,
    before: Seq<char>,
    after: Seq<char>,
    now_us: u64,
) -> TextField {
    match key {
        Key::Shift => TextField { shift: !field.shift, ..field },
        Key::Symbols => TextField { symbols: !field.symbols, ..field },
        _ => if after != before {
            field.touched(now_us)
        } else {
            field
        },
    }
}

/// What a key paints: the keyboard in its new layer, or the text.
pub open spec fn typed_picture(
    field: TextField,
    key: Key,
    before: Seq<char>,
    after: Seq<char>,
) -> Picture {
    match key {
        Key::Shift => keyboard_picture(field.symbols, !field.shift, field.enter_label@),
        Key::Symbols => keyboard_picture(!field.symbols, field.shift, field.enter_label@),
        _ => if after != before {
            field.picture(after)
        } else {
            seq![]
        },
    }
}

/// A text has no more characters than bytes.
pub proof fn lemma_len_within_bytes(text: Seq<char>)
    ensures
        text.len() <= encode_utf8(text).len(),
    decreases text.len(),
{
    if text.len() > 0 {
        lemma_len_within_bytes(text.drop_first());
        assert(encode_scalar(text[0] as u32).len() >= 1);
    }
}

/// A key that changes the text marks its field for a refresh and paints it with
/// the new text; one that changes the keyboard turns over that one layer and
/// paints the keyboard as it is then; one that does neither paints nothing.
pub proof fn law_keys_paint_what_they_change(
    field: TextField,
    key: Key,
    before: Seq<char>,
    after: Seq<char>,
    now_us: u64,
)
    requires
        field.chars_this_pass < u32::MAX,
    ensures
        ({
            let f = field_after(field, key, before, after, now_us);
            let shown = typed_picture(field, key, before, after);
            &&& key == Key::Shift ==> {
                &&& f == (TextField { shift: !field.shift, ..field })
                &&& shown == keyboard_picture(f.symbols, f.shift, f.enter_label@)
            }
            &&& key == Key::Symbols ==> {
                &&& f == (TextField { symbols: !field.symbols, ..field })
                &&& shown == keyboard_picture(f.symbols, f.shift, f.enter_label@)
            }
            &&& key != Key::Shift && key != Key::Symbols && after != before ==> {
                &&& f.dirty
                &&& f.last_edit_us == now_us
                &&& f.chars_this_pass == field.chars_this_pass + 1
                &&& shown == field.picture(after)
            }
            &&& key != Key::Shift && key != Key::Symbols && after == before ==> {
                &&& f == field
                &&& shown.len() == 0
            }
        }),
{
}

} // verus!
