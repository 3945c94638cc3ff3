//! What is loaded from the card, and when.
use vstd::prelude::*;
use vstd::string::*;

use super::{Device, Shelf};
use crate::pages::lora::Tab;
use crate::pages::notes::{entry_views, Entry};
use crate::state::Remote;
use crate::text::{dec, own};
use crate::ui::files_page::{file_views, FileEntry, FilesPage, FilesView};
use crate::ui::lora_page::LoraView;
use crate::ui::map_page::MapPage;
use crate::ui::nav::{Nav, Screen};
use crate::ui::notes_page::NotesView;

verus! {

/// What is to be loaded from the card.
#[derive(Clone, Copy, Debug, PartialEq, Eq, Structural)]
pub enum Load {
    Nothing,
    /// The listing of the browser.
    Files,
    /// The list of notes.
    Notes,
    /// The text of the open note.
    Note,
    /// The open book.
    Book,
    /// The books of the shelf.
    Shelf,
}

impl Device {
    /// What is to be loaded now: what the screen that is up wants. The shelf is
    /// painted as loading first.
    pub open spec fn load_due(&self) -> Load {
        match self.nav.screen {
            Screen::Files if self.files.dirty => Load::Files,
            Screen::Notes if self.notes.dirty => Load::Notes,
            Screen::NoteEdit if self.notes.note_dirty => Load::Note,
            Screen::Reader if self.files.reader_dirty => Load::Book,
            Screen::Library if self.shelf.dirty && !self.nav.needs_redraw => Load::Shelf,
            _ => Load::Nothing,
        }
    }

    /// What is to be loaded now.
    pub fn wanted_load(&self) -> (r: Load)
        ensures
            r == self.load_due(),
    {
        match self.nav.screen {
            Screen::Files => if self.files.dirty {
                Load::Files
            } else {
                Load::Nothing
            },
            Screen::Notes => if self.notes.dirty {
                Load::Notes
            } else {
                Load::Nothing
            },
            Screen::NoteEdit => if self.notes.note_dirty {
                Load::Note
            } else {
                Load::Nothing
            },
            Screen::Reader => if self.files.reader_dirty {
                Load::Book
            } else {
                Load::Nothing
            },
            Screen::Library => if self.shelf.is_dirty() && !self.nav.needs_redraw {
                Load::Shelf
            } else {
                Load::Nothing
            },
            _ => Load::Nothing,
        }
    }

    /// Takes a listing, where it could be loaded.
    pub fn on_files(&mut self, loaded: Option<Vec<FileEntry>>)
        ensures
            final(self).files@ == (FilesView {
                dirty: false,
                scroll: 0,
                entries: match loaded {
                    Some(e) => file_views(e@),
                    None => seq![],
                },
                status: match loaded {
                    Some(e) => dec(e@.len() as int) + " items"@,
                    None => "SD read failed"@,
                },
                ..old(self).files@
            }),
            *final(self) == (Device {
                files: final(self).files,
                nav: Nav { needs_redraw: true, ..old(self).nav },
                ..*old(self)
            }),
            old(self).well_formed() ==> final(self).well_formed(),
    {
        self.files.on_listing(loaded, &mut self.nav);
    }

    /// Takes the list of notes, where it could be loaded.
    pub fn on_notes(&mut self, loaded: Option<Vec<Entry>>)
        ensures
            final(self).notes@ == (NotesView {
                dirty: false,
                scroll: 0,
                entries: match loaded {
                    Some(e) => entry_views(e@),
                    None => seq![],
                },
                status: match loaded {
                    Some(e) => dec(e@.len() as int) + " notes"@,
                    None => "SD read failed"@,
                },
                ..old(self).notes@
            }),
            *final(self) == (Device {
                notes: final(self).notes,
                nav: Nav { needs_redraw: true, ..old(self).nav },
                ..*old(self)
            }),
            old(self).well_formed() ==> final(self).well_formed(),
    {
        self.notes.on_list(loaded, &mut self.nav);
    }

    /// The open book was loaded, or could not be: either way it is painted.
    pub fn on_book(&mut self)
        ensures
            *final(self) == (Device {
                files: FilesPage { reader_dirty: false, ..old(self).files },
                nav: Nav { needs_redraw: true, ..old(self).nav },
                ..*old(self)
            }),
            old(self).well_formed() ==> final(self).well_formed(),
    {
        self.files.reader_dirty = false;
        self.nav.needs_redraw = true;
    }

    /// The books of the shelf were loaded, or could not be.
    pub fn on_shelf(&mut self, shelf: Shelf)
        ensures
            *final(self) == (Device {
                shelf: Remote { view: shelf, dirty: false },
                nav: Nav { needs_redraw: true, ..old(self).nav },
                ..*old(self)
            }),
            old(self).well_formed() ==> final(self).well_formed(),
    {
        self.shelf.clear();
        self.shelf.view = shelf;
        self.nav.needs_redraw = true;
    }

    /// Begins to save the area around the device, where that was asked for and
    /// no session runs. Says whether it goes on: without a position the wish
    /// is dropped.
    pub fn begin_area(&mut self, has_fix: bool) -> (r: bool)
        ensures
            ({
                let o = *old(self);
                let wanted = o.nav.screen == Screen::Gps && o.map.download && o.pending is None;
                &&& r == (wanted && has_fix)
                &&& *final(self) == if wanted {
                    Device {
                        map: MapPage { download: false, ..o.map },
                        ..o
                    }
                } else {
                    o
                }
            }),
            old(self).well_formed() ==> final(self).well_formed(),
    {
        if self.area_wanted() {
            self.map.download = false;
            has_fix
        } else {
            false
        }
    }

    /// Opens the log of messages, from any screen.
    pub fn open_log(&mut self)
        ensures
            final(self).lora@ == (LoraView { tab: Tab::Recv, ..old(self).lora@ }),
            *final(self) == (Device {
                lora: final(self).lora,
                nav: Nav { screen: Screen::Lora, needs_redraw: true },
                ..*old(self)
            }),
            old(self).well_formed() ==> final(self).well_formed(),
    {
        self.lora.tab = Tab::Recv;
        self.nav.go(Screen::Lora);
    }

    /// The radio could not be set up.
    pub fn on_no_radio(&mut self)
        ensures
            final(self).lora@ == (LoraView {
                status: "radio init failed"@,
                ..old(self).lora@
            }),
            *final(self) == (Device { lora: final(self).lora, ..*old(self) }),
            old(self).well_formed() ==> final(self).well_formed(),
    {
        self.lora.status = own("radio init failed");
    }
}

/// What is read from the card is what the page that is up has to show and does
/// not have yet, and nothing for any other page.
pub proof fn law_page_loads_what_it_lacks(d: Device)
    ensures
        d.load_due() == Load::Files <==> d.nav.screen == Screen::Files && d.files.dirty,
        d.load_due() == Load::Notes <==> d.nav.screen == Screen::Notes && d.notes.dirty,
        d.load_due() == Load::Note <==> d.nav.screen == Screen::NoteEdit && d.notes.note_dirty,
        d.load_due() == Load::Book <==> d.nav.screen == Screen::Reader && d.files.reader_dirty,
        d.load_due() == Load::Shelf <==> d.nav.screen == Screen::Library && d.shelf.dirty
            && !d.nav.needs_redraw,
{
}

} // verus!
