//! The notes: moving through the list, and opening, editing and leaving a note.
use vstd::prelude::*;
use vstd::string::*;

use super::nav::{Nav, Screen};
use super::wifi_page::Keys;
use crate::pages::notes::{
    entry_views, list_hit, new_hit, next_name, next_number, note_name, scroll_down_hit,
    scroll_up_hit, Entry, EntryView, VISIBLE,
};
use crate::layout::inside;
use crate::text::{dec, own, push_dec};

verus! {

/// The state of the notes.
pub struct NotesPage {
    pub entries: Vec<Entry>,
    pub scroll: usize,
    pub status: String,
    /// Whether the list is to be loaded.
    pub dirty: bool,
    /// The name of the open note.
    pub name: String,
    /// The text of the open note.
    pub text: String,
    /// Whether the open note is to be loaded.
    pub note_dirty: bool,
    /// Whether a touch of the delete button deletes.
    pub delete_armed: bool,
}

/// What is known of the notes.
#[verifier::ext_equal]
pub struct NotesView {
    pub entries: Seq<EntryView>,
    pub scroll: int,
    pub status: Seq<char>,
    pub dirty: bool,
    pub name: Seq<char>,
    pub text: Seq<char>,
    pub note_dirty: bool,
    pub delete_armed: bool,
}

impl View for NotesPage {
    type V = NotesView;

    open spec fn view(&self) -> NotesView {
        NotesView {
            entries: entry_views(self.entries@),
            scroll: self.scroll as int,
            status: self.status@,
            dirty: self.dirty,
            name: self.name@,
            text: self.text@,
            note_dirty: self.note_dirty,
            delete_armed: self.delete_armed,
        }
    }
}

/// What a touch of the list is on.
#[derive(Clone, Copy, Debug, PartialEq, Eq, Structural)]
pub enum ListSpot {
    Back,
    Up,
    Down,
    New,
    /// The note of this number.
    Note(usize),
    Nothing,
}

/// What a touch of the list is on, where `back` says that it is on the back
/// button.
pub open spec fn spot_at(sx: int, sy: int, count: int, scroll: int, back: bool) -> ListSpot {
    if back {
        ListSpot::Back
    } else if inside(sx, sy, 25, 774, 150, 80) {
        ListSpot::Up
    } else if inside(sx, sy, 195, 774, 150, 80) {
        ListSpot::Down
    } else if inside(sx, sy, 365, 774, 150, 80) {
        ListSpot::New
    } else if inside(sx, sy, 20, 150, 500, 588) && scroll + (sy - 150) / 42 < count {
        ListSpot::Note((scroll + (sy - 150) / 42) as usize)
    } else {
        ListSpot::Nothing
    }
}

/// What of the list is painted anew.
#[derive(Clone, Copy, Debug, PartialEq, Eq, Structural)]
pub enum ListRepaint {
    Nothing,
    List,
    Footer,
}

/// How far up the list goes.
pub open spec fn page_up(scroll: int) -> int {
    if scroll < 14 {
        0
    } else {
        scroll - 14
    }
}

/// How far down the list goes: not past its end.
pub open spec fn page_down(scroll: int, count: int) -> int {
    if scroll + 14 < count {
        scroll + 14
    } else {
        scroll
    }
}

/// The notes after a touch of the list.
pub open spec fn list_touched(n: NotesView, spot: ListSpot) -> NotesView {
    match spot {
        ListSpot::Up => NotesView { scroll: page_up(n.scroll), ..n },
        ListSpot::Down => NotesView {
            scroll: page_down(n.scroll, n.entries.len() as int),
            ..n
        },
        ListSpot::New => match next_number(n.entries) {
            Some(number) => NotesView {
                name: note_name(number),
                text: seq![],
                delete_armed: false,
                ..n
            },
            None => NotesView { status: "notes full"@, ..n },
        },
        ListSpot::Note(i) => NotesView {
            name: n.entries[i as int].name,
            delete_armed: false,
            note_dirty: true,
            ..n
        },
        _ => n,
    }
}

/// Whether a touch of the list opens the editor.
pub open spec fn opens_editor(n: NotesView, spot: ListSpot) -> bool {
    match spot {
        ListSpot::New => next_number(n.entries) is Some,
        ListSpot::Note(_) => true,
        _ => false,
    }
}

/// What a touch of the editor does.
#[derive(Clone, Copy, Debug, PartialEq, Eq, Structural)]
pub enum EditorTouch {
    /// The note is saved, and the list comes up.
    SaveAndLeave,
    /// The note is deleted, and the list comes up.
    DeleteAndLeave,
    /// The delete button asks for a second touch.
    Arm,
    /// The touch is for the keyboard; whether the delete button is to be
    /// painted as it was before it asked.
    Type { disarmed: bool },
}

/// What a touch of the editor is: whether it is on the way back or on Delete,
/// and whether Delete has asked.
pub open spec fn editor_touch(armed: bool, back: bool, delete: bool) -> EditorTouch {
    if back {
        EditorTouch::SaveAndLeave
    } else if delete {
        if armed {
            EditorTouch::DeleteAndLeave
        } else {
            EditorTouch::Arm
        }
    } else {
        EditorTouch::Type { disarmed: armed }
    }
}

/// Whether Delete has asked, after a touch that does not leave the editor.
pub open spec fn armed_after(touch: EditorTouch) -> bool {
    touch == EditorTouch::Arm
}

impl NotesPage {
    /// Nothing loaded yet.
    pub fn new(active: bool) -> (r: Self)
        ensures
            r@ == (NotesView {
                entries: seq![],
                scroll: 0,
                status: seq![],
                dirty: active,
                name: seq![],
                text: seq![],
                note_dirty: false,
                delete_armed: false,
            }),
    {
        let r: NotesPage = NotesPage {
            entries: Vec::new(),
            scroll: 0,
            status: String::new(),
            dirty: active,
            name: String::new(),
            text: String::new(),
            note_dirty: false,
            delete_armed: false,
        };
        assert(r@.entries =~= seq![]);
        r
    }

    /// What a touch of the list is on.
    pub fn spot(&self, sx: i32, sy: i32, back: bool) -> (r: ListSpot)
        ensures
            r == spot_at(
                sx as int,
                sy as int,
                self@.entries.len() as int,
                self@.scroll,
                back,
            ),
    {
        if back {
            ListSpot::Back
        } else if scroll_up_hit(sx, sy) {
            ListSpot::Up
        } else if scroll_down_hit(sx, sy) {
            ListSpot::Down
        } else if new_hit(sx, sy) {
            ListSpot::New
        } else {
            match list_hit(sx, sy, self.entries.len(), self.scroll) {
                Some(i) => ListSpot::Note(i),
                None => ListSpot::Nothing,
            }
        }
    }

    /// A touch of the list.
    pub fn touch_list(&mut self, spot: ListSpot, nav: &mut Nav, keys: &mut Keys) -> (r:
        ListRepaint)
        requires
            spot matches ListSpot::Note(i) ==> i < old(self)@.entries.len(),
        ensures
            final(self)@ == list_touched(old(self)@, spot),
            *final(keys) == if opens_editor(old(self)@, spot) {
                Keys { symbols: false, shift: false }
            } else {
                *old(keys)
            },
            final(nav).screen == if spot == ListSpot::Back {
                Screen::Home
            } else if opens_editor(old(self)@, spot) {
                Screen::NoteEdit
            } else {
                old(nav).screen
            },
            final(nav).needs_redraw == (old(nav).needs_redraw || spot == ListSpot::Back || (spot
                == ListSpot::New && opens_editor(old(self)@, spot))),
            r == match spot {
                ListSpot::Up => if old(self)@.scroll > 0 {
                    ListRepaint::List
                } else {
                    ListRepaint::Nothing
                },
                ListSpot::Down => if final(self)@.scroll != old(self)@.scroll {
                    ListRepaint::List
                } else {
                    ListRepaint::Nothing
                },
                ListSpot::New => if opens_editor(old(self)@, spot) {
                    ListRepaint::Nothing
                } else {
                    ListRepaint::Footer
                },
                _ => ListRepaint::Nothing,
            },
    {
        let ghost before = self@;
        match spot {
            ListSpot::Back => {
                nav.go(Screen::Home);
                ListRepaint::Nothing
            },
            ListSpot::Up => {
                if self.scroll > 0 {
                    self.scroll = if self.scroll < VISIBLE {
                        0
                    } else {
                        self.scroll - VISIBLE
                    };
                    ListRepaint::List
                } else {
                    ListRepaint::Nothing
                }
            },
            ListSpot::Down => {
                let count: usize = self.entries.len();
                if self.scroll < count && VISIBLE < count - self.scroll {
                    self.scroll = self.scroll + VISIBLE;
                    ListRepaint::List
                } else {
                    ListRepaint::Nothing
                }
            },
            ListSpot::New => {
                match next_name(&self.entries) {
                    Some(name) => {
                        self.name = name;
                        self.text = String::new();
                        keys.symbols = false;
                        keys.shift = false;
                        self.delete_armed = false;
                        nav.go(Screen::NoteEdit);
                        ListRepaint::Nothing
                    },
                    None => {
                        self.status = own("notes full");
                        ListRepaint::Footer
                    },
                }
            },
            ListSpot::Note(i) => {
                assert(before.entries[i as int] == self.entries@[i as int]@);
                let name: String = own(self.entries[i].name.as_str());
                self.name = name;
                keys.symbols = false;
                keys.shift = false;
                self.delete_armed = false;
                self.note_dirty = true;
                nav.screen = Screen::NoteEdit;
                ListRepaint::Nothing
            },
            ListSpot::Nothing => ListRepaint::Nothing,
        }
    }

    /// A touch of the editor: on the back button, on the delete button, or for
    /// the keyboard. Deleting takes two touches in a row.
    pub fn touch_editor(&mut self, nav: &mut Nav, back: bool, delete: bool) -> (r: EditorTouch)
        ensures
            r == editor_touch(old(self)@.delete_armed, back, delete),
            !(r is SaveAndLeave) && !(r is DeleteAndLeave) ==> final(self)@.delete_armed
                == armed_after(r),
            r == if back {
                EditorTouch::SaveAndLeave
            } else if delete {
                if old(self)@.delete_armed {
                    EditorTouch::DeleteAndLeave
                } else {
                    EditorTouch::Arm
                }
            } else {
                EditorTouch::Type { disarmed: old(self)@.delete_armed }
            },
            ({
                let leaves = r == EditorTouch::SaveAndLeave || r == EditorTouch::DeleteAndLeave;
                &&& final(self)@ == (NotesView {
                    dirty: old(self)@.dirty || leaves,
                    delete_armed: if leaves {
                        old(self)@.delete_armed
                    } else {
                        r == EditorTouch::Arm
                    },
                    ..old(self)@
                })
                &&& *final(nav) == (Nav {
                    screen: if leaves {
                        Screen::Notes
                    } else {
                        old(nav).screen
                    },
                    ..*old(nav)
                })
            }),
    {
        if back {
            self.dirty = true;
            nav.screen = Screen::Notes;
            EditorTouch::SaveAndLeave
        } else if delete {
            if self.delete_armed {
                self.dirty = true;
                nav.screen = Screen::Notes;
                EditorTouch::DeleteAndLeave
            } else {
                self.delete_armed = true;
                EditorTouch::Arm
            }
        } else {
            let disarmed: bool = self.delete_armed;
            self.delete_armed = false;
            EditorTouch::Type { disarmed }
        }
    }

    /// Takes the list, where it could be loaded.
    pub fn on_list(&mut self, loaded: Option<Vec<Entry>>, nav: &mut Nav)
        ensures
            final(self)@ == notes_listed(
                old(self)@,
                match loaded {
                    Some(e) => Some(entry_views(e@)),
                    None => None,
                },
            ),
            final(self)@ == (NotesView {
                dirty: false,
                scroll: 0,
                entries: match loaded {
                    Some(e) => entry_views(e@),
                    None => seq![],
                },
                status: match loaded {
                    Some(e) => dec(e@.len() as int) + " notes"@,
                    None => "SD read failed"@,
                },
                ..old(self)@
            }),
            *final(nav) == (Nav { needs_redraw: true, ..*old(nav) }),
    {
        self.dirty = false;
        self.scroll = 0;
        match loaded {
            Some(e) => {
                let mut s: String = String::new();
                push_dec(&mut s, e.len() as u64);
                s.append(" notes");
                assert(s@ =~= dec(e@.len() as int) + " notes"@);
                self.status = s;
                self.entries = e;
            },
            None => {
                self.entries = Vec::new();
                self.status = own("SD read failed");
                assert(self@.entries =~= seq![]);
            },
        }
        nav.needs_redraw = true;
    }

    /// Takes the text of the open note, where it could be read; else the list
    /// comes up with the failure under it.
    pub fn on_note(&mut self, text: Option<String>, nav: &mut Nav)
        ensures
            final(self)@ == note_opened(
                old(self)@,
                match text {
                    Some(t) => Some(t@),
                    None => None,
                },
            ),
            final(self)@ == (NotesView {
                note_dirty: false,
                text: match text {
                    Some(t) => t@,
                    None => old(self)@.text,
                },
                status: match text {
                    Some(_) => old(self)@.status,
                    None => "note read failed"@,
                },
                ..old(self)@
            }),
            *final(nav) == (Nav {
                screen: if text is Some {
                    old(nav).screen
                } else {
                    Screen::Notes
                },
                needs_redraw: true,
            }),
    {
        self.note_dirty = false;
        match text {
            Some(t) => {
                self.text = t;
            },
            None => {
                self.status = own("note read failed");
                nav.screen = Screen::Notes;
            },
        }
        nav.needs_redraw = true;
    }
}

/// The list never goes past its ends: wherever it was within the list, it is
/// after a page up or down.
pub proof fn law_list_stays_within(scroll: int, count: int)
    requires
        0 <= scroll,
        scroll == 0 || scroll < count,
    ensures
        0 <= page_up(scroll) <= scroll,
        page_down(scroll, count) == 0 || page_down(scroll, count) < count,
        scroll + 14 < count ==> page_up(page_down(scroll, count)) == scroll,
{
}

/// A note is deleted only by two touches of the button in a row: any other
/// touch between them makes the next one ask again.
pub open spec fn deletes(armed: bool, touches: Seq<bool>) -> bool
    decreases touches.len(),
{
    if touches.len() == 0 {
        false
    } else if touches[0] {
        armed || deletes(true, touches.drop_first())
    } else {
        deletes(false, touches.drop_first())
    }
}

/// Where a run of touches deletes, two of them in a row were on the button.
pub proof fn law_deleting_takes_two_touches(touches: Seq<bool>)
    requires
        deletes(false, touches),
    ensures
        exists|i: int| 0 <= i < touches.len() - 1 && touches[i] && #[trigger] touches[i + 1],
    decreases touches.len(),
{
    let rest = touches.drop_first();
    if touches[0] && rest.len() > 0 && rest[0] {
        assert(touches[0int] && touches[0int + 1]);
    } else {
        if touches[0] {
            assert(deletes(true, rest));
            assert(rest.len() > 0 && !rest[0]);
            assert(deletes(false, rest.drop_first()));
            assert(deletes(false, rest));
        }
        law_deleting_takes_two_touches(rest);
        let i = choose|i: int| 0 <= i < rest.len() - 1 && rest[i] && #[trigger] rest[i + 1];
        assert(touches[i + 1] && touches[(i + 1) + 1]);
    }
}

/// A touch of the list opens the note that is shown there: rows of 42 pixels
/// from the place scrolled to on, fourteen of them. Below them are the buttons.
pub proof fn law_touch_opens_what_is_shown(sx: int, sy: int, count: int, scroll: int, i: int)
    requires
        0 <= scroll,
        scroll + 14 <= usize::MAX,
        0 <= i < 14,
    ensures
        20 <= sx < 520 && 150 + 42 * i <= sy < 192 + 42 * i ==> spot_at(
            sx,
            sy,
            count,
            scroll,
            false,
        ) == if scroll + i < count {
            ListSpot::Note((scroll + i) as usize)
        } else {
            ListSpot::Nothing
        },
        25 <= sx < 175 && 774 <= sy < 854 ==> spot_at(sx, sy, count, scroll, false)
            == ListSpot::Up,
        195 <= sx < 345 && 774 <= sy < 854 ==> spot_at(sx, sy, count, scroll, false)
            == ListSpot::Down,
        365 <= sx < 515 && 774 <= sy < 854 ==> spot_at(sx, sy, count, scroll, false)
            == ListSpot::New,
        spot_at(sx, sy, count, scroll, true) == ListSpot::Back,
        sy < 150 || 738 <= sy < 774 || 854 <= sy ==> spot_at(sx, sy, count, scroll, false)
            == ListSpot::Nothing,
{
    if 150 + 42 * i <= sy < 192 + 42 * i {
        assert((sy - 150) / 42 == i);
    }
}

/// A touch of a note opens that note, to be read from the card; a touch of New
/// opens an empty one with a name that is free; and none of the touches changes
/// the list itself.
pub proof fn law_touches_of_the_list(n: NotesView, i: usize)
    requires
        i < n.entries.len(),
    ensures
        ({
            let after = list_touched(n, ListSpot::Note(i));
            &&& after.name == n.entries[i as int].name
            &&& after.note_dirty
            &&& !after.delete_armed
            &&& after.entries == n.entries
            &&& after.scroll == n.scroll
            &&& after.status == n.status
            &&& after.text == n.text
            &&& opens_editor(n, ListSpot::Note(i))
        }),
        next_number(n.entries) matches Some(number) ==> {
            let after = list_touched(n, ListSpot::New);
            &&& after.name == note_name(number)
            &&& after.text.len() == 0
            &&& !after.delete_armed
            &&& after.entries == n.entries
            &&& after.note_dirty == n.note_dirty
            &&& opens_editor(n, ListSpot::New)
        },
        next_number(n.entries) is None ==> list_touched(n, ListSpot::New) == (NotesView {
            status: "notes full"@,
            ..n
        }) && !opens_editor(n, ListSpot::New),
        list_touched(n, ListSpot::Nothing) == n,
        list_touched(n, ListSpot::Back) == n,
        list_touched(n, ListSpot::Up) == (NotesView {
            scroll: if n.scroll < 14 {
                0
            } else {
                n.scroll - 14
            },
            ..n
        }),
        list_touched(n, ListSpot::Down) == (NotesView {
            scroll: if n.scroll + 14 < n.entries.len() {
                n.scroll + 14
            } else {
                n.scroll
            },
            ..n
        }),
        !opens_editor(n, ListSpot::Up),
        !opens_editor(n, ListSpot::Down),
        !opens_editor(n, ListSpot::Back),
        !opens_editor(n, ListSpot::Nothing),
{
}

/// Two touches of Delete in a row delete, whatever came before them.
pub proof fn law_two_touches_delete(armed: bool, touches: Seq<bool>, i: int)
    requires
        0 <= i < touches.len() - 1,
        touches[i],
        touches[i + 1],
    ensures
        deletes(armed, touches),
    decreases touches.len(),
{
    let rest = touches.drop_first();
    if i == 0 {
        assert(rest[0] == touches[1]);
        assert(deletes(true, rest));
    } else {
        assert(rest[i - 1] == touches[i]);
        assert(rest[i] == touches[i + 1]);
        law_two_touches_delete(touches[0], rest, i - 1);
    }
}

/// A note is deleted only by a touch of Delete right after another one, and
/// always by it; it is saved by every touch of the way back, and by nothing
/// else; any other touch is for the keyboard, and makes Delete ask again.
pub proof fn law_editor_saves_or_deletes(armed: bool, delete: bool, again: bool)
    ensures
        editor_touch(armed, true, delete) is SaveAndLeave,
        !(editor_touch(armed, false, delete) is SaveAndLeave),
        editor_touch(armed, false, delete) is DeleteAndLeave <==> armed && delete,
        armed_after(editor_touch(false, false, delete)) <==> delete,
        !armed_after(editor_touch(armed, false, false)),
        editor_touch(armed_after(editor_touch(false, false, delete)), false, again)
            is DeleteAndLeave <==> delete && again,
{
}

/// The page after the notes of the card were read, or could not be.
pub open spec fn notes_listed(n: NotesView, loaded: Option<Seq<EntryView>>) -> NotesView {
    match loaded {
        Some(e) => NotesView {
            dirty: false,
            scroll: 0,
            entries: e,
            status: dec(e.len() as int) + " notes"@,
            ..n
        },
        None => NotesView {
            dirty: false,
            scroll: 0,
            entries: seq![],
            status: "SD read failed"@,
            ..n
        },
    }
}

/// The page after a note was read, or could not be.
pub open spec fn note_opened(n: NotesView, text: Option<Seq<char>>) -> NotesView {
    match text {
        Some(t) => NotesView { note_dirty: false, text: t, ..n },
        None => NotesView { note_dirty: false, status: "note read failed"@, ..n },
    }
}

/// All notes that were read are listed, from the first on, and a note that was
/// opened is there whole, to be edited; one that could not be read leaves the
/// text as it was. The name of the open note stays.
pub proof fn law_notes_are_opened_whole(n: NotesView, e: Seq<EntryView>, text: Seq<char>)
    ensures
        notes_listed(n, Some(e)).entries == e,
        notes_listed(n, Some(e)).scroll == 0,
        !notes_listed(n, Some(e)).dirty,
        notes_listed(n, Some(e)).status == dec(e.len() as int) + " notes"@,
        notes_listed(n, Some(e)).text == n.text,
        notes_listed(n, None).entries.len() == 0,
        notes_listed(n, None).status == "SD read failed"@,
        note_opened(n, Some(text)).text == text,
        note_opened(n, Some(text)).name == n.name,
        note_opened(n, Some(text)).entries == n.entries,
        !note_opened(n, Some(text)).note_dirty,
        note_opened(n, None).text == n.text,
        note_opened(n, None).status == "note read failed"@,
        !note_opened(n, None).note_dirty,
{
}

} // verus!
