//! The browser of the card and the shelf of books: moving through them and
//! opening what they list.
use vstd::prelude::*;
use vstd::string::*;

use super::nav::{Nav, Screen};
use crate::text::{dec, own, push_dec};

verus! {

/// A file or a folder.
pub struct FileEntry {
    pub name: String,
    pub path: String,
    pub is_directory: bool,
    pub size: u32,
}

/// What is known of a file or a folder.
pub struct FileView {
    pub name: Seq<char>,
    pub path: Seq<char>,
    pub is_directory: bool,
    pub size: u32,
}

impl View for FileEntry {
    type V = FileView;

    open spec fn view(&self) -> FileView {
        FileView {
            name: self.name@,
            path: self.path@,
            is_directory: self.is_directory,
            size: self.size,
        }
    }
}

/// What is known of a listing.
pub open spec fn file_views(s: Seq<FileEntry>) -> Seq<FileView> {
    Seq::new(s.len(), |i: int| s[i]@)
}

/// What can be opened.
#[derive(Clone, Copy, Debug, PartialEq, Eq, Structural)]
pub enum FileKind {
    /// A picture.
    Image,
    /// A book.
    Book,
    /// Anything else.
    Other,
}

/// The state of the browser, and of the reader that it opens.
pub struct FilesPage {
    pub path: String,
    pub entries: Vec<FileEntry>,
    pub scroll: usize,
    pub status: String,
    /// Whether the listing is to be loaded.
    pub dirty: bool,
    /// The picture that is shown.
    pub image_path: String,
    /// The book that is open.
    pub reader_path: String,
    /// Whether the book is to be loaded.
    pub reader_dirty: bool,
    /// Where the reader leads back to.
    pub reader_return: Screen,
}

/// What is known of the browser.
#[verifier::ext_equal]
pub struct FilesView {
    pub path: Seq<char>,
    pub entries: Seq<FileView>,
    pub scroll: int,
    pub status: Seq<char>,
    pub dirty: bool,
    pub image_path: Seq<char>,
    pub reader_path: Seq<char>,
    pub reader_dirty: bool,
    pub reader_return: Screen,
}

impl View for FilesPage {
    type V = FilesView;

    open spec fn view(&self) -> FilesView {
        FilesView {
            path: self.path@,
            entries: file_views(self.entries@),
            scroll: self.scroll as int,
            status: self.status@,
            dirty: self.dirty,
            image_path: self.image_path@,
            reader_path: self.reader_path@,
            reader_dirty: self.reader_dirty,
            reader_return: self.reader_return,
        }
    }
}

/// The browser after a touch of an entry: a folder is opened, a picture shown,
/// a book read, and of anything else the size is told.
pub open spec fn entry_opened(p: FilesView, e: FileView, kind: FileKind) -> FilesView {
    if e.is_directory {
        FilesView { path: e.path, dirty: true, ..p }
    } else {
        match kind {
            FileKind::Image => FilesView { image_path: e.path, ..p },
            FileKind::Book => FilesView {
                reader_path: e.path,
                reader_dirty: true,
                reader_return: Screen::Files,
                ..p
            },
            FileKind::Other => FilesView {
                status: e.name + " - "@ + dec(e.size as int) + " bytes"@,
                ..p
            },
        }
    }
}

impl FilesPage {
    /// The browser at the root of the card.
    pub fn new(active: bool) -> (r: Self)
        ensures
            r@ == (FilesView {
                path: "/"@,
                entries: seq![],
                scroll: 0,
                status: seq![],
                dirty: active,
                image_path: seq![],
                reader_path: seq![],
                reader_dirty: false,
                reader_return: Screen::Files,
            }),
    {
        let r: FilesPage = FilesPage {
            path: own("/"),
            entries: Vec::new(),
            scroll: 0,
            status: String::new(),
            dirty: active,
            image_path: String::new(),
            reader_path: String::new(),
            reader_dirty: false,
            reader_return: Screen::Files,
        };
        assert(r@.entries =~= seq![]);
        r
    }

    /// Goes to a folder, which is then loaded.
    pub fn enter(&mut self, path: String)
        ensures
            final(self)@ == (FilesView { path: path@, dirty: true, ..old(self)@ }),
    {
        self.path = path;
        self.dirty = true;
    }

    /// Scrolls up by `rows`. Says whether the listing is painted.
    pub fn scroll_up(&mut self, rows: usize) -> (r: bool)
        ensures
            final(self)@.scroll == rows_up(old(self)@.scroll, rows as int),
            r == (old(self)@.scroll > 0),
            final(self)@ == (FilesView {
                scroll: if old(self)@.scroll < rows {
                    0
                } else {
                    old(self)@.scroll - rows
                },
                ..old(self)@
            }),
    {
        let moved: bool = self.scroll > 0;
        self.scroll = if self.scroll < rows {
            0
        } else {
            self.scroll - rows
        };
        moved
    }

    /// Scrolls down by `rows`, but not past the end of `total`. Says whether
    /// the listing is painted.
    pub fn scroll_down(&mut self, rows: usize, total: usize) -> (r: bool)
        ensures
            final(self)@.scroll == rows_down(old(self)@.scroll, rows as int, total as int),
            r == (old(self)@.scroll + rows < total),
            final(self)@ == (FilesView {
                scroll: if r {
                    old(self)@.scroll + rows
                } else {
                    old(self)@.scroll
                },
                ..old(self)@
            }),
    {
        if self.scroll < total && rows < total - self.scroll {
            self.scroll = self.scroll + rows;
            true
        } else {
            false
        }
    }

    /// An entry was touched, where `kind` is what it is unless it is a folder.
    /// Says whether the line under the listing is painted.
    pub fn open_entry(&mut self, i: usize, kind: FileKind, nav: &mut Nav) -> (r: bool)
        ensures
            i >= old(self)@.entries.len() ==> !r && *final(self) == *old(self) && *final(nav)
                == *old(nav),
            i < old(self)@.entries.len() ==> {
                let e = old(self)@.entries[i as int];
                &&& final(self)@ == entry_opened(old(self)@, e, kind)
                &&& r == (!e.is_directory && kind == FileKind::Other)
                &&& final(nav).screen == if e.is_directory || kind == FileKind::Other {
                    old(nav).screen
                } else if kind == FileKind::Image {
                    Screen::Image
                } else {
                    Screen::Reader
                }
                &&& final(nav).needs_redraw == (old(nav).needs_redraw || (!e.is_directory && kind
                    == FileKind::Image))
            },
    {
        if i >= self.entries.len() {
            return false;
        }
        let ghost before = self@;
        assert(before.entries[i as int] == self.entries@[i as int]@);
        let path: String = own(self.entries[i].path.as_str());
        if self.entries[i].is_directory {
            self.enter(path);
            false
        } else {
            match kind {
                FileKind::Image => {
                    self.image_path = path;
                    nav.go(Screen::Image);
                    false
                },
                FileKind::Book => {
                    self.open_book(path, Screen::Files, nav);
                    false
                },
                FileKind::Other => {
                    let mut s: String = own(self.entries[i].name.as_str());
                    s.append(" - ");
                    push_dec(&mut s, self.entries[i].size as u64);
                    s.append(" bytes");
                    assert(s@ =~= before.entries[i as int].name + " - "@ + dec(
                        before.entries[i as int].size as int,
                    ) + " bytes"@);
                    self.status = s;
                    true
                },
            }
        }
    }

    /// Opens a book; the reader leads back to where it was opened from. The
    /// screen is painted when the book is loaded.
    pub fn open_book(&mut self, path: String, from: Screen, nav: &mut Nav)
        ensures
            final(self)@ == (FilesView {
                reader_path: path@,
                reader_dirty: true,
                reader_return: from,
                ..old(self)@
            }),
            *final(nav) == (Nav { screen: Screen::Reader, ..*old(nav) }),
    {
        self.reader_path = path;
        self.reader_dirty = true;
        self.reader_return = from;
        nav.screen = Screen::Reader;
    }

    /// Takes a listing, where it could be loaded.
    pub fn on_listing(&mut self, loaded: Option<Vec<FileEntry>>, nav: &mut Nav)
        ensures
            final(self)@ == listed(
                old(self)@,
                match loaded {
                    Some(e) => Some(file_views(e@)),
                    None => None,
                },
            ),
            final(self)@ == (FilesView {
                dirty: false,
                scroll: 0,
                entries: match loaded {
                    Some(e) => file_views(e@),
                    None => seq![],
                },
                status: match loaded {
                    Some(e) => dec(e@.len() as int) + " items"@,
                    None => "SD read failed"@,
                },
                ..old(self)@
            }),
            *final(nav) == (Nav { needs_redraw: true, ..*old(nav) }),
    {
        self.dirty = false;
        self.scroll = 0;
        match loaded {
            Some(e) => {
                let mut s: String = String::new();
                push_dec(&mut s, e.len() as u64);
                s.append(" items");
                assert(s@ =~= dec(e@.len() as int) + " items"@);
                self.status = s;
                self.entries = e;
            },
            None => {
                self.entries = Vec::new();
                self.status = own("SD read failed");
                assert(self@.entries =~= seq![]);
            },
        }
        nav.needs_redraw = true;
    }

    /// The reader is left by its back button. Says whether the shelf is to be
    /// scanned anew, for how far the book was read.
    pub fn leave_reader(&self, nav: &mut Nav) -> (r: bool)
        ensures
            r == (self.reader_return == Screen::Library),
            *final(nav) == (Nav { screen: self.reader_return, needs_redraw: true }),
    {
        nav.go(self.reader_return);
        self.reader_return == Screen::Library
    }
}

/// Scrolls the shelf up by `rows` books, where there are as many above. Says
/// whether it did.
pub fn shelf_up(scroll: &mut usize, rows: usize) -> (r: bool)
    ensures
        r == (*old(scroll) >= rows),
        *final(scroll) == if r {
            *old(scroll) - rows
        } else {
            *old(scroll) as int
        },
{
    if *scroll >= rows {
        *scroll = *scroll - rows;
        true
    } else {
        false
    }
}

/// Scrolls the shelf down by `rows` books, where there are more below. Says
/// whether it did.
pub fn shelf_down(scroll: &mut usize, rows: usize, books: usize) -> (r: bool)
    ensures
        r == (*old(scroll) + rows < books),
        *final(scroll) == if r {
            *old(scroll) + rows
        } else {
            *old(scroll) as int
        },
{
    if *scroll < books && rows < books - *scroll {
        *scroll = *scroll + rows;
        true
    } else {
        false
    }
}

/// A touch of an entry opens it: a directory becomes the one that is listed, an
/// image the one that is shown, a book the one that is read, from where the
/// files are shown again; of any other file its name and size are told. Nothing
/// else of the page changes.
pub proof fn law_touched_entry_is_opened(p: FilesView, e: FileView, kind: FileKind)
    ensures
        ({
            let after = entry_opened(p, e, kind);
            let file = !e.is_directory;
            &&& after.entries == p.entries
            &&& after.scroll == p.scroll
            &&& after.path == if e.is_directory {
                e.path
            } else {
                p.path
            }
            &&& after.dirty == (p.dirty || e.is_directory)
            &&& after.image_path == if file && kind == FileKind::Image {
                e.path
            } else {
                p.image_path
            }
            &&& after.reader_path == if file && kind == FileKind::Book {
                e.path
            } else {
                p.reader_path
            }
            &&& after.reader_dirty == (p.reader_dirty || file && kind == FileKind::Book)
            &&& after.reader_return == if file && kind == FileKind::Book {
                Screen::Files
            } else {
                p.reader_return
            }
            &&& after.status == if file && kind == FileKind::Other {
                e.name + " - "@ + dec(e.size as int) + " bytes"@
            } else {
                p.status
            }
        }),
{
}

/// The listing holds every entry, with its name, its path, its size and whether
/// it is a directory.
pub proof fn law_listed_entries_are_whole(s: Seq<FileEntry>)
    ensures
        file_views(s).len() == s.len(),
        forall|i: int|
            0 <= i < s.len() ==> #[trigger] file_views(s)[i] == (FileView {
                name: s[i].name@,
                path: s[i].path@,
                is_directory: s[i].is_directory,
                size: s[i].size,
            }),
{
}

/// The row that the listing begins with after scrolling up.
pub open spec fn rows_up(scroll: int, rows: int) -> int {
    if scroll < rows {
        0
    } else {
        scroll - rows
    }
}

/// The row that the listing begins with after scrolling down.
pub open spec fn rows_down(scroll: int, rows: int, total: int) -> int {
    if scroll + rows < total {
        scroll + rows
    } else {
        scroll
    }
}

/// The page after its directory was read, or could not be.
pub open spec fn listed(p: FilesView, loaded: Option<Seq<FileView>>) -> FilesView {
    match loaded {
        Some(e) => FilesView {
            dirty: false,
            scroll: 0,
            entries: e,
            status: dec(e.len() as int) + " items"@,
            ..p
        },
        None => FilesView {
            dirty: false,
            scroll: 0,
            entries: seq![],
            status: "SD read failed"@,
            ..p
        },
    }
}

/// The listing is scrolled by whole pages and stays within the entries; where
/// there is a page further down, scrolling up leads back from it.
pub proof fn law_listing_is_scrolled_by_pages(scroll: int, rows: int, total: int)
    requires
        0 < rows,
        0 <= scroll,
        scroll == 0 || scroll < total,
    ensures
        0 <= rows_up(scroll, rows) <= scroll,
        rows_up(scroll, rows) > 0 ==> rows_up(scroll, rows) == scroll - rows,
        rows_down(scroll, rows, total) == 0 || rows_down(scroll, rows, total) < total,
        scroll + rows < total ==> rows_down(scroll, rows, total) == scroll + rows && rows_up(
            rows_down(scroll, rows, total),
            rows,
        ) == scroll,
        scroll + rows >= total ==> rows_down(scroll, rows, total) == scroll,
{
}

/// A directory that was read is listed whole, from its first entry on, and what
/// could not be read is an empty one; nothing else of the page changes.
pub proof fn law_directory_is_listed_whole(p: FilesView, e: Seq<FileView>)
    ensures
        listed(p, Some(e)).entries == e,
        listed(p, Some(e)).scroll == 0,
        !listed(p, Some(e)).dirty,
        listed(p, Some(e)).path == p.path,
        listed(p, Some(e)).status == dec(e.len() as int) + " items"@,
        listed(p, None).entries.len() == 0,
        !listed(p, None).dirty,
        listed(p, None).path == p.path,
        listed(p, None).status == "SD read failed"@,
{
}

} // verus!
