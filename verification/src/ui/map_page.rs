//! The map of the GPS page: where its picture comes from, saving an area, and
//! following the position.
use vstd::prelude::*;
use vstd::string::*;

use super::fetch::asked_for;
use super::nav::{Nav, Screen};
use super::pending::{in_step, saved_request, used_password, used_ssid, Pending};
use crate::keyboard::{capital, to_capital};
use crate::pages::gps::{
    cache_name, full_touch, map_cache_filename, FullAction, MapView, FULL_ZOOM_MAX, FULL_ZOOM_MIN,
    MAP_MAX_BYTES, MARKER_MOVE_PX, MARKER_REFRESH_TICKS,
};
use crate::settings::Settings;
use crate::state::Remote;
use crate::text::{chars_of, hex_capitals, own, texts};
use crate::wifi::{Host, Link, Op};

verus! {

/// A place on the map: the cell it lies in, and where it lies from the middle
/// of the cell, in pixels.
#[derive(Clone, Copy, Debug, PartialEq, Eq, Structural)]
pub struct MapCell {
    pub key: u32,
    pub dx: i32,
    pub dy: i32,
}

/// The state of the map.
pub struct MapPage {
    pub remote: Remote<MapView>,
    /// Whether an area is to be saved.
    pub download: bool,
    /// The cell that is shown.
    pub shown_cell: Option<u32>,
    /// Where the marker is shown.
    pub shown_offset: (i32, i32),
    /// Passes since the marker was painted.
    pub marker_ticks: u16,
    /// The step of the zoom of the map on the whole screen.
    pub zoom: i32,
    /// The size of the area that is being saved, as text.
    pub km2: String,
}

/// What the card has of a cell.
#[derive(Clone, Copy, Debug, PartialEq, Eq, Structural)]
pub enum Cached {
    /// Nothing.
    Missing,
    /// A picture.
    Decoded,
    /// A file that is no picture, and is deleted.
    Corrupt,
}

/// What follows a look for the map.
#[derive(Clone, Copy, Debug, PartialEq, Eq, Structural)]
pub enum MapLoad {
    /// Nothing: the map is not wanted, or the task is busy.
    Wait,
    /// The panel is painted.
    Paint,
}

/// The view of a place whose picture is there.
pub open spec fn view_at(cell: MapCell) -> MapView {
    MapView::Ready { dx: cell.dx, dy: cell.dy }
}

/// A number without its sign.
pub open spec fn size_of(n: int) -> int {
    if n < 0 {
        -n
    } else {
        n
    }
}

/// How far the marker has moved, in pixels along and across.
pub open spec fn moved(cell: MapCell, offset: (i32, i32)) -> int {
    size_of(cell.dx - offset.0) + size_of(cell.dy - offset.1)
}

/// A number without its sign.
fn magnitude(n: i32) -> (r: i32)
    requires
        n > i32::MIN,
    ensures
        r == size_of(n as int),
{
    if n < 0 {
        -n
    } else {
        n
    }
}

/// The zoom after a touch of the map on the whole screen.
pub open spec fn zoom_after(zoom: int, sx: int, sy: int) -> int {
    if sy >= 876 && sx < 180 && zoom < FULL_ZOOM_MAX {
        zoom + 1
    } else if sy >= 876 && 180 <= sx < 360 && zoom > FULL_ZOOM_MIN {
        zoom - 1
    } else {
        zoom
    }
}

impl MapPage {
    /// Nothing fetched yet.
    pub fn new(active: bool) -> (r: Self)
        ensures
            r.remote.view == MapView::Loading,
            r.remote.dirty == active,
            !r.download,
            r.shown_cell is None,
            r.shown_offset == (0i32, 0i32),
            r.marker_ticks == 0,
            r.zoom == 0,
            r.km2@ == Seq::<char>::empty(),
    {
        MapPage {
            remote: Remote::new(MapView::Loading, active),
            download: false,
            shown_cell: None,
            shown_offset: (0, 0),
            marker_ticks: 0,
            zoom: 0,
            km2: String::new(),
        }
    }

    /// Whether a map is to be looked for.
    pub fn wanted(&self, nav: Nav) -> (r: bool)
        ensures
            r == (nav.screen == Screen::Gps && self.remote.dirty && !nav.needs_redraw),
    {
        nav.screen == Screen::Gps && self.remote.is_dirty() && !nav.needs_redraw
    }

    /// Looks for the map of a place that was asked for: first on the card, then
    /// with the server at `path`, where no session runs. Without a place there
    /// is nothing to look for.
    pub fn load(
        &mut self,
        place: Option<MapCell>,
        cached: Cached,
        path: &str,
        settings: &Settings,
        pending: &mut Option<Pending>,
        link: &mut Link,
    ) -> (r: MapLoad)
        requires
            old(self).remote.dirty,
        ensures
            r == map_load(
                place is Some,
                cached == Cached::Decoded,
                *old(pending) is Some,
                old(link).request is Some,
            ),
            match place {
                None => {
                    &&& r == MapLoad::Paint
                    &&& *final(self) == (MapPage {
                        remote: Remote { view: MapView::NoFix, dirty: false },
                        shown_cell: None,
                        ..*old(self)
                    })
                    &&& *final(pending) == *old(pending)
                    &&& *final(link) == *old(link)
                },
                Some(cell) => if cached == Cached::Decoded {
                    &&& r == MapLoad::Paint
                    &&& *final(self) == (MapPage {
                        remote: Remote { view: view_at(cell), dirty: false },
                        marker_ticks: 0,
                        shown_cell: Some(cell.key),
                        shown_offset: (cell.dx, cell.dy),
                        ..*old(self)
                    })
                    &&& *final(pending) == *old(pending)
                    &&& *final(link) == *old(link)
                } else if *old(pending) is None && old(link).request is None {
                    &&& r == MapLoad::Paint
                    &&& *final(self) == (MapPage {
                        remote: Remote { view: MapView::Loading, dirty: false },
                        ..*old(self)
                    })
                    &&& *final(pending) == Some(
                        Pending::MapTile { key: cell.key, dx: cell.dx, dy: cell.dy },
                    )
                    &&& asked_for(
                        *final(link),
                        *old(link),
                        *settings,
                        Host::Server,
                        path@,
                        MAP_MAX_BYTES,
                    )
                } else {
                    &&& r == MapLoad::Wait
                    &&& *final(self) == *old(self)
                    &&& *final(pending) == *old(pending)
                    &&& *final(link) == *old(link)
                },
            },
            in_step(*old(pending), *old(link)) ==> in_step(*final(pending), *final(link)),
    {
        match place {
            None => {
                self.remote.clear();
                self.remote.view = MapView::NoFix;
                self.shown_cell = None;
                MapLoad::Paint
            },
            Some(cell) => {
                if cached == Cached::Decoded {
                    self.remote.clear();
                    self.remote.view = MapView::Ready { dx: cell.dx, dy: cell.dy };
                    self.marker_ticks = 0;
                    self.shown_cell = Some(cell.key);
                    self.shown_offset = (cell.dx, cell.dy);
                    MapLoad::Paint
                } else if pending.is_none() {
                    let op: Op = Op::Get {
                        host: Host::Server,
                        path: own(path),
                        max_body: MAP_MAX_BYTES,
                    };
                    if link.send(saved_request(settings, op)) {
                        self.remote.clear();
                        *pending = Some(
                            Pending::MapTile { key: cell.key, dx: cell.dx, dy: cell.dy },
                        );
                        self.remote.view = MapView::Loading;
                        MapLoad::Paint
                    } else {
                        MapLoad::Wait
                    }
                } else {
                    MapLoad::Wait
                }
            },
        }
    }

    /// Takes the map of a place, where it came and could be decoded. Says
    /// whether it is kept on the card: only a map that could be decoded is, so
    /// that a bad one never is.
    pub fn on_map(&mut self, cell: MapCell, decoded: bool) -> (r: bool)
        ensures
            r == decoded,
            *final(self) == (MapPage {
                remote: Remote {
                    view: if decoded {
                        view_at(cell)
                    } else {
                        MapView::Error
                    },
                    dirty: old(self).remote.dirty,
                },
                marker_ticks: 0,
                shown_cell: Some(cell.key),
                shown_offset: (cell.dx, cell.dy),
                ..*old(self)
            }),
    {
        self.remote.view = if decoded {
            MapView::Ready { dx: cell.dx, dy: cell.dy }
        } else {
            MapView::Error
        };
        self.marker_ticks = 0;
        self.shown_cell = Some(cell.key);
        self.shown_offset = (cell.dx, cell.dy);
        decoded
    }

    /// Follows the position: in another cell the map is loaded anew; within the
    /// cell the marker is moved, seldom and only when it has gone some way.
    /// Says whether the panel is painted.
    pub fn follow(&mut self, cell: MapCell) -> (r: bool)
        requires
            moved(cell, old(self).shown_offset) <= i32::MAX,
        ensures
            r == follows(
                old(self).shown_cell,
                old(self).shown_offset,
                old(self).marker_ticks,
                cell,
            ),
            match old(self).shown_cell {
                None => !r && *final(self) == *old(self),
                Some(shown) => if shown != cell.key {
                    &&& !r
                    &&& *final(self) == (MapPage {
                        remote: Remote { view: old(self).remote.view, dirty: true },
                        ..*old(self)
                    })
                } else {
                    let ticks = if old(self).marker_ticks < u16::MAX {
                        (old(self).marker_ticks + 1) as u16
                    } else {
                        u16::MAX
                    };
                    &&& r == (ticks >= MARKER_REFRESH_TICKS && moved(
                        cell,
                        old(self).shown_offset,
                    ) >= MARKER_MOVE_PX)
                    &&& *final(self) == if r {
                        MapPage {
                            marker_ticks: 0,
                            shown_offset: (cell.dx, cell.dy),
                            remote: Remote {
                                view: if old(self).remote.view is Ready {
                                    view_at(cell)
                                } else {
                                    old(self).remote.view
                                },
                                dirty: old(self).remote.dirty,
                            },
                            ..*old(self)
                        }
                    } else {
                        MapPage { marker_ticks: ticks, ..*old(self) }
                    }
                },
            },
    {
        match self.shown_cell {
            None => false,
            Some(shown) => {
                if shown != cell.key {
                    self.remote.invalidate();
                    return false;
                }
                if self.marker_ticks < u16::MAX {
                    self.marker_ticks = self.marker_ticks + 1;
                }
                let along: i32 = magnitude(cell.dx - self.shown_offset.0);
                let across: i32 = magnitude(cell.dy - self.shown_offset.1);
                if self.marker_ticks >= MARKER_REFRESH_TICKS && along + across
                    >= MARKER_MOVE_PX {
                    self.marker_ticks = 0;
                    let ready: bool = match &self.remote.view {
                        MapView::Ready { .. } => true,
                        _ => false,
                    };
                    if ready {
                        self.remote.view = MapView::Ready { dx: cell.dx, dy: cell.dy };
                    }
                    self.shown_offset = (cell.dx, cell.dy);
                    true
                } else {
                    false
                }
            },
        }
    }

    /// Begins to save an area, where one is to be: `missing` are the cells that
    /// the card lacks, with where they are fetched from, and none where there
    /// is no card. Says whether the panel is painted.
    pub fn save_area(
        &mut self,
        missing: Option<Vec<(u32, String)>>,
        km2: String,
        settings: &Settings,
        pending: &mut Option<Pending>,
        link: &mut Link,
    ) -> (r: bool)
        requires
            *old(pending) is None,
        ensures
            r == missing is Some,
            !final(self).download,
            final(self).shown_cell == old(self).shown_cell,
            final(self).shown_offset == old(self).shown_offset,
            final(self).marker_ticks == old(self).marker_ticks,
            final(self).zoom == old(self).zoom,
            match missing {
                None => {
                    &&& final(self).remote == (Remote {
                        view: old(self).remote.view,
                        dirty: true,
                    })
                    &&& final(self).km2 == old(self).km2
                    &&& *final(pending) is None
                    &&& *final(link) == *old(link)
                },
                Some(tiles) => if tiles@.len() == 0 {
                    &&& final(self).remote.view == (MapView::Saved { km2, new_tiles: 0 })
                    &&& final(self).remote.dirty
                    &&& final(self).km2 == old(self).km2
                    &&& *final(pending) is None
                    &&& *final(link) == *old(link)
                } else {
                    &&& final(self).remote.view == MapView::Downloading(tiles@.len() as usize)
                    &&& final(self).remote.dirty == old(self).remote.dirty
                    &&& final(self).km2 == km2
                    &&& old(link).request is None ==> {
                        &&& *final(pending) == Some(
                            Pending::MapArea { total: tiles@.len() as usize, done: 0 },
                        )
                        &&& final(link).request matches Some(q) && q.ssid@ == used_ssid(settings@)
                            && q.password@ == used_password(settings@) && q.op == (
                        Op::DownloadMaps { tiles, max_body: MAP_MAX_BYTES })
                        &&& *final(link) == (Link { request: final(link).request, ..*old(link) })
                    }
                    &&& old(link).request is Some ==> *final(pending) is None && *final(link)
                        == *old(link)
                },
            },
            in_step(*old(pending), *old(link)) ==> in_step(*final(pending), *final(link)),
    {
        self.download = false;
        match missing {
            None => {
                self.remote.invalidate();
                false
            },
            Some(tiles) => {
                if tiles.len() == 0 {
                    self.remote.view = MapView::Saved { km2, new_tiles: 0 };
                    self.remote.invalidate();
                } else {
                    let total: usize = tiles.len();
                    self.remote.view = MapView::Downloading(total);
                    self.km2 = km2;
                    let op: Op = Op::DownloadMaps { tiles, max_body: MAP_MAX_BYTES };
                    if link.send(saved_request(settings, op)) {
                        *pending = Some(Pending::MapArea { total, done: 0 });
                    }
                }
                true
            },
        }
    }

    /// Takes the end of the saving of an area: its size is shown, and then the
    /// map of the place, which the card has now.
    pub fn on_download_done(&mut self, fetched: usize)
        ensures
            final(self).remote.view matches MapView::Saved { km2, new_tiles } && km2@ == old(
                self,
            ).km2@ && new_tiles == fetched,
            final(self).remote.dirty,
            final(self).km2@ == old(self).km2@,
            *final(self) == (MapPage {
                remote: final(self).remote,
                ..*old(self)
            }),
    {
        let km2: String = own(self.km2.as_str());
        self.remote.view = MapView::Saved { km2, new_tiles: fetched };
        self.remote.invalidate();
    }

    /// A touch of the GPS page.
    pub fn touch(&mut self, nav: &mut Nav, back: bool, save: bool, full: bool)
        ensures
            *final(nav) == if back {
                Nav { screen: Screen::Home, needs_redraw: true }
            } else if !save && full {
                Nav { screen: Screen::MapFull, needs_redraw: true }
            } else {
                *old(nav)
            },
            *final(self) == if back {
                *old(self)
            } else if save {
                MapPage { download: true, ..*old(self) }
            } else if full {
                MapPage { zoom: 0, ..*old(self) }
            } else {
                MapPage {
                    remote: Remote { view: old(self).remote.view, dirty: true },
                    ..*old(self)
                }
            },
    {
        if back {
            nav.go(Screen::Home);
        } else if save {
            self.download = true;
        } else if full {
            self.zoom = 0;
            nav.go(Screen::MapFull);
        } else {
            self.remote.invalidate();
        }
    }

    /// A touch of the map on the whole screen.
    pub fn touch_full(&mut self, nav: &mut Nav, sx: i32, sy: i32)
        ensures
            final(self).zoom == zoom_after(old(self).zoom as int, sx as int, sy as int),
            FULL_ZOOM_MIN <= old(self).zoom <= FULL_ZOOM_MAX ==> FULL_ZOOM_MIN <= final(self).zoom
                <= FULL_ZOOM_MAX,
            *final(self) == (MapPage { zoom: final(self).zoom, ..*old(self) }),
            sy < 876 ==> final(self).zoom == old(self).zoom && *final(nav) == (Nav {
                needs_redraw: true,
                ..*old(nav)
            }),
            sy >= 876 && sx < 180 ==> final(self).zoom == if old(self).zoom < FULL_ZOOM_MAX {
                old(self).zoom + 1
            } else {
                old(self).zoom as int
            } && *final(nav) == (Nav {
                needs_redraw: old(nav).needs_redraw || old(self).zoom < FULL_ZOOM_MAX,
                ..*old(nav)
            }),
            sy >= 876 && 180 <= sx < 360 ==> final(self).zoom == if old(self).zoom
                > FULL_ZOOM_MIN {
                old(self).zoom - 1
            } else {
                old(self).zoom as int
            } && *final(nav) == (Nav {
                needs_redraw: old(nav).needs_redraw || old(self).zoom > FULL_ZOOM_MIN,
                ..*old(nav)
            }),
            sy >= 876 && sx >= 360 ==> final(self).zoom == old(self).zoom && *final(nav) == (Nav {
                screen: Screen::Gps,
                needs_redraw: true,
            }),
    {
        match full_touch(sx, sy) {
            FullAction::Back => nav.go(Screen::Gps),
            FullAction::ZoomOut => {
                if self.zoom < FULL_ZOOM_MAX {
                    self.zoom = self.zoom + 1;
                    nav.needs_redraw = true;
                }
            },
            FullAction::ZoomIn => {
                if self.zoom > FULL_ZOOM_MIN {
                    self.zoom = self.zoom - 1;
                    nav.needs_redraw = true;
                }
            },
            FullAction::Recenter => {
                nav.needs_redraw = true;
            },
        }
    }
}

/// How often the progress of a download is painted: about twenty times.
pub open spec fn progress_step(total: int) -> int {
    if total / 20 < 1 {
        1
    } else {
        total / 20
    }
}

/// Takes one cell of an area: counts it, and says whether the progress is
/// painted.
pub fn on_area_tile(total: usize, done: usize, nav: Nav) -> (r: (usize, bool))
    requires
        done < usize::MAX,
    ensures
        r.0 == done + 1,
        r.1 == progress_due(total as int, done + 1, nav.screen == Screen::Gps),
        r.1 == (((done + 1) % progress_step(total as int) == 0 || done + 1 == total)
            && nav.screen == Screen::Gps),
{
    let done: usize = done + 1;
    let step: usize = if total / 20 < 1 {
        1
    } else {
        total / 20
    };
    let paint: bool = (done % step == 0 || done == total) && nav.screen == Screen::Gps;
    (done, paint)
}

/// A name in capitals.
pub open spec fn capitals(s: Seq<char>) -> Seq<char> {
    s.map_values(|c: char| capital(c))
}

/// Whether the card has a file of this name, in any case.
pub open spec fn has_file(names: Seq<Seq<char>>, name: Seq<char>) -> bool {
    exists|i: int| 0 <= i < names.len() && capitals(#[trigger] names[i]) == name
}

/// The keys of the cells that the card lacks, in order.
pub open spec fn lacking(keys: Seq<u32>, names: Seq<Seq<char>>) -> Seq<u32>
    decreases keys.len(),
{
    if keys.len() == 0 {
        seq![]
    } else if has_file(names, cache_name(keys.last() as int)) {
        lacking(keys.drop_last(), names)
    } else {
        lacking(keys.drop_last(), names).push(keys.last())
    }
}

/// Whether a name in capitals is another name.
fn same_in_capitals(name: &Vec<char>, other: &Vec<char>) -> (r: bool)
    ensures
        r == (capitals(name@) == other@),
{
    let ghost up = capitals(name@);
    if name.len() != other.len() {
        assert(up.len() != other@.len());
        return false;
    }
    let mut i: usize = 0;
    while i < name.len()
        invariant
            i <= name@.len(),
            name@.len() == other@.len(),
            up == capitals(name@),
            forall|k: int| 0 <= k < i ==> up[k] == other@[k],
        decreases name@.len() - i,
    {
        assert(up[i as int] == capital(name@[i as int]));
        if to_capital(name[i]) != other[i] {
            return false;
        }
        i = i + 1;
    }
    assert(up =~= other@);
    true
}

/// The keys of the cells that the card lacks, given the names of its files.
pub fn missing_tiles(keys: &Vec<u32>, names: &Vec<String>) -> (r: Vec<u32>)
    ensures
        r@ == lacking(keys@, texts(names@)),
{
    let ghost all = texts(names@);
    let mut files: Vec<Vec<char>> = Vec::new();
    let mut i: usize = 0;
    while i < names.len()
        invariant
            i <= names@.len(),
            files@.len() == i,
            forall|k: int| 0 <= k < i ==> (#[trigger] files@[k])@ == names@[k]@,
        decreases names@.len() - i,
    {
        files.push(chars_of(names[i].as_str()));
        i = i + 1;
    }
    let mut out: Vec<u32> = Vec::new();
    let mut k: usize = 0;
    assert(keys@.take(0) =~= Seq::<u32>::empty());
    while k < keys.len()
        invariant
            k <= keys@.len(),
            all == texts(names@),
            files@.len() == names@.len(),
            forall|j: int| 0 <= j < files@.len() ==> (#[trigger] files@[j])@ == names@[j]@,
            out@ == lacking(keys@.take(k as int), all),
        decreases keys@.len() - k,
    {
        let name: Vec<char> = chars_of(map_cache_filename(keys[k]).as_str());
        let mut found: bool = false;
        let mut j: usize = 0;
        while j < files.len() && !found
            invariant
                j <= files@.len(),
                all == texts(names@),
                files@.len() == names@.len(),
                forall|m: int| 0 <= m < files@.len() ==> (#[trigger] files@[m])@ == names@[m]@,
                found ==> has_file(all, name@),
                !found ==> forall|m: int| 0 <= m < j ==> capitals(#[trigger] all[m]) != name@,
            decreases files@.len() - j + (if found { 0int } else { 1int }),
        {
            assert(files@[j as int]@ == all[j as int]);
            if same_in_capitals(&files[j], &name) {
                found = true;
            } else {
                j = j + 1;
            }
        }
        assert(found == has_file(all, name@));
        assert(keys@.take(k + 1).drop_last() =~= keys@.take(k as int));
        if !found {
            out.push(keys[k]);
        }
        k = k + 1;
    }
    assert(keys@.take(keys@.len() as int) =~= keys@);
    out
}

/// The cells that are fetched for an area are exactly those of it that the
/// card lacks.
pub proof fn law_only_lacking_cells_are_fetched(keys: Seq<u32>, names: Seq<Seq<char>>, key: u32)
    ensures
        lacking(keys, names).contains(key) <==> keys.contains(key) && !has_file(
            names,
            cache_name(key as int),
        ),
    decreases keys.len(),
{
    if keys.len() == 0 {
        assert(!lacking(keys, names).contains(key));
        assert(!keys.contains(key));
    } else {
        let front = keys.drop_last();
        let rest = lacking(front, names);
        let all = lacking(keys, names);
        law_only_lacking_cells_are_fetched(front, names, key);
        assert(keys.contains(key) <==> front.contains(key) || key == keys.last()) by {
            if front.contains(key) {
                let i = choose|i: int| 0 <= i < front.len() && front[i] == key;
                assert(keys[i] == key);
            }
            if key == keys.last() {
                assert(keys[keys.len() - 1] == key);
            }
            if keys.contains(key) && key != keys.last() {
                let i = choose|i: int| 0 <= i < keys.len() && keys[i] == key;
                assert(front[i] == key);
            }
        }
        if !has_file(names, cache_name(keys.last() as int)) {
            assert(all.contains(key) <==> rest.contains(key) || key == keys.last()) by {
                if rest.contains(key) {
                    let i = choose|i: int| 0 <= i < rest.len() && rest[i] == key;
                    assert(all[i] == key);
                }
                if key == keys.last() {
                    assert(all[all.len() - 1] == key);
                }
                if all.contains(key) && key != keys.last() {
                    let i = choose|i: int| 0 <= i < all.len() && all[i] == key;
                    assert(rest[i] == key);
                }
            }
        }
    }
}

/// The cells to fetch are those of the area that have no file yet, in the order
/// of the area.
pub proof fn law_lacking_cells_keep_their_order(keys: Seq<u32>, names: Seq<Seq<char>>)
    ensures
        lacking(keys, names) == keys.filter(
            |key: u32| !has_file(names, hex_capitals(key as int, 8) + ".JPG"@),
        ),
    decreases keys.len(),
{
    reveal(Seq::filter);
    if keys.len() > 0 {
        law_lacking_cells_keep_their_order(keys.drop_last(), names);
    }
}

/// A file is found whatever the case of the letters in its name.
pub proof fn law_files_are_found_in_any_case(names: Seq<Seq<char>>, key: u32, i: int)
    requires
        0 <= i < names.len(),
        names[i].len() == cache_name(key as int).len(),
        forall|k: int|
            0 <= k < names[i].len() ==> {
                ||| #[trigger] names[i][k] == cache_name(key as int)[k]
                ||| 'A' <= cache_name(key as int)[k] <= 'Z' && names[i][k] as u32 == (cache_name(
                    key as int,
                )[k] as u32) + 32
            },
    ensures
        has_file(names, cache_name(key as int)),
{
    let name = cache_name(key as int);
    reveal_strlit(".JPG");
    lemma_capitals_of_hex(key as int, 8);
    assert forall|k: int| 0 <= k < name.len() implies capitals(names[i])[k] == name[k] by {
        assert(names[i][k] == name[k] || names[i][k] as u32 == (name[k] as u32) + 32);
    }
    assert(capitals(names[i]) =~= name);
}

/// A file is found only where one has that name, in some case, and no other.
pub proof fn law_no_other_file_is_found(names: Seq<Seq<char>>, name: Seq<char>)
    requires
        has_file(names, name),
    ensures
        exists|i: int|
            0 <= i < names.len() && (#[trigger] names[i]).len() == name.len() && forall|k: int|
                0 <= k < name.len() ==> #[trigger] names[i][k] == name[k] || names[i][k] as u32 == (
                name[k] as u32) + 32,
{
    let i = choose|i: int| 0 <= i < names.len() && capitals(#[trigger] names[i]) == name;
    assert(names[i].len() == name.len());
    assert forall|k: int| 0 <= k < name.len() implies #[trigger] names[i][k] == name[k]
        || names[i][k] as u32 == (name[k] as u32) + 32 by {
        assert(capitals(names[i])[k] == name[k]);
    }
}

/// Hexadecimal capitals are no small letters.
proof fn lemma_capitals_of_hex(n: int, width: nat)
    ensures
        forall|k: int|
            0 <= k < hex_capitals(n, width).len() ==> !('a' <= #[trigger] hex_capitals(n, width)[k]
                <= 'z'),
    decreases width,
{
    if width > 0 {
        let w = (width - 1) as nat;
        lemma_capitals_of_hex(n / 16, w);
        let front = hex_capitals(n / 16, w);
        assert forall|k: int| 0 <= k < hex_capitals(n, width).len() implies !('a'
            <= #[trigger] hex_capitals(n, width)[k] <= 'z') by {
            if k < front.len() {
                assert(hex_capitals(n, width)[k] == front[k]);
            }
        }
    }
}

/// Progress is told for every twentieth of an area, and for every cell of one
/// with fewer than twenty.
pub proof fn law_progress_by_twentieths(total: int)
    requires
        0 <= total,
    ensures
        total < 20 ==> progress_step(total) == 1,
        total >= 20 ==> 20 * progress_step(total) <= total < 20 * (progress_step(total) + 1),
{
}

/// How far the marker moved is told across and down together, whichever way.
pub proof fn law_moves_count_both_ways(cell: MapCell, right: int, down: int)
    requires
        i32::MIN <= cell.dx - right <= i32::MAX,
        i32::MIN <= cell.dy - down <= i32::MAX,
    ensures
        ({
            let moved_by = moved(cell, ((cell.dx - right) as i32, (cell.dy - down) as i32));
            &&& right >= 0 && down >= 0 ==> moved_by == right + down
            &&& right >= 0 && down < 0 ==> moved_by == right - down
            &&& right < 0 && down >= 0 ==> moved_by == down - right
            &&& right < 0 && down < 0 ==> moved_by == -right - down
        }),
{
}

/// The zoom goes from one step in to two steps out, by one step for a touch of
/// its button, and the other button takes a step back; no other touch changes
/// it.
pub proof fn law_zoom_goes_step_by_step(zoom: int, out: (int, int), into: (int, int), sx: int, sy: int)
    requires
        -1 <= zoom <= 2,
        out.0 < 180,
        out.1 >= 876,
        180 <= into.0 < 360,
        into.1 >= 876,
    ensures
        zoom < 2 ==> zoom_after(zoom, out.0, out.1) == zoom + 1,
        zoom > -1 ==> zoom_after(zoom, into.0, into.1) == zoom - 1,
        zoom_after(2, out.0, out.1) == 2,
        zoom_after(-1, into.0, into.1) == -1,
        zoom < 2 ==> zoom_after(zoom_after(zoom, out.0, out.1), into.0, into.1) == zoom,
        sy < 876 || sx >= 360 ==> zoom_after(zoom, sx, sy) == zoom,
{
}

/// A cell that is there is shown with the position where it is in it.
pub proof fn law_cell_is_shown_with_the_position(cell: MapCell)
    ensures
        view_at(cell) matches MapView::Ready { dx, dy } && dx == cell.dx && dy == cell.dy,
{
}

/// Whether the marker is painted anew, given the cell that is shown, where the
/// marker is in it and for how many passes it has been there.
pub open spec fn follows(
    shown: Option<u32>,
    offset: (i32, i32),
    passes: u16,
    cell: MapCell,
) -> bool {
    &&& shown == Some(cell.key)
    &&& passes + 1 >= MARKER_REFRESH_TICKS
    &&& moved(cell, offset) >= MARKER_MOVE_PX
}

/// The marker follows the position within its cell once the position moved by
/// twelve pixels, but not more often than every 400 passes.
pub proof fn law_marker_follows_the_position(
    key: u32,
    offset: (i32, i32),
    passes: u16,
    cell: MapCell,
)
    ensures
        follows(Some(key), offset, passes, cell) ==> cell.key == key && passes >= 399 && moved(
            cell,
            offset,
        ) >= 12,
        cell.key == key && passes >= 399 && moved(cell, offset) >= 12 ==> follows(
            Some(key),
            offset,
            passes,
            cell,
        ),
        !follows(None, offset, passes, cell),
{
}

/// Whether progress is told once `done` cells of `total` came.
pub open spec fn progress_due(total: int, done: int, here: bool) -> bool {
    (done % progress_step(total) == 0 || done == total) && here
}

/// Progress is told while the map is up, for the last cell in any case, for
/// every cell of a small area, and for no cell of a large one that is not a
/// whole number of twentieths.
pub proof fn law_progress_is_told(total: int, done: int)
    requires
        0 < done <= total,
    ensures
        !progress_due(total, done, false),
        progress_due(total, total, true),
        total < 40 ==> progress_due(total, done, true),
        total >= 40 && done < total ==> (progress_due(total, done, true) <==> done % (total / 20)
            == 0),
{
    if total < 40 {
        assert(progress_step(total) == 1);
    }
}

/// What is done when the map is wanted, given whether there is a position,
/// whether its picture is on the card, whether an answer is waited for and
/// whether a request is on its way.
pub open spec fn map_load(place: bool, there: bool, waiting: bool, busy: bool) -> MapLoad {
    if place && !there && (waiting || busy) {
        MapLoad::Wait
    } else {
        MapLoad::Paint
    }
}

/// The map waits only for a picture that has to be fetched while something else
/// is being fetched; a picture that is on the card is shown at once.
pub proof fn law_pictures_on_the_card_are_shown_at_once(there: bool, waiting: bool, busy: bool)
    ensures
        map_load(true, true, waiting, busy) == MapLoad::Paint,
        map_load(false, there, waiting, busy) == MapLoad::Paint,
        map_load(true, false, false, false) == MapLoad::Paint,
        map_load(true, false, true, busy) == MapLoad::Wait,
        map_load(true, false, waiting, true) == MapLoad::Wait,
{
}

} // verus!
