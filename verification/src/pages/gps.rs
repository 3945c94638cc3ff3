//! The GPS page: the receiver's readout, a map of where the device is, and the
//! map on the whole screen. Positions are projected in floating point
//! elsewhere; here are map cells, and numbers as text.
use vstd::prelude::*;
use vstd::string::*;

use crate::layout::{in_rect, inside, native_of, screen_to_native_rect, NativeRect};
use crate::scene::{
    centered, disc, filled, label, outlined, Font, Ink, Picture, Scene, Shape, BLACK, WHITE,
};
use crate::text::{
    dec, digit_capital, held, hex_capitals, hold, own, push_dec, push_hex_capitals,
};
use crate::text_field::Flush;

verus! {

/// Passes of the main loop between refreshes of the readout.
pub const GPS_REFRESH_TICKS: u16 = 30;

/// Passes of the main loop between refreshes of the map within a cell, which
/// flash the panel.
pub const MARKER_REFRESH_TICKS: u16 = 400;

/// Pixels that the marker must have moved for such a refresh.
pub const MARKER_MOVE_PX: i32 = 12;

/// Bytes of a map that are buffered at most.
pub const MAP_MAX_BYTES: usize = 262_144;

/// Where maps are kept on the card.
pub const MAP_CACHE_DIR: &'static str = "/MAPS";

/// How far around the present cell an area is saved, in cells.
pub const DOWNLOAD_RADIUS: i32 = 8;

/// How far the map on the whole screen zooms in.
pub const FULL_ZOOM_MIN: i32 = -1;

/// How far the map on the whole screen zooms out.
pub const FULL_ZOOM_MAX: i32 = 2;

/// The kinds of receiver.
#[derive(Clone, Copy, Debug, PartialEq, Eq, Structural)]
pub enum Module {
    L76K,
    MiaM10Q,
}

/// How a position was found.
#[derive(Clone, Copy, Debug, PartialEq, Eq, Structural)]
pub enum FixKind {
    Gps,
    DGps,
    Rtk,
    FloatRtk,
    Other,
}

/// A position as the readout shows it: degrees with six digits behind the
/// point, the other numbers with one.
pub struct GpsFix {
    pub lat: String,
    pub lng: String,
    pub alt: String,
    pub speed: String,
    pub hdop: String,
    pub vdop: String,
    pub sats: u32,
}

/// A receiver's name.
pub open spec fn module_text(m: Module) -> Seq<char> {
    match m {
        Module::L76K => "L76K"@,
        Module::MiaM10Q => "MIA-M10Q"@,
    }
}

/// How a position was found, in words.
pub open spec fn fix_text(kind: Option<FixKind>) -> Seq<char> {
    match kind {
        Some(FixKind::Gps) => "GPS"@,
        Some(FixKind::DGps) => "DGPS"@,
        Some(FixKind::Rtk) => "RTK"@,
        Some(FixKind::FloatRtk) => "float RTK"@,
        Some(FixKind::Other) => "other"@,
        None => "fix"@,
    }
}

/// The line on the fix: how it was found and by how many satellites, or that
/// it was lost, or that there never was one.
pub open spec fn fix_line(
    kind: Option<FixKind>,
    in_view: int,
    current: Option<GpsFix>,
    last: Option<GpsFix>,
) -> Seq<char> {
    match current {
        Some(f) => held(
            "Fix:    "@ + fix_text(kind) + " ("@ + dec(f.sats as int) + " used, "@ + dec(in_view)
                + " in view)"@,
            48,
        ),
        None => if last is Some {
            "Fix:    re-acquiring ("@ + dec(in_view) + " in view)"@
        } else {
            "Fix:    no fix ("@ + dec(in_view) + " in view)"@
        },
    }
}

/// One line of the readout.
pub open spec fn readout(text: Seq<char>, y: int) -> Shape<Seq<char>> {
    label(text, 60, y, Font::Small, BLACK)
}

/// The lines on the position: the present one, or the last one, marked as
/// such, or none.
pub open spec fn position_picture(current: Option<GpsFix>, last: Option<GpsFix>) -> Picture {
    let mark = if current is None && last is Some {
        "  (last)"@
    } else {
        ""@
    };
    match (if current is Some {
        current
    } else {
        last
    }) {
        Some(f) => seq![
            readout(held("Lat:    "@ + f.lat@ + mark, 48), 266),
            readout(held("Lon:    "@ + f.lng@ + mark, 48), 294),
            readout(held("Alt:    "@ + f.alt@ + " m"@, 48), 322),
            readout(held("Speed:  "@ + f.speed@ + " kn"@, 48), 350),
            readout(held("HDOP:   "@ + f.hdop@ + "   VDOP: "@ + f.vdop@, 48), 378),
        ],
        None => seq![
            readout("Lat:    --"@, 266),
            readout("Lon:    --"@, 294),
            readout("Alt:    --"@, 322),
            readout("Speed:  --"@, 350),
            readout("HDOP:   --   VDOP: --"@, 378),
        ],
    }
}

/// The readout.
pub open spec fn data_picture(
    module: Module,
    kind: Option<FixKind>,
    in_view: int,
    current: Option<GpsFix>,
    last: Option<GpsFix>,
) -> Picture {
    seq![
        filled(30, 170, 480, 300, WHITE),
        readout("Module: "@ + module_text(module), 200),
        readout(fix_line(kind, in_view, current, last), 228),
    ] + position_picture(current, last)
}

/// Writes the line on the fix.
fn fix_label(
    kind: Option<FixKind>,
    in_view: u32,
    current: &Option<GpsFix>,
    last: &Option<GpsFix>,
) -> (r: String)
    ensures
        r@ == fix_line(kind, in_view as int, *current, *last),
{
    let mut buf: String = own("Fix:    ");
    match current {
        Some(f) => {
            buf.append(
                match kind {
                    Some(FixKind::Gps) => "GPS",
                    Some(FixKind::DGps) => "DGPS",
                    Some(FixKind::Rtk) => "RTK",
                    Some(FixKind::FloatRtk) => "float RTK",
                    Some(FixKind::Other) => "other",
                    None => "fix",
                },
            );
            buf.append(" (");
            push_dec(&mut buf, f.sats as u64);
            buf.append(" used, ");
            push_dec(&mut buf, in_view as u64);
            buf.append(" in view)");
            hold(buf, 48)
        },
        None => {
            let mut buf: String = own(
                if last.is_some() {
                    "Fix:    re-acquiring ("
                } else {
                    "Fix:    no fix ("
                },
            );
            push_dec(&mut buf, in_view as u64);
            buf.append(" in view)");
            buf
        },
    }
}

/// Paints one line of the readout: a name, a value and what follows it.
fn draw_line(scene: &mut Scene, name: &str, value: &str, tail: &str, y: i32)
    ensures
        final(scene)@ == old(scene)@.push(readout(held(name@ + value@ + tail@, 48), y as int)),
{
    let mut buf: String = own(name);
    buf.append(value);
    buf.append(tail);
    let buf: String = hold(buf, 48);
    scene.text(buf.as_str(), 60, y, Font::Small, BLACK);
}

/// Paints the readout.
pub fn draw_gps_data(
    scene: &mut Scene,
    module: Module,
    kind: Option<FixKind>,
    in_view: u32,
    current: &Option<GpsFix>,
    last_fix: &Option<GpsFix>,
)
    ensures
        final(scene)@ == old(scene)@ + data_picture(
            module,
            kind,
            in_view as int,
            *current,
            *last_fix,
        ),
{
    let ghost start = scene@;
    scene.fill(30, 170, 480, 300, WHITE);
    let module_name: &str = match module {
        Module::L76K => "L76K",
        Module::MiaM10Q => "MIA-M10Q",
    };
    let mut first: String = own("Module: ");
    first.append(module_name);
    scene.text(first.as_str(), 60, 200, Font::Small, BLACK);
    let line: String = fix_label(kind, in_view, current, last_fix);
    scene.text(line.as_str(), 60, 228, Font::Small, BLACK);
    let ghost headed = scene@;
    assert(headed =~= start + seq![
        filled(30, 170, 480, 300, WHITE),
        readout("Module: "@ + module_text(module), 200),
        readout(fix_line(kind, in_view as int, *current, *last_fix), 228),
    ]);
    let mark: &str = if current.is_none() && last_fix.is_some() {
        "  (last)"
    } else {
        ""
    };
    let shown: &Option<GpsFix> = if current.is_some() {
        current
    } else {
        last_fix
    };
    match shown {
        Some(f) => {
            draw_line(scene, "Lat:    ", f.lat.as_str(), mark, 266);
            draw_line(scene, "Lon:    ", f.lng.as_str(), mark, 294);
            draw_line(scene, "Alt:    ", f.alt.as_str(), " m", 322);
            draw_line(scene, "Speed:  ", f.speed.as_str(), " kn", 350);
            let mut dops: String = own("HDOP:   ");
            dops.append(f.hdop.as_str());
            dops.append("   VDOP: ");
            dops.append(f.vdop.as_str());
            let dops: String = hold(dops, 48);
            scene.text(dops.as_str(), 60, 378, Font::Small, BLACK);
        },
        None => {
            scene.text("Lat:    --", 60, 266, Font::Small, BLACK);
            scene.text("Lon:    --", 60, 294, Font::Small, BLACK);
            scene.text("Alt:    --", 60, 322, Font::Small, BLACK);
            scene.text("Speed:  --", 60, 350, Font::Small, BLACK);
            scene.text("HDOP:   --   VDOP: --", 60, 378, Font::Small, BLACK);
        },
    }
    assert(scene@ =~= headed + position_picture(*current, *last_fix));
    assert(scene@ =~= start + data_picture(module, kind, in_view as int, *current, *last_fix));
}

/// The part of the panel that the readout fills.
pub fn gps_data_native_rect() -> (r: NativeRect)
    ensures
        r == native_of(30, 170, 480, 300),
{
    screen_to_native_rect(30, 170, 480, 300)
}

// ---------------------------------------------------------------------------
// Map cells.
// ---------------------------------------------------------------------------

/// A cell's key: the low sixteen bits of its column, then those of its row.
pub open spec fn key_of(cx: int, cy: int) -> int {
    (cx % 65536) * 65536 + cy % 65536
}

/// The low sixteen bits of a number.
fn low16(n: i64) -> (r: u32)
    ensures
        r == n as int % 65536,
{
    if n >= 0 {
        (n % 65536) as u32
    } else {
        let m: i64 = (-(n + 1)) % 65536;
        (65535 - m) as u32
    }
}

/// A cell's key.
pub fn cell_key(cx: i64, cy: i64) -> (r: u32)
    ensures
        r == key_of(cx as int, cy as int),
{
    low16(cx) * 65536 + low16(cy)
}

/// The column and the row of a key's cell.
pub fn cell_of(key: u32) -> (r: (u32, u32))
    ensures
        r.0 == key / 65536,
        r.1 == key % 65536,
{
    (key / 65536, key % 65536)
}

/// Cells whose columns and rows take sixteen bits have keys of their own, and
/// a key gives back its cell.
pub proof fn law_keys_are_unique(ax: int, ay: int, bx: int, by: int)
    requires
        0 <= ax < 65536,
        0 <= ay < 65536,
        0 <= bx < 65536,
        0 <= by < 65536,
    ensures
        key_of(ax, ay) == key_of(bx, by) ==> ax == bx && ay == by,
        key_of(ax, ay) / 65536 == ax,
        key_of(ax, ay) % 65536 == ay,
        0 <= key_of(ax, ay) <= u32::MAX,
{
}

/// A cell's file name.
pub open spec fn cache_name(key: int) -> Seq<char> {
    hex_capitals(key, 8) + ".JPG"@
}

/// A cell's file on the card.
pub fn map_cache_path(key: u32) -> (r: String)
    ensures
        r@ == "/MAPS/"@ + cache_name(key as int),
{
    let mut out: String = own("/MAPS/");
    push_hex_capitals(&mut out, key as u64, 8);
    out.append(".JPG");
    assert(out@ =~= "/MAPS/"@ + cache_name(key as int));
    out
}

/// A cell's file name.
pub fn map_cache_filename(key: u32) -> (r: String)
    ensures
        r@ == cache_name(key as int),
{
    let mut out: String = String::new();
    push_hex_capitals(&mut out, key as u64, 8);
    out.append(".JPG");
    assert(out@ =~= cache_name(key as int));
    out
}

/// Hexadecimal digits tell numbers apart.
proof fn lemma_hex_capitals(a: int, b: int, width: nat)
    requires
        0 <= a < crate::chatlog::pow16(width),
        0 <= b < crate::chatlog::pow16(width),
        hex_capitals(a, width) == hex_capitals(b, width),
    ensures
        a == b,
    decreases width,
{
    if width > 0 {
        let w = (width - 1) as nat;
        let x = hex_capitals(a, width);
        let y = hex_capitals(b, width);
        assert(x.drop_last() =~= hex_capitals(a / 16, w));
        assert(y.drop_last() =~= hex_capitals(b / 16, w));
        assert(x.last() == digit_capital(a % 16));
        assert(y.last() == digit_capital(b % 16));
        lemma_hex_capitals(a / 16, b / 16, w);
    }
}

/// How long a run of hexadecimal digits is.
proof fn lemma_hex_length(n: int, width: nat)
    ensures
        hex_capitals(n, width).len() == width,
    decreases width,
{
    if width > 0 {
        lemma_hex_length(n / 16, (width - 1) as nat);
    }
}

/// Different keys have different files.
pub proof fn law_files_are_unique(a: u32, b: u32)
    requires
        cache_name(a as int) == cache_name(b as int),
    ensures
        a == b,
{
    reveal_with_fuel(crate::chatlog::pow16, 9);
    lemma_hex_length(a as int, 8);
    lemma_hex_length(b as int, 8);
    let x = cache_name(a as int);
    let y = cache_name(b as int);
    assert(x.take(8) =~= hex_capitals(a as int, 8));
    assert(y.take(8) =~= hex_capitals(b as int, 8));
    lemma_hex_capitals(a as int, b as int, 8);
}

/// Where the map of a cell is fetched from, given the coordinates of its
/// middle with five digits behind the point.
pub fn map_request_path(latitude: &str, longitude: &str) -> (r: String)
    ensures
        r@ == "/api/map?lat="@ + latitude@ + "&lon="@ + longitude@ + "&zoom=15&w=480&h=400"@,
{
    let mut out: String = own("/api/map?lat=");
    out.append(latitude);
    out.append("&lon=");
    out.append(longitude);
    out.append("&zoom=15&w=480&h=400");
    out
}

/// The keys of the cells of a row, from column `x0` up to and including `x1`.
pub open spec fn row_keys(x0: int, x1: int, y: int) -> Seq<u32> {
    Seq::new(
        if x1 < x0 {
            0
        } else {
            (x1 - x0 + 1) as nat
        },
        |i: int| key_of(x0 + i, y) as u32,
    )
}

/// The keys of the first `n` rows from row `y0` on.
pub open spec fn rows_keys(x0: int, x1: int, y0: int, n: int) -> Seq<u32>
    decreases n,
{
    if n <= 0 {
        seq![]
    } else {
        rows_keys(x0, x1, y0, n - 1) + row_keys(x0, x1, y0 + n - 1)
    }
}

/// The keys of the cells around a cell, row by row: those at most `radius`
/// away in either direction.
pub open spec fn area_keys(cx: int, cy: int, radius: int) -> Seq<u32> {
    rows_keys(cx - radius, cx + radius, cy - radius, 2 * radius + 1)
}

/// Appends the keys of the cells of a row.
fn push_row_keys(keys: &mut Vec<u32>, x0: i64, x1: i64, y: i64)
    requires
        x1 < i64::MAX,
    ensures
        final(keys)@ == old(keys)@ + row_keys(x0 as int, x1 as int, y as int),
{
    let ghost row = row_keys(x0 as int, x1 as int, y as int);
    let mut x: i64 = x0;
    assert(row.take(0) =~= Seq::<u32>::empty());
    while x <= x1
        invariant
            x1 < i64::MAX,
            x0 <= x,
            x <= x1 + 1 || x == x0,
            row == row_keys(x0 as int, x1 as int, y as int),
            keys@ == old(keys)@ + row.take(x - x0),
        decreases x1 - x + 1,
    {
        keys.push(cell_key(x, y));
        assert(row.take(x - x0 + 1) =~= row.take(x - x0).push(row[x - x0]));
        x = x + 1;
    }
    assert(row.take(x - x0) =~= row);
}

/// The keys of the cells around a cell, for saving an area.
pub fn map_area_tiles(cx: i64, cy: i64, radius: i32) -> (r: Vec<u32>)
    requires
        i64::MIN + 0x8000_0000 <= cx <= i64::MAX - 0x8000_0001,
        i64::MIN + 0x8000_0000 <= cy <= i64::MAX - 0x8000_0001,
    ensures
        r@ == area_keys(cx as int, cy as int, radius as int),
{
    let reach: i64 = radius as i64;
    let mut keys: Vec<u32> = Vec::new();
    let mut dy: i64 = -reach;
    assert(rows_keys(cx - reach, cx + reach, cy - reach, 0) =~= Seq::<u32>::empty());
    while dy <= reach
        invariant
            i64::MIN + 0x8000_0000 <= cx <= i64::MAX - 0x8000_0001,
            i64::MIN + 0x8000_0000 <= cy <= i64::MAX - 0x8000_0001,
            reach == radius,
            -reach <= dy,
            dy <= reach + 1 || dy == -reach,
            keys@ == rows_keys(cx - reach, cx + reach, cy - reach, dy + reach),
        decreases reach - dy + 1,
    {
        push_row_keys(&mut keys, cx - reach, cx + reach, cy + dy);
        dy = dy + 1;
    }
    keys
}

/// How many cells rows have.
proof fn lemma_rows_length(x0: int, x1: int, y0: int, n: int)
    requires
        0 <= n,
        x0 <= x1,
    ensures
        rows_keys(x0, x1, y0, n).len() == n * (x1 - x0 + 1),
    decreases n,
{
    if n > 0 {
        lemma_rows_length(x0, x1, y0, n - 1);
        assert(n * (x1 - x0 + 1) == (n - 1) * (x1 - x0 + 1) + (x1 - x0 + 1))
            by (nonlinear_arith);
    } else {
        assert(0 * (x1 - x0 + 1) == 0);
    }
}

/// An area of a radius is a square of cells with the present one in its
/// middle.
pub proof fn law_area_is_a_square(cx: int, cy: int, radius: int)
    requires
        0 <= radius,
    ensures
        area_keys(cx, cy, radius).len() == (2 * radius + 1) * (2 * radius + 1),
{
    lemma_rows_length(cx - radius, cx + radius, cy - radius, 2 * radius + 1);
}

/// What stands in column `i` and row `j` of an area is the key of the cell
/// there, counted from the corner that is `radius` away from the present cell
/// in both directions.
pub proof fn law_area_goes_row_by_row(cx: int, cy: int, radius: int, i: int, j: int)
    requires
        0 <= i <= 2 * radius,
        0 <= j <= 2 * radius,
    ensures
        0 <= j * (2 * radius + 1) + i < area_keys(cx, cy, radius).len(),
        area_keys(cx, cy, radius)[j * (2 * radius + 1) + i] == key_of(
            cx - radius + i,
            cy - radius + j,
        ),
{
    lemma_rows_index(cx - radius, cx + radius, cy - radius, 2 * radius + 1, i, j);
}

/// What stands in column `i` and row `j` of rows of keys.
proof fn lemma_rows_index(x0: int, x1: int, y0: int, n: int, i: int, j: int)
    requires
        0 <= i <= x1 - x0,
        0 <= j < n,
    ensures
        0 <= j * (x1 - x0 + 1) + i < rows_keys(x0, x1, y0, n).len(),
        rows_keys(x0, x1, y0, n)[j * (x1 - x0 + 1) + i] == key_of(x0 + i, y0 + j),
    decreases n,
{
    let cols = x1 - x0 + 1;
    let before = rows_keys(x0, x1, y0, n - 1);
    let row = row_keys(x0, x1, y0 + n - 1);
    lemma_rows_length(x0, x1, y0, n - 1);
    lemma_rows_length(x0, x1, y0, n);
    assert(n * cols == (n - 1) * cols + cols) by (nonlinear_arith);
    assert(0 <= j * cols) by (nonlinear_arith)
        requires
            j >= 0,
            cols >= 1,
    ;
    let k = key_of(x0 + i, y0 + j);
    assert(0 <= k <= u32::MAX);
    if j == n - 1 {
        assert(rows_keys(x0, x1, y0, n)[j * cols + i] == row[i]);
    } else {
        lemma_rows_index(x0, x1, y0, n - 1, i, j);
        assert(rows_keys(x0, x1, y0, n)[j * cols + i] == before[j * cols + i]);
    }
}

/// An area holds the key of every cell that is at most its radius away from
/// the present one in either direction; and where the map is large enough for
/// the area, of no other cell.
pub proof fn law_area_holds_what_is_near(cx: int, cy: int, radius: int, x: int, y: int)
    requires
        0 <= radius,
    ensures
        cx - radius <= x <= cx + radius && cy - radius <= y <= cy + radius ==> area_keys(
            cx,
            cy,
            radius,
        ).contains(key_of(x, y) as u32),
        ({
            &&& radius <= cx < 65536 - radius
            &&& radius <= cy < 65536 - radius
            &&& 0 <= x < 65536
            &&& 0 <= y < 65536
            &&& area_keys(cx, cy, radius).contains(key_of(x, y) as u32)
        }) ==> cx - radius <= x <= cx + radius && cy - radius <= y <= cy + radius,
{
    let area = area_keys(cx, cy, radius);
    let cols = 2 * radius + 1;
    let k = key_of(x, y);
    assert(0 <= k <= u32::MAX);
    if cx - radius <= x <= cx + radius && cy - radius <= y <= cy + radius {
        law_area_goes_row_by_row(cx, cy, radius, x - cx + radius, y - cy + radius);
        assert(area[(y - cy + radius) * cols + (x - cx + radius)] == k as u32);
    }
    if area.contains(k as u32) && radius <= cx < 65536 - radius && radius <= cy < 65536 - radius
        && 0 <= x < 65536 && 0 <= y < 65536 {
        let at = choose|at: int| 0 <= at < area.len() && area[at] == k as u32;
        lemma_place_in_area(cx, cy, radius, at);
        let i = at % cols;
        let j = at / cols;
        law_area_goes_row_by_row(cx, cy, radius, i, j);
        law_keys_are_unique(x, y, cx - radius + i, cy - radius + j);
    }
}

/// Every entry of an area stands in a column and a row of it.
proof fn lemma_place_in_area(cx: int, cy: int, radius: int, at: int)
    requires
        0 <= radius,
        0 <= at < area_keys(cx, cy, radius).len(),
    ensures
        0 <= at % (2 * radius + 1) <= 2 * radius,
        0 <= at / (2 * radius + 1) <= 2 * radius,
        at == (at / (2 * radius + 1)) * (2 * radius + 1) + at % (2 * radius + 1),
{
    let cols = 2 * radius + 1;
    law_area_is_a_square(cx, cy, radius);
    vstd::arithmetic::div_mod::lemma_fundamental_div_mod(at, cols);
    assert(cols * (at / cols) == (at / cols) * cols) by (nonlinear_arith);
    assert(0 <= at / cols < cols && 0 <= at % cols < cols) by (nonlinear_arith)
        requires
            0 <= at < cols * cols,
            cols >= 1,
    ;
}

/// An area of a negative radius has no cells, and one of radius zero the present
/// cell alone.
pub proof fn law_smallest_areas(cx: int, cy: int, radius: int)
    ensures
        radius < 0 ==> area_keys(cx, cy, radius).len() == 0,
        area_keys(cx, cy, 0).len() == 1,
        area_keys(cx, cy, 0)[0] == key_of(cx, cy),
{
    law_area_is_a_square(cx, cy, 0);
    assert((2 * 0int + 1) * (2 * 0int + 1) == 1) by (nonlinear_arith);
    law_area_goes_row_by_row(cx, cy, 0, 0, 0);
}

/// No key stands in an area twice, as long as the area is not wider than keys
/// can tell cells apart.
pub proof fn law_area_keys_are_distinct(cx: int, cy: int, radius: int, a: int, b: int)
    requires
        0 <= radius,
        2 * radius + 1 <= 65536,
        0 <= a < b < area_keys(cx, cy, radius).len(),
    ensures
        area_keys(cx, cy, radius)[a] != area_keys(cx, cy, radius)[b],
{
    let cols = 2 * radius + 1;
    lemma_place_in_area(cx, cy, radius, a);
    lemma_place_in_area(cx, cy, radius, b);
    law_area_goes_row_by_row(cx, cy, radius, a % cols, a / cols);
    law_area_goes_row_by_row(cx, cy, radius, b % cols, b / cols);
    let ax = cx - radius + a % cols;
    let ay = cy - radius + a / cols;
    let bx = cx - radius + b % cols;
    let by = cy - radius + b / cols;
    if key_of(ax, ay) == key_of(bx, by) {
        lemma_near_cells_have_their_own_keys(ax, ay, bx, by);
    }
}

/// Cells with the same key are the same, unless they are a whole map apart.
proof fn lemma_near_cells_have_their_own_keys(ax: int, ay: int, bx: int, by: int)
    requires
        -65536 < ax - bx < 65536,
        -65536 < ay - by < 65536,
        key_of(ax, ay) == key_of(bx, by),
    ensures
        ax == bx,
        ay == by,
{
    let p = ax % 65536;
    let q = ay % 65536;
    let r = bx % 65536;
    let s = by % 65536;
    assert(0 <= p < 65536 && 0 <= q < 65536 && 0 <= r < 65536 && 0 <= s < 65536);
    assert(p * 65536 + q == r * 65536 + s);
    assert(p == r && q == s);
}

// ---------------------------------------------------------------------------
// The map under the readout.
// ---------------------------------------------------------------------------

/// What the map panel shows.
pub enum MapView {
    Loading,
    /// No position to ask for yet.
    NoFix,
    /// An area is being saved: how many of its cells are being fetched.
    Downloading(usize),
    /// An area was saved: its size, and how many cells were new.
    Saved { km2: String, new_tiles: usize },
    /// A map, and where the position lies from the middle of it.
    Ready { dx: i32, dy: i32 },
    Error,
}

/// The marker: a dot with a ring around it.
pub open spec fn marker_picture(cx: int, cy: int) -> Picture {
    seq![
        disc(cx - 9, cy - 9, 18, Ink::Fill { gray: WHITE }),
        disc(cx - 9, cy - 9, 18, Ink::Stroke { gray: BLACK, width: 2 }),
        disc(cx - 4, cy - 4, 8, Ink::Fill { gray: BLACK }),
    ]
}

/// Paints the marker.
pub fn draw_marker(scene: &mut Scene, cx: i32, cy: i32)
    requires
        i32::MIN + 9 <= cx,
        i32::MIN + 9 <= cy,
    ensures
        final(scene)@ == old(scene)@ + marker_picture(cx as int, cy as int),
{
    let ghost start = scene@;
    scene.circle(cx - 9, cy - 9, 18, Ink::Fill { gray: WHITE });
    scene.circle(cx - 9, cy - 9, 18, Ink::Stroke { gray: BLACK, width: 2 });
    scene.circle(cx - 4, cy - 4, 8, Ink::Fill { gray: BLACK });
    assert(scene@ =~= start + marker_picture(cx as int, cy as int));
}

/// A button over the map.
pub open spec fn map_button(text: Seq<char>, x: int) -> Picture {
    seq![
        filled(x, 510, 150, 40, WHITE),
        outlined(x, 510, 150, 40, 2),
        centered(text, x + 75, 534, Font::Small, BLACK),
    ]
}

/// Paints a button over the map.
fn draw_map_button(scene: &mut Scene, text: &str, x: i32)
    requires
        0 <= x <= 1000,
    ensures
        final(scene)@ == old(scene)@ + map_button(text@, x as int),
{
    let ghost start = scene@;
    scene.fill(x, 510, 150, 40, WHITE);
    scene.outline(x, 510, 150, 40, 2);
    scene.center(text, x + 75, 534, Font::Small, BLACK);
    assert(scene@ =~= start + map_button(text@, x as int));
}

/// The words in the middle of the panel, where it shows no map.
pub open spec fn map_words(view: MapView) -> Option<Seq<char>> {
    match view {
        MapView::Loading => Some("loading map..."@),
        MapView::NoFix => Some("waiting for GPS fix..."@),
        MapView::Error => Some("map unavailable (offline?)"@),
        MapView::Downloading(n) => Some(
            held("saving area: "@ + dec(n as int) + " tiles..."@, 32),
        ),
        MapView::Saved { km2, new_tiles } => Some(
            held(
                if new_tiles == 0 {
                    "area already saved: "@ + km2@ + " sq km"@
                } else {
                    "area saved: "@ + km2@ + " sq km ("@ + dec(new_tiles as int) + " new)"@
                },
                40,
            ),
        ),
        MapView::Ready { .. } => None,
    }
}

/// The words in the middle of the panel, where it shows no map.
fn map_message(view: &MapView) -> (r: Option<String>)
    ensures
        r is Some <==> map_words(*view) is Some,
        r matches Some(s) ==> map_words(*view) == Some(s@),
{
    match view {
        MapView::Loading => Some(own("loading map...")),
        MapView::NoFix => Some(own("waiting for GPS fix...")),
        MapView::Error => Some(own("map unavailable (offline?)")),
        MapView::Downloading(n) => {
            let mut buf: String = own("saving area: ");
            push_dec(&mut buf, *n as u64);
            buf.append(" tiles...");
            Some(hold(buf, 32))
        },
        MapView::Saved { km2, new_tiles } => {
            if *new_tiles == 0 {
                let mut buf: String = own("area already saved: ");
                buf.append(km2.as_str());
                buf.append(" sq km");
                Some(hold(buf, 40))
            } else {
                let mut buf: String = own("area saved: ");
                buf.append(km2.as_str());
                buf.append(" sq km (");
                push_dec(&mut buf, *new_tiles as u64);
                buf.append(" new)");
                Some(hold(buf, 40))
            }
        },
        MapView::Ready { .. } => None,
    }
}

/// The map panel with its frame and its buttons.
pub open spec fn map_picture(view: MapView) -> Picture {
    (match view {
        MapView::Ready { dx, dy } => seq![Shape::MapImage { x: 30, y: 500, w: 480, h: 400 }]
            + marker_picture(270 + dx, 700 + dy),
        _ => seq![filled(30, 500, 480, 400, WHITE)],
    }) + seq![outlined(30, 500, 480, 400, 2)] + (match map_words(view) {
        Some(words) => seq![centered(words, 270, 700, Font::Small, 4)],
        None => seq![],
    }) + map_button("save area"@, 350) + map_button("full screen"@, 40)
}

/// Whether the marker of a view can be placed.
pub open spec fn markable(view: MapView) -> bool {
    view matches MapView::Ready { dx, dy } ==> {
        &&& i32::MIN <= 261 + dx
        &&& 270 + dx <= i32::MAX
        &&& i32::MIN <= 691 + dy
        &&& 700 + dy <= i32::MAX
    }
}

/// Paints the map panel.
pub fn draw_map(scene: &mut Scene, view: &MapView)
    requires
        markable(*view),
    ensures
        final(scene)@ == old(scene)@ + map_picture(*view),
{
    let ghost start = scene@;
    match view {
        MapView::Ready { dx, dy } => {
            scene.map_image(30, 500, 480, 400);
            draw_marker(scene, 270 + *dx, 700 + *dy);
        },
        _ => scene.fill(30, 500, 480, 400, WHITE),
    }
    scene.outline(30, 500, 480, 400, 2);
    let words: Option<String> = map_message(view);
    if let Some(w) = &words {
        scene.center(w.as_str(), 270, 700, Font::Small, 4);
    }
    draw_map_button(scene, "save area", 350);
    draw_map_button(scene, "full screen", 40);
    assert(scene@ =~= start + map_picture(*view));
}

/// Whether a point lies on the button for the whole screen.
pub fn fullscreen_button_hit(sx: i32, sy: i32) -> (r: bool)
    ensures
        r == inside(sx as int, sy as int, 40, 510, 150, 40),
{
    in_rect(sx, sy, 40, 510, 150, 40)
}

/// Whether a point lies on the button that saves an area.
pub fn download_button_hit(sx: i32, sy: i32) -> (r: bool)
    ensures
        r == inside(sx as int, sy as int, 350, 510, 150, 40),
{
    in_rect(sx, sy, 350, 510, 150, 40)
}

/// The part of the panel that the map fills.
pub fn map_panel_native_rect() -> (r: NativeRect)
    ensures
        r == native_of(30, 500, 480, 400),
{
    screen_to_native_rect(30, 500, 480, 400)
}

/// How far the saving of an area is, on a strip over the map.
pub open spec fn progress_picture(done: int, total: int) -> Picture {
    seq![
        filled(30, 685, 480, 30, WHITE),
        centered(
            held("saving area: "@ + dec(done) + "/"@ + dec(total) + "..."@, 40),
            270,
            705,
            Font::Small,
            BLACK,
        ),
    ]
}

/// Paints how far the saving of an area is, and says what to refresh.
pub fn show_download_progress(scene: &mut Scene, done: usize, total: usize) -> (r: Flush)
    ensures
        final(scene)@ == old(scene)@ + progress_picture(done as int, total as int),
        r == Flush::Fast(native_of(30, 685, 480, 30)),
{
    let ghost start = scene@;
    scene.fill(30, 685, 480, 30, WHITE);
    let mut buf: String = own("saving area: ");
    push_dec(&mut buf, done as u64);
    buf.append("/");
    push_dec(&mut buf, total as u64);
    buf.append("...");
    let buf: String = hold(buf, 40);
    scene.center(buf.as_str(), 270, 705, Font::Small, BLACK);
    assert(scene@ =~= start + progress_picture(done as int, total as int));
    Flush::Fast(screen_to_native_rect(30, 685, 480, 30))
}

// ---------------------------------------------------------------------------
// The map on the whole screen.
// ---------------------------------------------------------------------------

/// What a touch of the map on the whole screen does.
#[derive(Clone, Copy, Debug, PartialEq, Eq, Structural)]
pub enum FullAction {
    ZoomOut,
    ZoomIn,
    Back,
    /// Centers the map on the present position.
    Recenter,
}

/// What a touch of the map on the whole screen does.
pub fn full_touch(sx: i32, sy: i32) -> (r: FullAction)
    ensures
        r == if sy < 876 {
            FullAction::Recenter
        } else if sx < 180 {
            FullAction::ZoomOut
        } else if sx < 360 {
            FullAction::ZoomIn
        } else {
            FullAction::Back
        },
{
    if sy < 876 {
        FullAction::Recenter
    } else if sx < 180 {
        FullAction::ZoomOut
    } else if sx < 360 {
        FullAction::ZoomIn
    } else {
        FullAction::Back
    }
}

/// Two to the power of `n`.
pub open spec fn pow2(n: int) -> int
    decreases n,
{
    if n <= 0 {
        1
    } else {
        2 * pow2(n - 1)
    }
}

/// Two to the power of `n`, for powers that fit.
fn power_of_two(n: u32) -> (r: u64)
    requires
        n <= 30,
    ensures
        r == pow2(n as int),
        1 <= r <= 0x4000_0000,
{
    reveal_with_fuel(pow2, 31);
    let mut p: u64 = 1;
    let mut i: u32 = 0;
    while i < n
        invariant
            i <= n <= 30,
            p == pow2(i as int),
            1 <= p,
            p * pow2(n - i) == pow2(n as int),
            pow2(n as int) <= 0x4000_0000,
            1 <= pow2(n - i),
        decreases n - i,
    {
        assert(p * (2 * pow2(n - i - 1)) == (2 * p) * pow2(n - i - 1)) by (nonlinear_arith);
        assert(p <= p * pow2(n - i)) by (nonlinear_arith)
            requires
                1 <= p,
                1 <= pow2(n - i),
        ;
        assert(1 <= pow2(n - i - 1));
        p = 2 * p;
        i = i + 1;
    }
    p
}

/// Pixels of the map for how many of the screen, at a step of the zoom.
pub fn zoom_ratio(zoom_step: i32) -> (r: (u64, u64))
    requires
        -30 <= zoom_step <= 30,
    ensures
        r.0 == pow2(zoom_step as int),
        r.1 == pow2(-zoom_step as int),
{
    if zoom_step >= 0 {
        (power_of_two(zoom_step as u32), 1)
    } else {
        (1, power_of_two((-zoom_step) as u32))
    }
}

/// What stands in place of the map where it cannot be shown.
pub open spec fn full_words(has_fix: bool, has_card: bool) -> Option<Seq<char>> {
    if !has_fix {
        Some("waiting for GPS fix..."@)
    } else if !has_card {
        Some("no SD card"@)
    } else {
        None
    }
}

/// A cell on the screen: from its left and upper edge, at least one pixel wide
/// and high.
pub open spec fn tile_box(x0: int, y0: int, x1: int, y1: int) -> (int, int, int, int) {
    (
        x0,
        y0,
        if x1 - x0 < 1 {
            1
        } else {
            x1 - x0
        },
        if y1 - y0 < 1 {
            1
        } else {
            y1 - y0
        },
    )
}

/// The place of a cell on the screen, given its edges.
pub fn tile_rect(x0: i32, y0: i32, x1: i32, y1: i32) -> (r: (i32, i32, u32, u32))
    requires
        i32::MIN <= x1 - x0 <= i32::MAX,
        i32::MIN <= y1 - y0 <= i32::MAX,
    ensures
        (r.0 as int, r.1 as int, r.2 as int, r.3 as int) == tile_box(
            x0 as int,
            y0 as int,
            x1 as int,
            y1 as int,
        ),
{
    let w: i32 = x1 - x0;
    let h: i32 = y1 - y0;
    (
        x0,
        y0,
        if w < 1 {
            1
        } else {
            w as u32
        },
        if h < 1 {
            1
        } else {
            h as u32
        },
    )
}

/// Cells that share an edge leave no seam: one ends where the next begins, as
/// long as each has some room.
pub proof fn law_tiles_leave_no_seam(x0: int, y0: int, x1: int, y1: int, x2: int)
    requires
        x0 < x1,
        x1 < x2,
    ensures
        ({
            let left = tile_box(x0, y0, x1, y1);
            let right = tile_box(x1, y0, x2, y1);
            left.0 + left.2 == right.0
        }),
{
}

/// A cell to show: its key, and its place on the screen.
pub open spec fn shown_cell(
    cx: int,
    cy: int,
    x0: int,
    y0: int,
    x1: int,
    y1: int,
) -> (u32, (i32, i32, u32, u32)) {
    let b = tile_box(x0, y0, x1, y1);
    (key_of(cx, cy) as u32, (b.0 as i32, b.1 as i32, b.2 as u32, b.3 as u32))
}

/// How many cells lie between edges.
pub open spec fn between(edges: Seq<i32>) -> nat {
    if edges.len() == 0 {
        0
    } else {
        (edges.len() - 1) as nat
    }
}

/// The cells of row `cy` from column `x0` on, between the edges `xs`.
pub open spec fn shown_row(x0: int, xs: Seq<i32>, cy: int, y0: int, y1: int) -> Seq<
    (u32, (i32, i32, u32, u32)),
> {
    Seq::new(
        between(xs),
        |i: int| shown_cell(x0 + i, cy, xs[i] as int, y0, xs[i + 1] as int, y1),
    )
}

/// The cells of the first `n` rows from row `y0` on, between the edges `ys`.
pub open spec fn shown_rows(x0: int, xs: Seq<i32>, y0: int, ys: Seq<i32>, n: nat) -> Seq<
    (u32, (i32, i32, u32, u32)),
>
    decreases n,
{
    if n == 0 {
        seq![]
    } else {
        shown_rows(x0, xs, y0, ys, (n - 1) as nat) + shown_row(
            x0,
            xs,
            y0 + n - 1,
            ys[n - 1] as int,
            ys[n as int] as int,
        )
    }
}

/// Whether the distances between edges are numbers that the screen has.
pub open spec fn near(edges: Seq<i32>) -> bool {
    forall|i: int|
        0 <= i < edges.len() - 1 ==> i32::MIN <= #[trigger] edges[i + 1] - edges[i] <= i32::MAX
}

/// The cells to show, row by row, each with its place on the screen: the
/// columns from `x0` on lie between the edges `xs`, and the rows from `y0` on
/// between the edges `ys`.
pub fn full_plan(x0: i64, xs: &[i32], y0: i64, ys: &[i32]) -> (r: Vec<
    (u32, (i32, i32, u32, u32)),
>)
    requires
        x0 + xs@.len() <= i64::MAX,
        y0 + ys@.len() <= i64::MAX,
        near(xs@),
        near(ys@),
    ensures
        r@ == shown_rows(x0 as int, xs@, y0 as int, ys@, between(ys@)),
{
    let cols: usize = if xs.len() == 0 {
        0
    } else {
        xs.len() - 1
    };
    let rows: usize = if ys.len() == 0 {
        0
    } else {
        ys.len() - 1
    };
    let mut cells: Vec<(u32, (i32, i32, u32, u32))> = Vec::new();
    let mut cy: i64 = y0;
    let mut j: usize = 0;
    while j < rows
        invariant
            cols == between(xs@),
            rows == between(ys@),
            cy == y0 + j,
            x0 + xs@.len() <= i64::MAX,
            y0 + ys@.len() <= i64::MAX,
            near(xs@),
            near(ys@),
            j <= rows,
            cells@ == shown_rows(x0 as int, xs@, y0 as int, ys@, j as nat),
        decreases rows - j,
    {
        let ghost above = cells@;
        let ghost row = shown_row(
            x0 as int,
            xs@,
            y0 + j,
            ys@[j as int] as int,
            ys@[j + 1] as int,
        );
        let mut cx: i64 = x0;
        let mut i: usize = 0;
        assert(row.take(0) =~= seq![]);
        while i < cols
            invariant
                cols == between(xs@),
                rows == between(ys@),
                cx == x0 + i,
                cy == y0 + j,
                x0 + xs@.len() <= i64::MAX,
                y0 + ys@.len() <= i64::MAX,
                near(xs@),
                near(ys@),
                j < rows,
                i <= cols,
                row == shown_row(
                    x0 as int,
                    xs@,
                    y0 + j,
                    ys@[j as int] as int,
                    ys@[j + 1] as int,
                ),
                cells@ == above + row.take(i as int),
            decreases cols - i,
        {
            assert(xs@[i + 1] - xs@[i as int] <= i32::MAX);
            assert(ys@[j + 1] - ys@[j as int] <= i32::MAX);
            cells.push((cell_key(cx, cy), tile_rect(xs[i], ys[j], xs[i + 1], ys[j + 1])));
            assert(row.take(i + 1) =~= row.take(i as int).push(row[i as int]));
            cx = cx + 1;
            i = i + 1;
        }
        assert(row.take(row.len() as int) =~= row);
        cy = cy + 1;
        j = j + 1;
    }
    cells
}

/// Every cell gets its own place: what stands in column `i` and row `j` of the
/// plan is the cell there, between the edges there.
pub proof fn law_cells_get_their_own_places(
    x0: int,
    xs: Seq<i32>,
    y0: int,
    ys: Seq<i32>,
    n: nat,
    i: int,
    j: int,
)
    requires
        0 <= i < between(xs),
        0 <= j < n,
    ensures
        ({
            let plan = shown_rows(x0, xs, y0, ys, n);
            &&& plan.len() == n * between(xs)
            &&& 0 <= j * between(xs) + i < plan.len()
            &&& plan[j * between(xs) + i] == shown_cell(
                x0 + i,
                y0 + j,
                xs[i] as int,
                ys[j] as int,
                xs[i + 1] as int,
                ys[j + 1] as int,
            )
        }),
    decreases n,
{
    let cols = between(xs);
    let before = shown_rows(x0, xs, y0, ys, (n - 1) as nat);
    let plan = shown_rows(x0, xs, y0, ys, n);
    lemma_plan_len(x0, xs, y0, ys, (n - 1) as nat);
    assert((n - 1) * cols + cols == n * cols) by (nonlinear_arith)
        requires
            n >= 1,
    ;
    if j == n - 1 {
        assert(0 <= j * cols) by (nonlinear_arith)
            requires
                j >= 0,
        ;
        assert(plan[j * cols + i] == shown_row(
            x0,
            xs,
            y0 + n - 1,
            ys[n - 1] as int,
            ys[n as int] as int,
        )[i]);
    } else {
        law_cells_get_their_own_places(x0, xs, y0, ys, (n - 1) as nat, i, j);
        assert(plan[j * cols + i] == before[j * cols + i]);
    }
}

/// The plan has as many cells as rows and columns make.
proof fn lemma_plan_len(x0: int, xs: Seq<i32>, y0: int, ys: Seq<i32>, n: nat)
    ensures
        shown_rows(x0, xs, y0, ys, n).len() == n * between(xs),
    decreases n,
{
    if n > 0 {
        lemma_plan_len(x0, xs, y0, ys, (n - 1) as nat);
        assert((n - 1) * between(xs) + between(xs) == n * between(xs)) by (nonlinear_arith)
            requires
                n >= 1,
        ;
    } else {
        assert(n * between(xs) == 0) by (nonlinear_arith)
            requires
                n == 0,
        ;
    }
}

/// What lies over the cells of the map on the whole screen: the marker in its
/// middle; or what stands in place of the map.
pub open spec fn over_full_map(has_fix: bool, has_card: bool) -> Picture {
    match full_words(has_fix, has_card) {
        Some(words) => seq![centered(words, 270, 438, Font::Small, 4)],
        None => marker_picture(270, 438),
    }
}

/// Paints what lies over the cells of the map on the whole screen, or what
/// stands in its place. Says whether the cells are shown.
pub fn render_full_map(scene: &mut Scene, has_fix: bool, has_card: bool) -> (r: bool)
    ensures
        r == (has_fix && has_card),
        final(scene)@ == old(scene)@ + over_full_map(has_fix, has_card),
{
    if !has_fix {
        scene.center("waiting for GPS fix...", 270, 438, Font::Small, 4);
        false
    } else if !has_card {
        scene.center("no SD card", 270, 438, Font::Small, 4);
        false
    } else {
        draw_marker(scene, 270, 438);
        true
    }
}

/// The step of the zoom, in words.
pub open spec fn zoom_text(zoom_step: int) -> Seq<char> {
    if zoom_step == 0 {
        "1x"@
    } else if zoom_step > 0 {
        "out "@ + dec(pow2(zoom_step)) + "x"@
    } else {
        "in "@ + dec(pow2(-zoom_step)) + "x"@
    }
}

/// The controls under the map and the step of the zoom over it.
pub open spec fn controls_picture(zoom_step: int) -> Picture {
    seq![
        filled(0, 876, 540, 84, WHITE),
        filled(0, 876, 540, 2, BLACK),
        filled(180, 876, 2, 84, BLACK),
        filled(360, 876, 2, 84, BLACK),
        centered("zoom -"@, 90, 924, Font::Bold, BLACK),
        centered("zoom +"@, 270, 924, Font::Bold, BLACK),
        centered("back"@, 450, 924, Font::Bold, BLACK),
        filled(0, 0, 90, 26, WHITE),
        label(zoom_text(zoom_step), 8, 17, Font::Small, BLACK),
    ]
}

/// Paints the controls under the map and the step of the zoom over it.
pub fn draw_full_controls(scene: &mut Scene, zoom_step: i32)
    requires
        -30 <= zoom_step <= 30,
    ensures
        final(scene)@ == old(scene)@ + controls_picture(zoom_step as int),
{
    let ghost start = scene@;
    scene.fill(0, 876, 540, 84, WHITE);
    scene.fill(0, 876, 540, 2, BLACK);
    scene.fill(180, 876, 2, 84, BLACK);
    scene.fill(360, 876, 2, 84, BLACK);
    scene.center("zoom -", 90, 924, Font::Bold, BLACK);
    scene.center("zoom +", 270, 924, Font::Bold, BLACK);
    scene.center("back", 450, 924, Font::Bold, BLACK);
    let mut buf: String = String::new();
    if zoom_step == 0 {
        buf.append("1x");
    } else if zoom_step > 0 {
        buf.append("out ");
        push_dec(&mut buf, power_of_two(zoom_step as u32));
        buf.append("x");
    } else {
        buf.append("in ");
        push_dec(&mut buf, power_of_two((-zoom_step) as u32));
        buf.append("x");
    }
    assert(buf@ =~= zoom_text(zoom_step as int));
    scene.fill(0, 0, 90, 26, WHITE);
    scene.text(buf.as_str(), 8, 17, Font::Small, BLACK);
    assert(scene@ =~= start + controls_picture(zoom_step as int));
}

/// The readout shows the module and the fix, and the position, height, speed
/// and precision of the present fix; where there is none, of the last one, with
/// a mark at the position; and dashes where there never was one.
pub proof fn law_position_is_shown(
    module: Module,
    kind: Option<FixKind>,
    in_view: int,
    current: Option<GpsFix>,
    last: Option<GpsFix>,
)
    ensures
        ({
            let shown = data_picture(module, kind, in_view, current, last);
            let words = fix_line(kind, in_view, current, last);
            &&& shown.len() == 8
            &&& shown[1] == label("Module: "@ + module_text(module), 60, 200, Font::Small, BLACK)
            &&& shown[2] == label(words, 60, 228, Font::Small, BLACK)
            &&& current matches Some(f) ==> {
                &&& shown[3] == label(held("Lat:    "@ + f.lat@, 48), 60, 266, Font::Small, BLACK)
                &&& shown[4] == label(held("Lon:    "@ + f.lng@, 48), 60, 294, Font::Small, BLACK)
                &&& words == held(
                    "Fix:    "@ + fix_text(kind) + " ("@ + dec(f.sats as int) + " used, "@ + dec(
                        in_view,
                    ) + " in view)"@,
                    48,
                )
            }
            &&& current is None && last is Some ==> {
                &&& shown[3] == label(
                    held("Lat:    "@ + last->0.lat@ + "  (last)"@, 48),
                    60,
                    266,
                    Font::Small,
                    BLACK,
                )
                &&& shown[4] == label(
                    held("Lon:    "@ + last->0.lng@ + "  (last)"@, 48),
                    60,
                    294,
                    Font::Small,
                    BLACK,
                )
                &&& words == "Fix:    re-acquiring ("@ + dec(in_view) + " in view)"@
            }
            &&& current is Some || last is Some ==> {
                let f = if current is Some {
                    current->0
                } else {
                    last->0
                };
                &&& shown[5] == label(
                    held("Alt:    "@ + f.alt@ + " m"@, 48),
                    60,
                    322,
                    Font::Small,
                    BLACK,
                )
                &&& shown[6] == label(
                    held("Speed:  "@ + f.speed@ + " kn"@, 48),
                    60,
                    350,
                    Font::Small,
                    BLACK,
                )
                &&& shown[7] == label(
                    held("HDOP:   "@ + f.hdop@ + "   VDOP: "@ + f.vdop@, 48),
                    60,
                    378,
                    Font::Small,
                    BLACK,
                )
            }
            &&& current is None && last is None ==> {
                &&& shown[3] == label("Lat:    --"@, 60, 266, Font::Small, BLACK)
                &&& shown[4] == label("Lon:    --"@, 60, 294, Font::Small, BLACK)
                &&& shown[5] == label("Alt:    --"@, 60, 322, Font::Small, BLACK)
                &&& shown[6] == label("Speed:  --"@, 60, 350, Font::Small, BLACK)
                &&& shown[7] == label("HDOP:   --   VDOP: --"@, 60, 378, Font::Small, BLACK)
                &&& words == "Fix:    no fix ("@ + dec(in_view) + " in view)"@
            }
        }),
{
    reveal_strlit("");
    match current {
        Some(f) => {
            assert("Lat:    "@ + f.lat@ + ""@ =~= "Lat:    "@ + f.lat@);
            assert("Lon:    "@ + f.lng@ + ""@ =~= "Lon:    "@ + f.lng@);
        },
        None => {},
    }
}

/// The map shows the position as far from its middle as the cell says, over the
/// image, and nothing in words; without an image it says in words why.
pub proof fn law_map_shows_the_position(dx: i32, dy: i32, n: usize, total: int)
    requires
        -240 <= dx <= 240,
        -200 <= dy <= 200,
    ensures
        ({
            let shown = map_picture(MapView::Ready { dx, dy });
            &&& shown.len() == 11
            &&& shown[0] == (Shape::<Seq<char>>::MapImage { x: 30, y: 500, w: 480, h: 400 })
            &&& shown[1] == disc(261 + dx, 691 + dy, 18, Ink::Fill { gray: WHITE })
            &&& shown[3] == disc(266 + dx, 696 + dy, 8, Ink::Fill { gray: BLACK })
        }),
        map_words(MapView::Loading) == Some("loading map..."@),
        map_words(MapView::NoFix) == Some("waiting for GPS fix..."@),
        map_words(MapView::Error) == Some("map unavailable (offline?)"@),
        map_words(MapView::Downloading(n)) == Some(
            held("saving area: "@ + dec(n as int) + " tiles..."@, 32),
        ),
        progress_picture(n as int, total)[1] == centered(
            held("saving area: "@ + dec(n as int) + "/"@ + dec(total) + "..."@, 40),
            270,
            705,
            Font::Small,
            BLACK,
        ),
{
}

/// Where the map is not there, the panel says why in its middle.
pub proof fn law_missing_map_is_explained(view: MapView)
    requires
        !(view is Ready),
    ensures
        map_words(view) is Some,
        map_picture(view).len() == 9,
        map_picture(view)[2] == centered(map_words(view)->0, 270, 700, Font::Small, 4),
{
}

/// What was saved is told with its size, and how much of it is new unless all
/// of it was there.
pub proof fn law_saved_area_is_told(view: MapView)
    ensures
        view matches MapView::Saved { km2, new_tiles } ==> map_words(view) == Some(
            held(
                if new_tiles > 0 {
                    "area saved: "@ + km2@ + " sq km ("@ + dec(new_tiles as int) + " new)"@
                } else {
                    "area already saved: "@ + km2@ + " sq km"@
                },
                40,
            ),
        ),
{
}

/// Each step of the zoom doubles the scale or halves it, and the corner of the
/// map names the scale.
pub proof fn law_zoom_doubles(n: int)
    requires
        0 <= n,
    ensures
        pow2(0) == 1,
        pow2(n + 1) == pow2(n) + pow2(n),
        zoom_text(0) == "1x"@,
        n > 0 ==> zoom_text(n) == "out "@ + dec(pow2(n)) + "x"@,
        n > 0 ==> zoom_text(-n) == "in "@ + dec(pow2(n)) + "x"@,
        controls_picture(n).last() == label(zoom_text(n), 8, 17, Font::Small, BLACK),
        controls_picture(-n).last() == label(zoom_text(-n), 8, 17, Font::Small, BLACK),
{
}

/// A cell of the map is shown from one edge to the next, across and down, and is
/// the cell that belongs there.
pub proof fn law_cells_fill_their_places(cx: int, cy: int, x0: i32, y0: i32, x1: i32, y1: i32)
    requires
        x0 < x1,
        y0 < y1,
        x1 - x0 <= i32::MAX,
        y1 - y0 <= i32::MAX,
    ensures
        ({
            let (key, (x, y, w, h)) = shown_cell(
                cx,
                cy,
                x0 as int,
                y0 as int,
                x1 as int,
                y1 as int,
            );
            &&& key == key_of(cx, cy)
            &&& x == x0
            &&& y == y0
            &&& x + w == x1
            &&& y + h == y1
        }),
        tile_box(x0 as int, y0 as int, x0 as int, y0 as int).2 == 1,
        tile_box(x0 as int, y0 as int, x0 as int, y0 as int).3 == 1,
{
    assert(0 <= key_of(cx, cy) <= u32::MAX);
}

/// The marker is a black disc on a white one with a black rim, all three around
/// the same place.
pub proof fn law_marker_is_around_its_place(x: int, y: int)
    ensures
        marker_picture(x, y).len() == 3,
        marker_picture(x, y)[0] == disc(x - 9, y - 9, 18, Ink::Fill { gray: WHITE }),
        marker_picture(x, y)[1] == disc(
            x - 9,
            y - 9,
            18,
            Ink::Stroke { gray: BLACK, width: 2 },
        ),
        marker_picture(x, y)[2] == disc(x - 4, y - 4, 8, Ink::Fill { gray: BLACK }),
{
}

/// The map on the whole screen has the marker in its middle; without a position
/// or a card it says so instead.
pub proof fn law_whole_map_has_the_marker(card: bool)
    ensures
        over_full_map(true, true) == marker_picture(270, 438),
        over_full_map(false, card) == seq![
            centered("waiting for GPS fix..."@, 270, 438, Font::Small, 4),
        ],
        over_full_map(true, false) == seq![centered("no SD card"@, 270, 438, Font::Small, 4)],
{
}

/// The names of the modules and of the kinds of fix.
pub proof fn law_names_of_modules_and_fixes()
    ensures
        module_text(Module::L76K) == "L76K"@,
        module_text(Module::MiaM10Q) == "MIA-M10Q"@,
        fix_text(Some(FixKind::Gps)) == "GPS"@,
        fix_text(Some(FixKind::DGps)) == "DGPS"@,
        fix_text(Some(FixKind::Rtk)) == "RTK"@,
        fix_text(Some(FixKind::FloatRtk)) == "float RTK"@,
        fix_text(Some(FixKind::Other)) == "other"@,
        fix_text(None) == "fix"@,
{
}

/// The two buttons of the panel are painted over the map, whatever it shows.
pub proof fn law_map_has_its_buttons(view: MapView)
    ensures
        ({
            let shown = map_picture(view);
            let n = shown.len() as int;
            &&& n >= 7
            &&& shown[n - 6] == filled(350, 510, 150, 40, WHITE)
            &&& shown[n - 4] == centered("save area"@, 425, 534, Font::Small, BLACK)
            &&& shown[n - 3] == filled(40, 510, 150, 40, WHITE)
            &&& shown[n - 1] == centered("full screen"@, 115, 534, Font::Small, BLACK)
        }),
{
}

} // verus!
