//! The LoRa page: three tabs, for the node and its peers, for composing a
//! message, and for the log of messages.
use vstd::prelude::*;
use vstd::string::*;

use crate::keyboard::{self, keyboard_picture};
use crate::layout::{in_rect, inside, native_of, screen_to_native_rect, NativeRect};
use crate::mesh::{Mesh, Outlook, Peer};
use crate::scene::{
    centered, column, filled, framed, label, Font, Picture, Scene, Shape, BLACK, WHITE,
};
use crate::text::{
    chars_of, dec, first_chars, own, push_chars, push_dec, string_of, texts,
};
use crate::text_field::{EnterKey, TextField, Wrap};

verus! {

/// The view of the page that is open.
#[derive(Clone, Copy, Debug, PartialEq, Eq, Structural)]
pub enum Tab {
    /// This node and its peers.
    Info,
    /// Composing a message.
    Send,
    /// The log of messages.
    Recv,
}

/// Bytes that a message may have.
pub const MSG_MAX: usize = 200;

/// How many sent messages are listed.
pub const LIST_MAX: usize = 3;

/// Where the list of sent messages begins.
pub const SENT_Y: i32 = 368;

/// Rows that the log of messages shows at once.
pub const RECV_ROWS: usize = 40;

/// Characters that fit in a row of the log.
pub const RECV_CHARS: usize = 70;

/// Rows that the table of peers shows.
pub const INFO_ROWS: usize = 22;

/// Where each tab begins.
pub open spec fn tab_x(tab: Tab) -> int {
    match tab {
        Tab::Info => 30,
        Tab::Send => 195,
        Tab::Recv => 360,
    }
}

/// Whether a point lies on a tab.
pub open spec fn on_tab(tab: Tab, sx: int, sy: int) -> bool {
    inside(sx, sy, tab_x(tab), 64, 150, 48)
}

/// The view whose tab a point lies on.
pub open spec fn tab_at(sx: int, sy: int) -> Option<Tab> {
    if on_tab(Tab::Info, sx, sy) {
        Some(Tab::Info)
    } else if on_tab(Tab::Send, sx, sy) {
        Some(Tab::Send)
    } else if on_tab(Tab::Recv, sx, sy) {
        Some(Tab::Recv)
    } else {
        None
    }
}

/// The tab that a point lies on.
pub fn tab_hit(sx: i32, sy: i32) -> (r: Option<Tab>)
    ensures
        r == tab_at(sx as int, sy as int),
        r matches Some(t) ==> on_tab(t, sx as int, sy as int),
        r is None ==> forall|t: Tab| !on_tab(t, sx as int, sy as int),
{
    if in_rect(sx, sy, 30, 64, 150, 48) {
        Some(Tab::Info)
    } else if in_rect(sx, sy, 195, 64, 150, 48) {
        Some(Tab::Send)
    } else if in_rect(sx, sy, 360, 64, 150, 48) {
        Some(Tab::Recv)
    } else {
        None
    }
}

/// Whether a point lies on the button that scrolls up.
pub fn recv_scroll_up_hit(sx: i32, sy: i32) -> (r: bool)
    ensures
        r == inside(sx as int, sy as int, 470, 140, 60, 100),
{
    in_rect(sx, sy, 470, 140, 60, 100)
}

/// Whether a point lies on the button that scrolls down.
pub fn recv_scroll_down_hit(sx: i32, sy: i32) -> (r: bool)
    ensures
        r == inside(sx as int, sy as int, 470, 840, 60, 100),
{
    in_rect(sx, sy, 470, 840, 60, 100)
}

/// Whether a point lies on the button that deletes the log.
pub fn recv_clear_hit(sx: i32, sy: i32) -> (r: bool)
    ensures
        r == inside(sx as int, sy as int, 470, 560, 60, 60),
{
    in_rect(sx, sy, 470, 560, 60, 60)
}

/// No point is on two tabs, nor on two buttons of the log.
pub proof fn law_lora_targets_are_apart(a: Tab, b: Tab, sx: int, sy: int)
    ensures
        on_tab(a, sx, sy) && on_tab(b, sx, sy) ==> a == b,
        inside(sx, sy, 470, 140, 60, 100) ==> !inside(sx, sy, 470, 840, 60, 100) && !inside(
            sx,
            sy,
            470,
            560,
            60,
            60,
        ),
        inside(sx, sy, 470, 840, 60, 100) ==> !inside(sx, sy, 470, 560, 60, 60),
{
}

/// The rows of one message: the characters that fit, and where there are more
/// a second row, indented, with what fits of them.
pub open spec fn message_rows(s: Seq<char>) -> Seq<Seq<char>> {
    if s.len() <= 70 {
        seq![s]
    } else {
        seq![s.take(70), "  "@ + first_chars(s.skip(70), 68)]
    }
}

/// The rows of the log, the newest message first.
pub open spec fn log_rows(entries: Seq<Seq<char>>) -> Seq<Seq<char>>
    decreases entries.len(),
{
    if entries.len() == 0 {
        seq![]
    } else {
        message_rows(entries.last()) + log_rows(entries.drop_last())
    }
}

/// The rows of the log, the newest message first.
pub fn recv_lines(entries: &Vec<String>) -> (r: Vec<String>)
    ensures
        texts(r@) == log_rows(texts(entries@)),
{
    let mut lines: Vec<String> = Vec::new();
    let ghost all = texts(entries@);
    let mut i: usize = entries.len();
    assert(all.take(all.len() as int) =~= all);
    assert(texts(lines@) + log_rows(all) =~= log_rows(all));
    while i > 0
        invariant
            i <= entries@.len(),
            all == texts(entries@),
            texts(lines@) + log_rows(all.take(i as int)) == log_rows(all),
        decreases i,
    {
        let ghost part = all.take(i as int);
        i = i - 1;
        let chars: Vec<char> = chars_of(entries[i].as_str());
        let ghost before = texts(lines@);
        let n: usize = chars.len();
        let cut: usize = if n < 70 {
            n
        } else {
            70
        };
        lines.push(string_of(chars.as_slice(), 0, cut));
        if n > 70 {
            let mut rest: String = own("  ");
            let end: usize = if n - 70 <= 68 {
                n
            } else {
                138
            };
            push_chars(&mut rest, chars.as_slice(), 70, end);
            assert(chars@.subrange(70, end as int) =~= first_chars(chars@.skip(70), 68));
            lines.push(rest);
        }
        proof {
            assert(part.last() == chars@);
            assert(part.drop_last() =~= all.take(i as int));
            assert(chars@.subrange(0, cut as int) =~= if n <= 70 {
                chars@
            } else {
                chars@.take(70)
            });
            assert(texts(lines@) =~= before + message_rows(chars@));
            assert(texts(lines@) + log_rows(all.take(i as int)) =~= before + log_rows(part));
        }
    }
    assert(texts(lines@) + log_rows(all.take(0)) =~= texts(lines@));
    lines
}

/// How many rows the log shows at once.
pub fn recv_visible_rows() -> (r: usize)
    ensures
        r == 40,
{
    RECV_ROWS
}

/// The row that the log can be scrolled to at most.
pub open spec fn last_scroll(rows: int) -> int {
    if rows <= 40 {
        0
    } else {
        rows - 40
    }
}

/// The row that the log can be scrolled to at most, so that its last page
/// shows the oldest messages.
pub fn recv_scroll_max(entries: &Vec<String>) -> (r: usize)
    ensures
        r == last_scroll(log_rows(texts(entries@)).len() as int),
{
    let n: usize = recv_lines(entries).len();
    if n <= RECV_ROWS {
        0
    } else {
        n - RECV_ROWS
    }
}

/// One tab.
pub open spec fn tab_picture(text: Seq<char>, x: int, active: bool) -> Picture {
    seq![
        if active {
            filled(x, 64, 150, 48, BLACK)
        } else {
            framed(x, 64, 150, 48, WHITE, 2)
        },
        centered(
            text,
            x + 75,
            94,
            Font::Bold,
            if active {
                WHITE
            } else {
                BLACK
            },
        ),
    ]
}

/// The three tabs.
pub open spec fn tabs_picture(tab: Tab) -> Picture {
    tab_picture("Info"@, 30, tab == Tab::Info) + tab_picture("Send"@, 195, tab == Tab::Send)
        + tab_picture("Receive"@, 360, tab == Tab::Recv)
}

/// Paints one tab.
fn draw_tab(scene: &mut Scene, text: &str, x: i32, active: bool)
    requires
        0 <= x <= 1000,
    ensures
        final(scene)@ == old(scene)@ + tab_picture(text@, x as int, active),
{
    let ghost before = scene@;
    if active {
        scene.fill(x, 64, 150, 48, BLACK);
        scene.center(text, x + 75, 94, Font::Bold, WHITE);
    } else {
        scene.frame(x, 64, 150, 48, WHITE, 2);
        scene.center(text, x + 75, 94, Font::Bold, BLACK);
    }
    assert(scene@ =~= before + tab_picture(text@, x as int, active));
}

/// Paints the three tabs.
pub fn draw_tabs(scene: &mut Scene, tab: Tab)
    ensures
        final(scene)@ == old(scene)@ + tabs_picture(tab),
{
    let ghost before = scene@;
    draw_tab(scene, "Info", 30, tab == Tab::Info);
    draw_tab(scene, "Send", 195, tab == Tab::Send);
    draw_tab(scene, "Receive", 360, tab == Tab::Recv);
    assert(scene@ =~= before + tabs_picture(tab));
}

/// The box that a message is composed in.
pub open spec fn message_box(f: TextField) -> bool {
    &&& f.x == 30
    &&& f.y == 150
    &&& f.w == 480
    &&& f.h == 170
    &&& f.wrap == Wrap::CharFill
    &&& f.enter == EnterKey::Submit
    &&& f.placeholder@ == "type a message..."@
    &&& f.enter_label@ == "SEND"@
}

/// The box that a message is composed in.
pub fn message_field() -> (r: TextField)
    ensures
        message_box(r),
        !r.symbols && !r.shift && !r.dirty && !r.quick_pending,
        r.chars_this_pass == 0,
        r.placed(),
{
    TextField::new(
        30,
        150,
        480,
        170,
        Wrap::CharFill,
        EnterKey::Submit,
        "type a message...",
        "SEND",
    )
}

/// Paints the message that is being composed.
pub fn draw_message(scene: &mut Scene, field: &TextField, message: &str)
    requires
        message_box(*field),
        field.can_show(message@),
    ensures
        final(scene)@ == old(scene)@ + field.picture(message@),
{
    field.draw(scene, message);
}

/// The line that says what became of the last message.
pub open spec fn status_picture(status: Seq<char>) -> Picture {
    seq![filled(30, 322, 480, 44, WHITE), centered(status, 270, 340, Font::Body, BLACK)]
}

/// Paints the line that says what became of the last message.
pub fn draw_lora_status(scene: &mut Scene, status: &str)
    ensures
        final(scene)@ == old(scene)@ + status_picture(status@),
{
    let ghost before = scene@;
    scene.fill(30, 322, 480, 44, WHITE);
    scene.center(status, 270, 340, Font::Body, BLACK);
    assert(scene@ =~= before + status_picture(status@));
}

/// A message in the list of sent ones: one line, cut where it is too long.
pub open spec fn listed(s: Seq<char>) -> Seq<char> {
    if s.len() > 66 {
        "> "@ + s.take(66) + "..."@
    } else {
        "> "@ + s
    }
}

/// The lines of the list, the newest first.
pub open spec fn listed_rows(items: Seq<Seq<char>>) -> Seq<Seq<char>> {
    Seq::new(items.len(), |i: int| listed(items[items.len() - 1 - i]))
}

/// A list of messages under a heading.
pub open spec fn list_picture(y: int, header: Seq<char>, items: Seq<Seq<char>>) -> Picture {
    seq![filled(30, y, 480, 102, WHITE), label(header, 34, y + 16, Font::Body, BLACK)] + column(
        listed_rows(items),
        40,
        y + 40,
        Font::Small,
        BLACK,
    )
}

/// Writes a message for the list.
fn list_line(msg: &str) -> (r: String)
    ensures
        r@ == listed(msg@),
{
    let chars: Vec<char> = chars_of(msg);
    let mut line: String = own("> ");
    if chars.len() > 66 {
        push_chars(&mut line, chars.as_slice(), 0, 66);
        assert(chars@.subrange(0, 66) =~= chars@.take(66));
        line.append("...");
    } else {
        line.append(msg);
    }
    line
}

/// Paints a list of messages under a heading, the newest first.
pub fn draw_list(scene: &mut Scene, y: i32, header: &str, items: &Vec<String>)
    requires
        y + 40 + 20 * items@.len() <= i32::MAX,
    ensures
        final(scene)@ == old(scene)@ + list_picture(y as int, header@, texts(items@)),
{
    let ghost before = scene@;
    scene.fill(30, y, 480, 102, WHITE);
    scene.text(header, 34, y + 16, Font::Body, BLACK);
    let ghost all = texts(items@);
    let n: usize = items.len();
    let mut rows: Vec<String> = Vec::new();
    let mut i: usize = 0;
    while i < n
        invariant
            i <= n,
            n == items@.len(),
            all == texts(items@),
            rows@.len() == i,
            forall|k: int| 0 <= k < i ==> (#[trigger] rows@[k])@ == listed(all[n - 1 - k]),
        decreases n - i,
    {
        rows.push(list_line(items[n - 1 - i].as_str()));
        i = i + 1;
    }
    assert(texts(rows@).subrange(0, n as int) =~= listed_rows(all));
    scene.column(&rows, 0, n, 40, y + 40, Font::Small, BLACK);
    assert(scene@ =~= before + list_picture(y as int, header@, all));
}

/// Where the log is scrolled to: no further than its last row.
pub open spec fn scroll_clamped(scroll: int, rows: int) -> int {
    if rows == 0 {
        0
    } else if scroll < rows {
        scroll
    } else {
        rows - 1
    }
}

/// The rows that the log shows.
pub open spec fn visible_rows(rows: Seq<Seq<char>>, scroll: int) -> Seq<Seq<char>> {
    let at = scroll_clamped(scroll, rows.len() as int);
    if at + 40 < rows.len() {
        rows.subrange(at, at + 40)
    } else {
        rows.skip(at)
    }
}

/// The controls of the log: scrolling up and down, and deleting it, which asks
/// for a second touch.
pub open spec fn log_controls(armed: bool) -> Picture {
    seq![
        framed(470, 140, 60, 100, WHITE, 2),
        centered("^"@, 500, 194, Font::Bold, BLACK),
        framed(470, 840, 60, 100, WHITE, 2),
        centered("v"@, 500, 894, Font::Bold, BLACK),
        framed(
            470,
            560,
            60,
            60,
            if armed {
                11
            } else {
                WHITE
            },
            2,
        ),
        centered(
            if armed {
                "SURE?"@
            } else {
                "CLR"@
            },
            500,
            594,
            Font::Small,
            BLACK,
        ),
    ]
}

/// The log of messages, from row `scroll` on, and how much of it was shown by
/// its last row.
pub open spec fn log_picture(entries: Seq<Seq<char>>, scroll: int, armed: bool) -> Picture {
    let rows = log_rows(entries);
    let at = scroll_clamped(scroll, rows.len() as int);
    let shown = visible_rows(rows, scroll);
    seq![filled(0, 136, 540, 808, WHITE)] + (if rows.len() == 0 {
        seq![label("no messages yet"@, 24, 156, Font::Small, BLACK)]
    } else {
        seq![]
    }) + column(shown, 24, 154, Font::Small, BLACK) + log_controls(armed) + seq![
        centered(
            dec(at + shown.len()) + "/"@ + dec(rows.len() as int),
            500,
            540,
            Font::Small,
            BLACK,
        ),
    ]
}

/// Paints the log of messages.
pub fn draw_recv_list(scene: &mut Scene, entries: &Vec<String>, scroll: usize, clear_armed: bool)
    ensures
        final(scene)@ == old(scene)@ + log_picture(texts(entries@), scroll as int, clear_armed),
{
    let ghost before = scene@;
    scene.fill(0, 136, 540, 808, WHITE);
    let lines: Vec<String> = recv_lines(entries);
    let n: usize = lines.len();
    let at: usize = if n == 0 {
        0
    } else if scroll < n {
        scroll
    } else {
        n - 1
    };
    if n == 0 {
        scene.text("no messages yet", 24, 156, Font::Small, BLACK);
    }
    let end: usize = if n - at > RECV_ROWS {
        at + RECV_ROWS
    } else {
        n
    };
    let ghost rows = log_rows(texts(entries@));
    assert(texts(lines@).subrange(at as int, end as int) =~= visible_rows(rows, scroll as int));
    scene.column(&lines, at, end, 24, 154, Font::Small, BLACK);
    let ghost listed = scene@;
    scene.frame(470, 140, 60, 100, WHITE, 2);
    scene.center("^", 500, 194, Font::Bold, BLACK);
    scene.frame(470, 840, 60, 100, WHITE, 2);
    scene.center("v", 500, 894, Font::Bold, BLACK);
    if clear_armed {
        scene.frame(470, 560, 60, 60, 11, 2);
        scene.center("SURE?", 500, 594, Font::Small, BLACK);
    } else {
        scene.frame(470, 560, 60, 60, WHITE, 2);
        scene.center("CLR", 500, 594, Font::Small, BLACK);
    }
    assert(scene@ =~= listed + log_controls(clear_armed));
    let mut hint: String = String::new();
    push_dec(&mut hint, end as u64);
    hint.append("/");
    push_dec(&mut hint, n as u64);
    assert(hint@ =~= dec(end as int) + "/"@ + dec(n as int));
    scene.center(hint.as_str(), 500, 540, Font::Small, BLACK);
    assert(scene@ =~= before + log_picture(texts(entries@), scroll as int, clear_armed));
}

/// What the info tab shows of the mesh.
pub struct MeshInfo {
    pub identity: String,
    pub timeline: String,
    pub counters: String,
    pub peers: Vec<String>,
}

impl MeshInfo {
    /// What is known of the mesh, as text.
    pub fn of(mesh: &Mesh, outlook: &Outlook, peers: &Vec<Peer>) -> (r: Self)
        ensures
            r.identity@ == mesh.identity_line(*outlook),
            r.timeline@ == mesh.timeline_line(*outlook),
            r.counters@ == mesh.counter_line(*outlook),
            r.peers@.len() == peers@.len(),
            forall|i: int|
                0 <= i < peers@.len() ==> (#[trigger] r.peers@[i])@ == crate::mesh::peer_row(
                    peers@[i],
                    mesh.node_id,
                    outlook.alias,
                ),
    {
        let (identity, timeline, counters) = mesh.info_lines(outlook);
        let rows: Vec<String> = mesh.peer_rows(peers, &outlook.alias);
        MeshInfo { identity, timeline, counters, peers: rows }
    }
}

/// The info tab: this node, then a table of its peers, as far as there is
/// room.
pub open spec fn info_picture(info: Option<MeshInfo>) -> Picture {
    seq![filled(0, 136, 540, 574, WHITE)] + match info {
        None => seq![label("mesh not running"@, 24, 158, Font::Body, BLACK)],
        Some(m) => {
            let rows = texts(m.peers@);
            seq![
                label(m.identity@, 24, 158, Font::Body, BLACK),
                label(m.timeline@, 24, 182, Font::Body, BLACK),
                label(m.counters@, 24, 206, Font::Body, BLACK),
                Shape::Line { x0: 20, y0: 222, x1: 520, y1: 222, gray: BLACK, width: 1 },
                label(
                    "peer                  slot   dBm   heard"@,
                    24,
                    244,
                    Font::Small,
                    BLACK,
                ),
            ] + (if rows.len() == 0 {
                seq![label("no peers heard yet"@, 24, 268, Font::Small, BLACK)]
            } else {
                seq![]
            }) + column(
                if rows.len() <= 22 {
                    rows
                } else {
                    rows.take(22)
                },
                24,
                268,
                Font::Small,
                BLACK,
            )
        },
    }
}

/// An optional reference, as the value behind it.
pub open spec fn info_behind(info: Option<&MeshInfo>) -> Option<MeshInfo> {
    match info {
        Some(m) => Some(*m),
        None => None,
    }
}

/// Paints the info tab.
pub fn draw_info_tab(scene: &mut Scene, info: Option<&MeshInfo>)
    ensures
        final(scene)@ == old(scene)@ + info_picture(info_behind(info)),
{
    let ghost before = scene@;
    scene.fill(0, 136, 540, 574, WHITE);
    match info {
        None => {
            scene.text("mesh not running", 24, 158, Font::Body, BLACK);
        },
        Some(m) => {
            scene.text(m.identity.as_str(), 24, 158, Font::Body, BLACK);
            scene.text(m.timeline.as_str(), 24, 182, Font::Body, BLACK);
            scene.text(m.counters.as_str(), 24, 206, Font::Body, BLACK);
            scene.line(20, 222, 520, 222, BLACK, 1);
            scene.text("peer                  slot   dBm   heard", 24, 244, Font::Small, BLACK);
            if m.peers.len() == 0 {
                scene.text("no peers heard yet", 24, 268, Font::Small, BLACK);
            }
            let n: usize = if m.peers.len() <= INFO_ROWS {
                m.peers.len()
            } else {
                INFO_ROWS
            };
            scene.column(&m.peers, 0, n, 24, 268, Font::Small, BLACK);
            assert(texts(m.peers@).subrange(0, n as int) =~= if texts(m.peers@).len() <= 22 {
                texts(m.peers@)
            } else {
                texts(m.peers@).take(22)
            });
        },
    }
    assert(scene@ =~= before + info_picture(info_behind(info)));
}

/// The part of the panel that the info tab fills.
pub fn info_native_rect() -> (r: NativeRect)
    ensures
        r == native_of(0, 136, 540, 574),
{
    screen_to_native_rect(0, 136, 540, 574)
}

/// The whole page.
pub open spec fn screen_picture(
    tab: Tab,
    field: TextField,
    message: Seq<char>,
    status: Seq<char>,
    sent: Seq<Seq<char>>,
    received: Seq<Seq<char>>,
    scroll: int,
    info: Option<MeshInfo>,
) -> Picture {
    seq![Shape::BackButton] + tabs_picture(tab) + match tab {
        Tab::Info => info_picture(info),
        Tab::Send => field.picture(message) + status_picture(status) + list_picture(
            SENT_Y as int,
            "sent"@,
            sent,
        ) + keyboard_picture(field.symbols, field.shift, "SEND"@),
        Tab::Recv => log_picture(received, scroll, false),
    }
}

/// Paints the whole page.
pub fn draw_lora_screen(
    scene: &mut Scene,
    tab: Tab,
    field: &TextField,
    message: &str,
    status: &str,
    sent: &Vec<String>,
    received: &Vec<String>,
    scroll: usize,
    info: Option<&MeshInfo>,
)
    requires
        message_box(*field),
        tab == Tab::Send ==> field.can_show(message@),
        SENT_Y + 40 + 20 * sent@.len() <= i32::MAX,
    ensures
        final(scene)@ == old(scene)@ + screen_picture(
            tab,
            *field,
            message@,
            status@,
            texts(sent@),
            texts(received@),
            scroll as int,
            info_behind(info),
        ),
{
    let ghost before = scene@;
    scene.back_button();
    draw_tabs(scene, tab);
    match tab {
        Tab::Info => draw_info_tab(scene, info),
        Tab::Send => {
            draw_message(scene, field, message);
            draw_lora_status(scene, status);
            draw_list(scene, SENT_Y, "sent", sent);
            keyboard::draw(scene, field.symbols, field.shift, "SEND");
        },
        Tab::Recv => draw_recv_list(scene, received, scroll, false),
    }
    assert(scene@ =~= before + screen_picture(
        tab,
        *field,
        message@,
        status@,
        texts(sent@),
        texts(received@),
        scroll as int,
        info_behind(info),
    ));
}

/// The part of the panel that the message fills.
pub fn message_box_native_rect() -> (r: NativeRect)
    ensures
        r == native_of(30, 150, 480, 170),
{
    screen_to_native_rect(30, 150, 480, 170)
}

/// The part of the panel that the line under the message fills.
pub fn lora_status_native_rect() -> (r: NativeRect)
    ensures
        r == native_of(30, 322, 480, 44),
{
    screen_to_native_rect(30, 322, 480, 44)
}

/// The part of the panel that the list of sent messages fills.
pub fn sent_native_rect() -> (r: NativeRect)
    ensures
        r == native_of(30, 368, 480, 102),
{
    screen_to_native_rect(30, SENT_Y, 480, 102)
}

/// The part of the panel that the log fills.
pub fn recv_native_rect() -> (r: NativeRect)
    ensures
        r == native_of(0, 136, 540, 808),
{
    screen_to_native_rect(0, 136, 540, 808)
}

/// A message takes one or two rows, and none is wider than there is room for.
pub proof fn law_message_rows_fit(s: Seq<char>)
    ensures
        1 <= message_rows(s).len() <= 2,
        forall|i: int| 0 <= i < message_rows(s).len() ==> (#[trigger] message_rows(s)[i]).len()
            <= RECV_CHARS,
{
    reveal_strlit("  ");
}

/// A message of at most 138 characters is shown whole: its rows, without the
/// indent of the second, are the message.
pub proof fn law_short_messages_are_whole(s: Seq<char>)
    requires
        s.len() <= 138,
    ensures
        message_rows(s).len() == 1 ==> message_rows(s)[0] == s,
        message_rows(s).len() == 2 ==> message_rows(s)[0] + message_rows(s)[1].skip(2) == s,
{
    reveal_strlit("  ");
    if s.len() > 70 {
        let second = message_rows(s)[1];
        assert(second.skip(2) =~= s.skip(70));
        assert(s.take(70) + s.skip(70) =~= s);
    }
}

/// Scrolled as far as it goes, the log shows its oldest row last, and a full
/// page where it has one.
pub proof fn law_last_page_shows_the_oldest(entries: Seq<Seq<char>>)
    requires
        log_rows(entries).len() > 0,
    ensures
        ({
            let rows = log_rows(entries);
            let shown = visible_rows(rows, last_scroll(rows.len() as int));
            &&& shown.last() == rows.last()
            &&& shown.len() == if rows.len() <= 40 {
                rows.len()
            } else {
                40
            }
        }),
{
}

/// How the radio is tuned.
#[derive(Clone, Copy, Debug, PartialEq, Eq, Structural)]
pub enum SpreadingFactor {
    Sf7,
    Sf8,
    Sf9,
    Sf10,
    Sf11,
    Sf12,
}

/// The radio's bandwidth in kilohertz.
#[derive(Clone, Copy, Debug, PartialEq, Eq, Structural)]
pub enum Bandwidth {
    Bw125,
    Bw250,
    Bw500,
}

/// The radio's coding rate.
#[derive(Clone, Copy, Debug, PartialEq, Eq, Structural)]
pub enum CodingRate {
    Cr4_5,
    Cr4_6,
    Cr4_7,
    Cr4_8,
}

/// How the radio is set up.
#[derive(Clone, Copy, Debug, PartialEq, Eq, Structural)]
pub struct RadioConfig {
    pub spreading_factor: SpreadingFactor,
    pub bandwidth: Bandwidth,
    pub coding_rate: CodingRate,
    pub preamble_length: u16,
    pub tx_power_dbm: i8,
}

/// Sets the radio up as the mesh is tuned; what the radio does not know is the
/// lowest that it does.
pub fn make_radio(
    spreading_factor: u8,
    bandwidth_hz: u32,
    coding_rate_denominator: u8,
    preamble_symbols: u16,
) -> (r: RadioConfig)
    ensures
        r.spreading_factor == match spreading_factor {
            8 => SpreadingFactor::Sf8,
            9 => SpreadingFactor::Sf9,
            10 => SpreadingFactor::Sf10,
            11 => SpreadingFactor::Sf11,
            12 => SpreadingFactor::Sf12,
            _ => SpreadingFactor::Sf7,
        },
        r.bandwidth == match bandwidth_hz {
            250_000 => Bandwidth::Bw250,
            500_000 => Bandwidth::Bw500,
            _ => Bandwidth::Bw125,
        },
        r.coding_rate == match coding_rate_denominator {
            6 => CodingRate::Cr4_6,
            7 => CodingRate::Cr4_7,
            8 => CodingRate::Cr4_8,
            _ => CodingRate::Cr4_5,
        },
        r.preamble_length == preamble_symbols,
        r.tx_power_dbm == 22,
{
    RadioConfig {
        spreading_factor: match spreading_factor {
            8 => SpreadingFactor::Sf8,
            9 => SpreadingFactor::Sf9,
            10 => SpreadingFactor::Sf10,
            11 => SpreadingFactor::Sf11,
            12 => SpreadingFactor::Sf12,
            _ => SpreadingFactor::Sf7,
        },
        bandwidth: match bandwidth_hz {
            250_000 => Bandwidth::Bw250,
            500_000 => Bandwidth::Bw500,
            _ => Bandwidth::Bw125,
        },
        coding_rate: match coding_rate_denominator {
            6 => CodingRate::Cr4_6,
            7 => CodingRate::Cr4_7,
            8 => CodingRate::Cr4_8,
            _ => CodingRate::Cr4_5,
        },
        preamble_length: preamble_symbols,
        tx_power_dbm: 22,
    }
}

/// A message that is too long for a row goes on in a second one, indented by
/// two spaces: the first seventy characters, then the next sixty-eight. No
/// character in between is left out.
pub proof fn law_long_message_fills_two_rows(s: Seq<char>)
    ensures
        s.len() <= 70 ==> message_rows(s).len() == 1 && message_rows(s)[0] == s,
        s.len() > 70 ==> {
            let rows = message_rows(s);
            let end = if s.len() < 138 {
                s.len() as int
            } else {
                138
            };
            &&& rows.len() == 2
            &&& rows[0] == s.subrange(0, 70)
            &&& rows[1].take(2) == "  "@
            &&& rows[1].skip(2) == s.subrange(70, end)
        },
{
    reveal_strlit("  ");
    if s.len() > 70 {
        let end = if s.len() < 138 {
            s.len() as int
        } else {
            138
        };
        let tail = first_chars(s.skip(70), 68);
        assert(tail =~= s.subrange(70, end));
        assert(("  "@ + tail).take(2) =~= "  "@);
        assert(("  "@ + tail).skip(2) =~= tail);
    }
}

/// A message that comes takes the first rows of the log, and the rows of the
/// others follow it as they were; an empty log has no rows.
pub proof fn law_newest_message_is_on_top(entries: Seq<Seq<char>>, newest: Seq<char>)
    ensures
        log_rows(entries.push(newest)) == message_rows(newest) + log_rows(entries),
        log_rows(seq![]).len() == 0,
{
    assert(entries.push(newest).drop_last() =~= entries);
}

/// What is shown of the rows are forty of them from the place scrolled to on,
/// or all that are left; past the end, the last row.
pub proof fn law_rows_from_the_place_scrolled_to(rows: Seq<Seq<char>>, scroll: int)
    requires
        0 <= scroll,
        rows.len() > 0,
    ensures
        ({
            let shown = visible_rows(rows, scroll);
            let at = if scroll < rows.len() {
                scroll
            } else {
                rows.len() - 1
            };
            &&& shown.len() == if rows.len() - at < 40 {
                rows.len() - at
            } else {
                40
            }
            &&& forall|i: int| 0 <= i < shown.len() ==> #[trigger] shown[i] == rows[at + i]
        }),
{
}

/// The log shows its rows below one another, and beside them how far down the
/// last of them is and how many there are.
pub proof fn law_log_is_shown(entries: Seq<Seq<char>>, scroll: int, armed: bool)
    requires
        0 <= scroll < log_rows(entries).len(),
    ensures
        ({
            let rows = log_rows(entries);
            let left = rows.len() - scroll;
            let count = if left < 40 {
                left
            } else {
                40
            };
            let shown = log_picture(entries, scroll, armed);
            &&& shown.len() == count + 8
            &&& forall|i: int|
                0 <= i < count ==> #[trigger] shown[1 + i] == label(
                    rows[scroll + i],
                    24,
                    154 + 20 * i,
                    Font::Small,
                    BLACK,
                )
            &&& shown.last() == centered(
                dec(scroll + count) + "/"@ + dec(rows.len() as int),
                500,
                540,
                Font::Small,
                BLACK,
            )
            &&& shown[count + 6] == centered(
                if armed {
                    "SURE?"@
                } else {
                    "CLR"@
                },
                500,
                594,
                Font::Small,
                BLACK,
            )
        }),
{
    law_rows_from_the_place_scrolled_to(log_rows(entries), scroll);
}

/// A list of messages shows the latest first. Up to sixty-six characters are
/// shown whole; of a longer message its first sixty-six, with dots behind.
pub proof fn law_latest_is_listed_first(items: Seq<Seq<char>>, y: int, header: Seq<char>)
    ensures
        list_picture(y, header, items).len() == items.len() + 2,
        list_picture(y, header, items)[1] == label(header, 34, y + 16, Font::Body, BLACK),
        forall|i: int|
            0 <= i < items.len() ==> {
                let item = items[items.len() - 1 - i];
                #[trigger] list_picture(y, header, items)[2 + i] == label(
                    "> "@ + if item.len() <= 66 {
                        item
                    } else {
                        item.subrange(0, 66) + "..."@
                    },
                    40,
                    y + 40 + 20 * i,
                    Font::Small,
                    BLACK,
                )
            },
{
    assert forall|i: int| 0 <= i < items.len() implies {
        let item = items[items.len() - 1 - i];
        #[trigger] list_picture(y, header, items)[2 + i] == label(
            "> "@ + if item.len() <= 66 {
                item
            } else {
                item.subrange(0, 66) + "..."@
            },
            40,
            y + 40 + 20 * i,
            Font::Small,
            BLACK,
        )
    } by {
        let item = items[items.len() - 1 - i];
        assert("> "@ + item.take(66) + "..."@ =~= "> "@ + (item.take(66) + "..."@));
        assert(listed_rows(items)[i] == listed(item));
    }
}

/// A tab is touched exactly where it is painted: 150 by 48 pixels, from the
/// sixty-fourth row on, the tabs 165 pixels apart.
pub proof fn law_tabs_are_where_they_are_painted(tab: Tab, sx: int, sy: int)
    ensures
        tab_at(sx, sy) == Some(Tab::Info) <==> 30 <= sx < 180 && 64 <= sy < 112,
        tab_at(sx, sy) == Some(Tab::Send) <==> 195 <= sx < 345 && 64 <= sy < 112,
        tab_at(sx, sy) == Some(Tab::Recv) <==> 360 <= sx < 510 && 64 <= sy < 112,
        tabs_picture(tab).len() == 6,
        tabs_picture(tab)[0] == if tab == Tab::Info {
            filled(30, 64, 150, 48, BLACK)
        } else {
            framed(30, 64, 150, 48, WHITE, 2)
        },
        tabs_picture(tab)[2] == if tab == Tab::Send {
            filled(195, 64, 150, 48, BLACK)
        } else {
            framed(195, 64, 150, 48, WHITE, 2)
        },
        tabs_picture(tab)[4] == if tab == Tab::Recv {
            filled(360, 64, 150, 48, BLACK)
        } else {
            framed(360, 64, 150, 48, WHITE, 2)
        },
{
}

/// The state of the mesh is shown in three lines, and every peer, up to
/// twenty-two of them, in a row below, twenty pixels apart.
pub proof fn law_every_peer_is_shown(m: MeshInfo)
    requires
        m.peers@.len() > 0,
    ensures
        ({
            let shown = info_picture(Some(m));
            let count = if m.peers@.len() < 22 {
                m.peers@.len() as int
            } else {
                22
            };
            &&& shown.len() == 6 + count
            &&& shown[1] == label(m.identity@, 24, 158, Font::Body, BLACK)
            &&& shown[2] == label(m.timeline@, 24, 182, Font::Body, BLACK)
            &&& shown[3] == label(m.counters@, 24, 206, Font::Body, BLACK)
            &&& forall|i: int|
                0 <= i < count ==> #[trigger] shown[6 + i] == label(
                    m.peers@[i]@,
                    24,
                    268 + 20 * i,
                    Font::Small,
                    BLACK,
                )
        }),
{
}

/// The page shows the tabs and, below them, what belongs to the tab that is
/// open: the state of the mesh; the field, the status, what was sent and the
/// keyboard; or the log.
pub proof fn law_open_tab_is_shown(
    field: TextField,
    message: Seq<char>,
    status: Seq<char>,
    sent: Seq<Seq<char>>,
    received: Seq<Seq<char>>,
    scroll: int,
    info: Option<MeshInfo>,
)
    ensures
        screen_picture(Tab::Info, field, message, status, sent, received, scroll, info).skip(7)
            == info_picture(info),
        screen_picture(Tab::Send, field, message, status, sent, received, scroll, info).skip(7)
            == field.picture(message) + status_picture(status) + list_picture(
            SENT_Y as int,
            "sent"@,
            sent,
        ) + keyboard_picture(field.symbols, field.shift, "SEND"@),
        screen_picture(Tab::Recv, field, message, status, sent, received, scroll, info).skip(7)
            == log_picture(received, scroll, false),
        status_picture(status)[1] == centered(status, 270, 340, Font::Body, BLACK),
{
    let a = screen_picture(Tab::Info, field, message, status, sent, received, scroll, info);
    let b = screen_picture(Tab::Send, field, message, status, sent, received, scroll, info);
    let c = screen_picture(Tab::Recv, field, message, status, sent, received, scroll, info);
    assert(a.skip(7) =~= info_picture(info));
    assert(b.skip(7) =~= field.picture(message) + status_picture(status) + list_picture(
        SENT_Y as int,
        "sent"@,
        sent,
    ) + keyboard_picture(field.symbols, field.shift, "SEND"@));
    assert(c.skip(7) =~= log_picture(received, scroll, false));
}

/// Beside the log are a button up, a button down and one to delete it, where
/// touches of them land.
pub proof fn law_log_has_its_buttons(armed: bool)
    ensures
        log_controls(armed).len() == 6,
        log_controls(armed)[0] == framed(470, 140, 60, 100, WHITE, 2),
        log_controls(armed)[1] == centered("^"@, 500, 194, Font::Bold, BLACK),
        log_controls(armed)[2] == framed(470, 840, 60, 100, WHITE, 2),
        log_controls(armed)[3] == centered("v"@, 500, 894, Font::Bold, BLACK),
        log_controls(false)[4] == framed(470, 560, 60, 60, WHITE, 2),
        log_controls(true)[4] == framed(470, 560, 60, 60, 11, 2),
{
}

} // verus!
