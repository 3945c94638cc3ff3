//! A text box with the on-screen keyboard under it: what it shows, what a key
//! does to it, and when the panel is refreshed. A burst of keystrokes is shown
//! with the cheap waveform; the ghosting that it leaves is cleaned up once the
//! field has been idle for a while.
use vstd::prelude::*;
use vstd::string::*;
use vstd::utf8::*;

use crate::keyboard::{
    self, key_under, keyboard_picture, keys_of, Key, KeyCache,
};
use crate::layout::{native_of, screen_to_native_rect, NativeRect};
use crate::scene::{column, filled, framed, label, Font, Picture, Scene, BLACK, WHITE};
use crate::text::{
    self, char_bytes, char_len, chars_of, first_chars, lemma_byte_offset_step, lemma_encode_concat,
    string_of, take_chars,
};
use crate::wrap::{law_lines_lie_in_text, wrap_chars, wrapped, Line};

verus! {

/// How long a field must go untouched before the ghosting of a cheap refresh
/// is cleaned up, in microseconds.
pub const SETTLE_IDLE_US: u64 = 400_000;

/// How a field lays out its text.
#[derive(Clone, Copy, Debug, PartialEq, Eq, Structural)]
pub enum Wrap {
    /// Lines of a fixed number of characters, with an underscore at the end to mark
    /// where the next character goes.
    CharFill,
    /// Word wrap, showing the last lines that fit and a cursor bar behind
    /// them.
    WordScroll { visible_lines: usize },
    /// One line, cut to what fits.
    Truncate,
}

/// What Enter does in a field.
#[derive(Clone, Copy, Debug, PartialEq, Eq, Structural)]
pub enum EnterKey {
    /// It is left to the page.
    Submit,
    /// It breaks the line.
    Newline,
}

/// What a key did.
#[derive(Clone, Copy, Debug, PartialEq, Eq, Structural)]
pub enum FieldEvent {
    /// The text changed.
    Changed,
    /// Enter was pressed in a field that leaves it to the page.
    Submit,
    /// Nothing that the page need act on.
    Ignored,
}

/// A refresh of a part of the panel.
#[derive(Clone, Copy, Debug, PartialEq, Eq, Structural)]
pub enum Flush {
    /// With the ordinary waveform.
    Fast(NativeRect),
    /// With the cheap waveform, which leaves ghosting behind.
    Quick(NativeRect),
}

/// A text box.
pub struct TextField {
    pub x: i32,
    pub y: i32,
    pub w: i32,
    pub h: i32,
    pub wrap: Wrap,
    pub enter: EnterKey,
    pub placeholder: &'static str,
    pub enter_label: &'static str,
    /// Whether the keyboard shows symbols.
    pub symbols: bool,
    /// Whether the keyboard shows capitals.
    pub shift: bool,
    /// Whether the text changed since the panel was refreshed.
    pub dirty: bool,
    /// Whether the last refresh was a cheap one.
    pub quick_pending: bool,
    /// How many keystrokes changed the text in this pass.
    pub chars_this_pass: u32,
    /// When the text last changed.
    pub last_edit_us: u64,
}

/// The characters of a text from `start` on, in pieces of `per_line`.
pub open spec fn pieces(s: Seq<char>, start: int, per_line: int) -> Seq<Seq<char>>
    decreases s.len() - start,
{
    if start < 0 || start >= s.len() || per_line <= 0 {
        seq![]
    } else {
        let end = if start + per_line < s.len() {
            start + per_line
        } else {
            s.len() as int
        };
        seq![s.subrange(start, end)] + pieces(s, end, per_line)
    }
}

/// The texts of lines of `s`.
pub open spec fn line_texts(s: Seq<char>, lines: Seq<Line>) -> Seq<Seq<char>> {
    Seq::new(lines.len(), |i: int| s.subrange(lines[i].0, lines[i].1))
}

/// The last `n` lines.
pub open spec fn last_lines(lines: Seq<Line>, n: int) -> Seq<Line> {
    if lines.len() <= n {
        lines
    } else {
        lines.skip(lines.len() - n)
    }
}

/// The text after a key. A character that would make the text longer than
/// `max_len` bytes is not typed.
pub open spec fn edited(buf: Seq<char>, key: Key, enter: EnterKey, max_len: int) -> Seq<char> {
    let c = match key {
        Key::Char(c) => Some(c),
        Key::Space => Some(' '),
        Key::Enter => if enter == EnterKey::Newline {
            Some('\n')
        } else {
            None
        },
        _ => None,
    };
    match c {
        Some(c) => if encode_utf8(buf.push(c)).len() <= max_len {
            buf.push(c)
        } else {
            buf
        },
        None => if key == Key::Backspace && buf.len() > 0 {
            buf.drop_last()
        } else {
            buf
        },
    }
}

/// What a key does to a text, for the page.
pub open spec fn key_event(
    buf: Seq<char>,
    key: Key,
    enter: EnterKey,
    max_len: int,
) -> FieldEvent {
    if key == Key::Enter && enter == EnterKey::Submit {
        FieldEvent::Submit
    } else if edited(buf, key, enter, max_len) != buf {
        FieldEvent::Changed
    } else {
        FieldEvent::Ignored
    }
}

/// Whether a text with one more character has at most `max_len` bytes.
pub fn has_room(text: &str, c: char, max_len: usize) -> (r: bool)
    ensures
        r == (encode_utf8(text@.push(c)).len() <= max_len),
{
    proof {
        let after = text@.push(c);
        lemma_byte_offset_step(after, text@.len() as int);
        assert(after.take(text@.len() as int) =~= text@);
        assert(after.take(after.len() as int) =~= after);
    }
    let used: usize = text.as_bytes().len();
    used <= max_len && char_len(c) <= max_len - used
}

impl TextField {
    /// Characters that fit on a line.
    pub open spec fn cols(&self) -> int {
        (self.w - 24) / 9
    }

    /// The lines of a document, as far as they are shown.
    pub open spec fn shown_lines(&self, text: Seq<char>, visible: int) -> Seq<Line> {
        last_lines(wrapped(text, 0, self.cols()), visible)
    }

    /// Where the cursor bar of a document stands.
    pub open spec fn cursor(&self, text: Seq<char>, visible: int) -> (int, int) {
        let lines = self.shown_lines(text, visible);
        if lines.len() == 0 {
            (self.x + 12, self.y + 26)
        } else {
            (
                self.x + 12 + 9 * (lines.last().1 - lines.last().0),
                self.y + 26 + 20 * (lines.len() - 1),
            )
        }
    }

    /// The pieces that a message is cut into.
    pub open spec fn message_pieces(&self, text: Seq<char>) -> Seq<Seq<char>> {
        pieces(text.push('_'), 0, self.cols())
    }

    /// What the text looks like.
    pub open spec fn text_picture(&self, text: Seq<char>) -> Picture {
        match self.wrap {
            Wrap::CharFill => (if text.len() == 0 && self.placeholder@.len() > 0 {
                seq![
                    label(
                        seq![' '] + self.placeholder@,
                        self.x + 21,
                        self.y + 28,
                        Font::Body,
                        9,
                    ),
                ]
            } else {
                seq![]
            }) + column(
                self.message_pieces(text),
                self.x + 12,
                self.y + 28,
                Font::Body,
                BLACK,
            ),
            Wrap::WordScroll { visible_lines } => {
                let lines = self.shown_lines(text, visible_lines as int);
                let at = self.cursor(text, visible_lines as int);
                column(line_texts(text, lines), self.x + 12, self.y + 26, Font::Body, BLACK) + seq![
                    filled(at.0 + 1, at.1 - 12, 2, 15, BLACK),
                ] + if text.len() == 0 && self.placeholder@.len() > 0 {
                    seq![label(self.placeholder@, at.0 + 8, at.1, Font::Body, 4)]
                } else {
                    seq![]
                }
            },
            Wrap::Truncate => seq![
                label(
                    first_chars(
                        text,
                        if self.cols() < 1 {
                            1
                        } else {
                            self.cols()
                        },
                    ),
                    self.x + 12,
                    self.y + self.h / 2 + 6,
                    Font::Body,
                    BLACK,
                ),
            ],
        }
    }

    /// What the field looks like.
    pub open spec fn picture(&self, text: Seq<char>) -> Picture {
        seq![framed(self.x as int, self.y as int, self.w as int, self.h as int, WHITE, 2)]
            + self.text_picture(text)
    }

    /// Whether the field can show a text: its box has room for the padding,
    /// no coordinate leaves the numbers that there are, and, where a message
    /// fills it, a line has room for a character.
    pub open spec fn can_show(&self, text: Seq<char>) -> bool {
        &&& self.w >= 24
        &&& self.h >= 0
        &&& i32::MIN + 12 <= self.y
        &&& match self.wrap {
            Wrap::CharFill => {
                let lines = self.message_pieces(text);
                &&& self.w >= 33
                &&& self.x + 21 <= i32::MAX
                &&& self.y + 28 + 20 * lines.len() <= i32::MAX
            },
            Wrap::WordScroll { visible_lines } => {
                &&& self.y + 26 + 20 * self.shown_lines(text, visible_lines as int).len()
                    <= i32::MAX
                &&& 9 * text.len() <= i32::MAX
                &&& self.x + 20 + 9 * text.len() <= i32::MAX
            },
            Wrap::Truncate => {
                &&& self.x + 12 <= i32::MAX
                &&& self.y + self.h / 2 + 6 <= i32::MAX
            },
        }
    }

    /// The part of the panel that the field fills.
    pub open spec fn native(&self) -> NativeRect {
        native_of(self.x as int, self.y as int, self.w as int, self.h as int)
    }

    /// Whether the field lies where the panel can be asked to refresh it.
    pub open spec fn placed(&self) -> bool {
        &&& i32::MIN <= 540 - self.x <= i32::MAX
        &&& i32::MIN <= 540 - self.x - self.w <= i32::MAX
    }

    /// A field with the letters of the keyboard up and nothing to refresh.
    pub fn new(
        x: i32,
        y: i32,
        w: i32,
        h: i32,
        wrap: Wrap,
        enter: EnterKey,
        placeholder: &'static str,
        enter_label: &'static str,
    ) -> (r: Self)
        ensures
            r == (TextField {
                x,
                y,
                w,
                h,
                wrap,
                enter,
                placeholder,
                enter_label,
                symbols: false,
                shift: false,
                dirty: false,
                quick_pending: false,
                chars_this_pass: 0,
                last_edit_us: 0,
            }),
    {
        TextField {
            x,
            y,
            w,
            h,
            wrap,
            enter,
            placeholder,
            enter_label,
            symbols: false,
            shift: false,
            dirty: false,
            quick_pending: false,
            chars_this_pass: 0,
            last_edit_us: 0,
        }
    }

    /// Brings the small letters of the keyboard up again.
    pub fn reset_keyboard(&mut self)
        ensures
            *final(self) == (TextField { symbols: false, shift: false, ..*old(self) }),
    {
        self.symbols = false;
        self.shift = false;
    }

    /// The part of the panel that the field fills.
    pub fn native_rect(&self) -> (r: NativeRect)
        requires
            self.placed(),
        ensures
            r == self.native(),
    {
        screen_to_native_rect(self.x, self.y, self.w, self.h)
    }

    /// The key that a point lies on.
    pub fn hit_key(&self, cache: &mut KeyCache, sx: i32, sy: i32) -> (r: Option<Key>)
        requires
            old(cache).well_formed(),
        ensures
            final(cache).well_formed(),
            r == key_under(keys_of(self.symbols, self.shift), sx as int, sy as int),
    {
        cache.hit(sx, sy, self.symbols, self.shift)
    }

    /// Paints the box and its text.
    pub fn draw(&self, scene: &mut Scene, text: &str)
        requires
            self.can_show(text@),
        ensures
            final(scene)@ == old(scene)@ + self.picture(text@),
    {
        let ghost start = scene@;
        scene.frame(self.x, self.y, self.w as u32, self.h as u32, WHITE, 2);
        match self.wrap {
            Wrap::CharFill => self.draw_char_fill(scene, text),
            Wrap::WordScroll { visible_lines } => self.draw_word_scroll(
                scene,
                text,
                visible_lines,
            ),
            Wrap::Truncate => self.draw_truncate(scene, text),
        }
        assert(scene@ =~= start + self.picture(text@));
    }

    /// Paints the box, its text and the keyboard.
    pub fn draw_full(&self, scene: &mut Scene, text: &str)
        requires
            self.can_show(text@),
        ensures
            final(scene)@ == old(scene)@ + self.picture(text@) + keyboard_picture(
                self.symbols,
                self.shift,
                self.enter_label@,
            ),
    {
        self.draw(scene, text);
        keyboard::draw(scene, self.symbols, self.shift, self.enter_label);
    }

    /// Paints a message: lines of a fixed number of characters, and a hint behind
    /// the cursor while there is no text.
    fn draw_char_fill(&self, scene: &mut Scene, text: &str)
        requires
            self.can_show(text@),
            self.wrap == Wrap::CharFill,
        ensures
            final(scene)@ == old(scene)@ + self.text_picture(text@),
    {
        let x: i32 = self.x + 12;
        let y: i32 = self.y + 28;
        let ghost start_scene = scene@;
        if text.is_empty() && !self.placeholder.is_empty() {
            let mut hint: String = String::new();
            hint.push(' ');
            hint.append(self.placeholder);
            assert(hint@ =~= seq![' '] + self.placeholder@);
            scene.text(hint.as_str(), x + 9, y, Font::Body, 9);
        }
        let ghost hinted = scene@;
        let mut shown: String = text::own(text);
        shown.push('_');
        let chars: Vec<char> = chars_of(shown.as_str());
        let per_line: usize = ((self.w - 24) / 9) as usize;
        let total: usize = chars.len();
        let mut start: usize = 0;
        let ghost whole = self.message_pieces(text@);
        let ghost lines = column(whole, x as int, y as int, Font::Body, BLACK);
        let ghost mut done: int = 0;
        let mut row: i32 = y;
        assert(whole.skip(0) =~= whole);
        while start < total
            invariant
                self.can_show(text@),
                self.wrap == Wrap::CharFill,
                per_line == self.cols(),
                per_line > 0,
                total == chars@.len(),
                chars@ == text@.push('_'),
                start <= total,
                whole == self.message_pieces(text@),
                lines == column(whole, x as int, y as int, Font::Body, BLACK),
                0 <= done <= whole.len(),
                whole.skip(done) == pieces(chars@, start as int, per_line as int),
                y == self.y + 28,
                row == y + 20 * done,
                scene@ == hinted + lines.take(done),
            decreases total - start,
        {
            let end: usize = if total - start <= per_line {
                total
            } else {
                start + per_line
            };
            let ghost rest = pieces(chars@, start as int, per_line as int);
            let piece: String = string_of(chars.as_slice(), start, end);
            proof {
                assert(rest[0] == piece@);
                assert(whole.skip(done).len() == whole.len() - done);
                assert(whole[done] == whole.skip(done)[0]);
                assert(whole.skip(done + 1) =~= rest.skip(1));
                assert(rest.skip(1) =~= pieces(chars@, end as int, per_line as int));
                assert(lines[done] == label(piece@, x as int, row as int, Font::Body, BLACK));
                assert(lines.take(done + 1) =~= lines.take(done).push(lines[done]));
                done = done + 1;
            }
            scene.text(piece.as_str(), x, row, Font::Body, BLACK);
            row = row + 20;
            start = end;
        }
        assert(lines.take(lines.len() as int) =~= lines);
        assert(scene@ =~= start_scene + self.text_picture(text@));
    }

    /// Paints a document: its last lines and the cursor bar behind them, and a
    /// hint while there is no text.
    fn draw_word_scroll(&self, scene: &mut Scene, text: &str, visible_lines: usize)
        requires
            self.can_show(text@),
            self.wrap == (Wrap::WordScroll { visible_lines }),
        ensures
            final(scene)@ == old(scene)@ + self.text_picture(text@),
    {
        let ghost start_scene = scene@;
        let cols: usize = ((self.w - 24) / 9) as usize;
        let chars: Vec<char> = chars_of(text);
        let lines: Vec<(usize, usize)> = wrap_chars(chars.as_slice(), cols);
        let ghost as_line = |l: (usize, usize)| (l.0 as int, l.1 as int);
        let ghost whole = wrapped(text@, 0, self.cols());
        assert(lines@.map_values(as_line) == whole);
        let first: usize = if lines.len() > visible_lines {
            lines.len() - visible_lines
        } else {
            0
        };
        let ghost shown = self.shown_lines(text@, visible_lines as int);
        assert(shown =~= whole.skip(first as int));
        proof {
            law_lines_lie_in_text(text@, 0, self.cols());
        }
        let x: i32 = self.x + 12;
        let top: i32 = self.y + 26;
        let ghost rows = column(line_texts(text@, shown), x as int, top as int, Font::Body, BLACK);
        let mut y: i32 = top;
        let mut cursor_x: i32 = x;
        let mut cursor_y: i32 = top;
        let mut i: usize = first;
        while i < lines.len()
            invariant
                self.can_show(text@),
                self.wrap == (Wrap::WordScroll { visible_lines }),
                chars@ == text@,
                first <= i <= lines@.len(),
                as_line == (|l: (usize, usize)| (l.0 as int, l.1 as int)),
                lines@.map_values(as_line) == whole,
                shown == whole.skip(first as int),
                shown == self.shown_lines(text@, visible_lines as int),
                forall|k: int|
                    0 <= k < whole.len() ==> 0 <= (#[trigger] whole[k]).0 <= whole[k].1
                        <= text@.len(),
                rows == column(line_texts(text@, shown), x as int, top as int, Font::Body, BLACK),
                x == self.x + 12,
                top == self.y + 26,
                y == top + 20 * (i - first),
                i == first ==> cursor_x == x && cursor_y == top,
                i > first ==> cursor_x == x + 9 * (whole[i - 1].1 - whole[i - 1].0) && cursor_y
                    == top + 20 * (i - 1 - first),
                scene@ == start_scene + rows.take(i - first),
            decreases lines@.len() - i,
        {
            let line: (usize, usize) = lines[i];
            proof {
                assert(lines@.map_values(as_line)[i as int] == whole[i as int]);
                assert(shown[i - first] == whole[i as int]);
            }
            let piece: String = string_of(chars.as_slice(), line.0, line.1);
            proof {
                assert(line_texts(text@, shown)[i - first] == piece@);
                assert(rows[i - first] == label(piece@, x as int, y as int, Font::Body, BLACK));
                assert(rows.take(i - first + 1) =~= rows.take(i - first).push(rows[i - first]));
            }
            scene.text(piece.as_str(), x, y, Font::Body, BLACK);
            cursor_x = x + (line.1 - line.0) as i32 * 9;
            cursor_y = y;
            y = y + 20;
            i = i + 1;
        }
        proof {
            assert(rows.take(rows.len() as int) =~= rows);
            assert(whole.len() == lines@.len());
            if shown.len() > 0 {
                assert(shown.last() == whole[lines@.len() - 1]);
                assert(whole[lines@.len() - 1].1 <= text@.len());
            }
            assert((cursor_x as int, cursor_y as int) == self.cursor(
                text@,
                visible_lines as int,
            ));
        }
        scene.fill(cursor_x + 1, cursor_y - 12, 2, 15, BLACK);
        if text.is_empty() && !self.placeholder.is_empty() {
            scene.text(self.placeholder, cursor_x + 8, cursor_y, Font::Body, 4);
        }
        assert(scene@ =~= start_scene + self.text_picture(text@));
    }

    /// Paints one line, cut to what fits.
    fn draw_truncate(&self, scene: &mut Scene, text: &str)
        requires
            self.can_show(text@),
            self.wrap == Wrap::Truncate,
        ensures
            final(scene)@ == old(scene)@ + self.text_picture(text@),
    {
        let room: usize = ((self.w - 24) / 9) as usize;
        let cols: usize = if room < 1 {
            1
        } else {
            room
        };
        let shown: String = take_chars(text, cols);
        scene.text(shown.as_str(), self.x + 12, self.y + self.h / 2 + 6, Font::Body, BLACK);
    }

    /// Notes that the text changed.
    fn mark_dirty(&mut self, now_us: u64)
        requires
            old(self).chars_this_pass < u32::MAX,
        ensures
            *final(self) == (TextField {
                dirty: true,
                chars_this_pass: (old(self).chars_this_pass + 1) as u32,
                last_edit_us: now_us,
                ..*old(self)
            }),
    {
        self.dirty = true;
        self.chars_this_pass = self.chars_this_pass + 1;
        self.last_edit_us = now_us;
    }

    /// The field after a change of its text.
    pub open spec fn touched(self, now_us: u64) -> TextField {
        TextField {
            dirty: true,
            chars_this_pass: (self.chars_this_pass + 1) as u32,
            last_edit_us: now_us,
            ..self
        }
    }

    /// Types one character, unless the text would have more than `max_len`
    /// bytes.
    fn push(
        &mut self,
        scene: &mut Scene,
        buf: &mut String,
        c: char,
        max_len: usize,
        now_us: u64,
    ) -> (r: FieldEvent)
        requires
            old(self).chars_this_pass < u32::MAX,
            encode_utf8(old(buf)@.push(c)).len() <= max_len ==> old(self).can_show(
                old(buf)@.push(c),
            ),
        ensures
            ({
                let room = encode_utf8(old(buf)@.push(c)).len() <= max_len;
                &&& r == if room {
                    FieldEvent::Changed
                } else {
                    FieldEvent::Ignored
                }
                &&& final(buf)@ == if room {
                    old(buf)@.push(c)
                } else {
                    old(buf)@
                }
                &&& *final(self) == if room {
                    old(self).touched(now_us)
                } else {
                    *old(self)
                }
                &&& final(scene)@ == old(scene)@ + if room {
                    old(self).picture(old(buf)@.push(c))
                } else {
                    seq![]
                }
            }),
    {
        if !has_room(buf.as_str(), c, max_len) {
            return FieldEvent::Ignored;
        }
        buf.push(c);
        self.draw(scene, buf.as_str());
        self.mark_dirty(now_us);
        FieldEvent::Changed
    }

    /// Acts on a key. A change of the text is painted, and the refresh of the
    /// panel waits for the end of the pass; a change of the keyboard is
    /// painted and the refresh of it returned.
    pub fn handle_key(
        &mut self,
        scene: &mut Scene,
        buf: &mut String,
        key: Key,
        max_len: usize,
        now_us: u64,
    ) -> (r: (FieldEvent, Option<Flush>))
        requires
            old(self).chars_this_pass < u32::MAX,
            ({
                let after = edited(old(buf)@, key, old(self).enter, max_len as int);
                after != old(buf)@ ==> old(self).can_show(after)
            }),
        ensures
            r.0 == key_event(old(buf)@, key, old(self).enter, max_len as int),
            final(buf)@ == edited(old(buf)@, key, old(self).enter, max_len as int),
            *final(self) == match key {
                Key::Shift => TextField { shift: !old(self).shift, ..*old(self) },
                Key::Symbols => TextField { symbols: !old(self).symbols, ..*old(self) },
                _ => if final(buf)@ != old(buf)@ {
                    old(self).touched(now_us)
                } else {
                    *old(self)
                },
            },
            final(scene)@ == old(scene)@ + if key == Key::Shift || key == Key::Symbols {
                keyboard_picture(
                    final(self).symbols,
                    final(self).shift,
                    final(self).enter_label@,
                )
            } else if final(buf)@ != old(buf)@ {
                old(self).picture(final(buf)@)
            } else {
                seq![]
            },
            r.1 == if key == Key::Shift || key == Key::Symbols {
                Some(Flush::Fast(native_of(0, 594, 540, 356)))
            } else {
                None
            },
    {
        proof {
            // A longer and a shorter text are other texts.
            let b = buf@;
            assert(forall|c: char| #[trigger] b.push(c) != b) by {
                assert(forall|c: char| #[trigger] b.push(c).len() == b.len() + 1);
            }
            if b.len() > 0 {
                assert(b.drop_last().len() != b.len());
            }
        }
        match key {
            Key::Shift => {
                self.shift = !self.shift;
                let f: Flush = self.flush_keyboard(scene);
                (FieldEvent::Ignored, Some(f))
            },
            Key::Symbols => {
                self.symbols = !self.symbols;
                let f: Flush = self.flush_keyboard(scene);
                (FieldEvent::Ignored, Some(f))
            },
            Key::Enter => match self.enter {
                EnterKey::Submit => (FieldEvent::Submit, None),
                EnterKey::Newline => {
                    let e: FieldEvent = self.push(scene, buf, '\n', max_len, now_us);
                    (e, None)
                },
            },
            Key::Char(c) => {
                let e: FieldEvent = self.push(scene, buf, c, max_len, now_us);
                (e, None)
            },
            Key::Space => {
                let e: FieldEvent = self.push(scene, buf, ' ', max_len, now_us);
                (e, None)
            },
            Key::Backspace => {
                if buf.pop().is_some() {
                    self.draw(scene, buf.as_str());
                    self.mark_dirty(now_us);
                    (FieldEvent::Changed, None)
                } else {
                    (FieldEvent::Ignored, None)
                }
            },
        }
    }

    /// Paints the keyboard and says how it is refreshed.
    fn flush_keyboard(&self, scene: &mut Scene) -> (r: Flush)
        ensures
            final(scene)@ == old(scene)@ + keyboard_picture(
                self.symbols,
                self.shift,
                self.enter_label@,
            ),
            r == Flush::Fast(native_of(0, 594, 540, 356)),
    {
        keyboard::draw(scene, self.symbols, self.shift, self.enter_label);
        Flush::Fast(keyboard::native_rect())
    }

    /// Whether the ghosting of a cheap refresh is due to be cleaned up.
    pub open spec fn settled(&self, now_us: u64) -> bool {
        !self.dirty && self.quick_pending && now_us - self.last_edit_us > SETTLE_IDLE_US
    }

    /// What of the panel is refreshed at the end of a pass.
    pub open spec fn refresh_due(&self, now_us: u64) -> Option<Flush> {
        if self.dirty {
            if self.chars_this_pass > 1 {
                Some(Flush::Quick(self.native()))
            } else {
                Some(Flush::Fast(self.native()))
            }
        } else if self.settled(now_us) {
            Some(Flush::Fast(self.native()))
        } else {
            None
        }
    }

    /// What is painted at the end of a pass: the text once more, where the
    /// ghosting of a cheap refresh is cleaned up.
    pub open spec fn settling(&self, text: Seq<char>, now_us: u64) -> Picture {
        if self.settled(now_us) {
            self.picture(text)
        } else {
            seq![]
        }
    }

    /// The field after the end of a pass.
    pub open spec fn passed(self, now_us: u64) -> TextField {
        TextField {
            dirty: false,
            quick_pending: if self.dirty {
                self.chars_this_pass > 1
            } else {
                self.quick_pending && !self.settled(now_us)
            },
            chars_this_pass: 0,
            ..self
        }
    }

    /// Ends a pass over the touches that were waiting. What the pass changed
    /// is refreshed, with the cheap waveform if there was more than one
    /// keystroke; else the ghosting of a cheap refresh is cleaned up once the
    /// field has been idle long enough.
    pub fn end_pass(&mut self, scene: &mut Scene, buf: &str, now_us: u64) -> (r: Option<Flush>)
        requires
            old(self).placed(),
            old(self).settled(now_us) ==> old(self).can_show(buf@),
        ensures
            r == old(self).refresh_due(now_us),
            final(scene)@ == old(scene)@ + old(self).settling(buf@, now_us),
            *final(self) == old(self).passed(now_us),
    {
        let mut flush: Option<Flush> = None;
        let idle: u64 = if now_us >= self.last_edit_us {
            now_us - self.last_edit_us
        } else {
            0
        };
        if self.dirty {
            if self.chars_this_pass > 1 {
                flush = Some(Flush::Quick(self.native_rect()));
                self.quick_pending = true;
            } else {
                flush = Some(Flush::Fast(self.native_rect()));
                self.quick_pending = false;
            }
            self.dirty = false;
        } else if self.quick_pending && idle > SETTLE_IDLE_US {
            self.draw(scene, buf);
            flush = Some(Flush::Fast(self.native_rect()));
            self.quick_pending = false;
        }
        self.chars_this_pass = 0;
        flush
    }

    /// Refreshes a change right away: the screen is being left, so no pass
    /// will end for it.
    pub fn flush_pending(&mut self) -> (r: Option<Flush>)
        requires
            old(self).placed(),
        ensures
            r == if old(self).dirty {
                Some(Flush::Fast(old(self).native()))
            } else {
                None
            },
            *final(self) == if old(self).dirty {
                TextField { dirty: false, quick_pending: false, ..*old(self) }
            } else {
                *old(self)
            },
    {
        if self.dirty {
            let f: Flush = Flush::Fast(self.native_rect());
            self.dirty = false;
            self.quick_pending = false;
            Some(f)
        } else {
            None
        }
    }

    /// Drops a change without refreshing it: the whole page is about to be
    /// painted.
    pub fn clear_pending(&mut self)
        ensures
            *final(self) == (TextField { dirty: false, quick_pending: false, ..*old(self) }),
    {
        self.dirty = false;
        self.quick_pending = false;
    }
}

/// Deleting takes back the character that was typed last, where there was room
/// for it.
pub proof fn law_backspace_undoes_typing(
    buf: Seq<char>,
    c: char,
    enter: EnterKey,
    max_len: int,
)
    ensures
        encode_utf8(buf.push(c)).len() <= max_len ==> edited(
            edited(buf, Key::Char(c), enter, max_len),
            Key::Backspace,
            enter,
            max_len,
        ) == buf,
        encode_utf8(buf.push(' ')).len() <= max_len ==> edited(
            edited(buf, Key::Space, enter, max_len),
            Key::Backspace,
            enter,
            max_len,
        ) == buf,
{
    assert(buf.push(c).drop_last() =~= buf);
    assert(buf.push(' ').drop_last() =~= buf);
}

/// A key types at the end of the text and nowhere else. Where there is room for
/// its bytes, a character comes to stand behind the text, whatever the text is:
/// the character of the key, a space for the space bar, a line break for Enter
/// in a field where Enter breaks the line. Where there is none, the text stays
/// as it is. Deleting then gives back the text as it was.
pub proof fn law_typing_appends(
    buf: Seq<char>,
    key: Key,
    c: char,
    enter: EnterKey,
    max_len: int,
)
    requires
        ({
            ||| key == Key::Char(c)
            ||| key == Key::Space && c == ' '
            ||| key == Key::Enter && enter == EnterKey::Newline && c == '\n'
        }),
    ensures
        ({
            let after = edited(buf, key, enter, max_len);
            let fits = encode_utf8(buf).len() + char_bytes(c) <= max_len;
            &&& fits ==> {
                &&& after.len() == buf.len() + 1
                &&& after.last() == c
                &&& forall|i: int| 0 <= i < buf.len() ==> #[trigger] after[i] == buf[i]
                &&& edited(after, Key::Backspace, enter, max_len) == buf
                &&& key_event(buf, key, enter, max_len) == FieldEvent::Changed
            }
            &&& !fits ==> after == buf && key_event(buf, key, enter, max_len)
                == FieldEvent::Ignored
        }),
        char_bytes(' ') == 1,
        char_bytes('\n') == 1,
{
    let grown = buf.push(c);
    lemma_byte_offset_step(grown, buf.len() as int);
    assert(grown.take(buf.len() as int) =~= buf);
    assert(grown.take(grown.len() as int) =~= grown);
    assert(grown.drop_last() =~= buf);
    assert(grown.len() != buf.len());
}

/// The keys that type nothing: deleting takes off the last character alone and
/// leaves an empty text empty; Enter in a field that it submits, and the keys
/// that change the keyboard, leave the text alone.
pub proof fn law_other_keys_type_nothing(buf: Seq<char>, enter: EnterKey, max_len: int)
    ensures
        buf.len() > 0 ==> edited(buf, Key::Backspace, enter, max_len) == buf.take(buf.len() - 1)
            && key_event(buf, Key::Backspace, enter, max_len) == FieldEvent::Changed,
        buf.len() == 0 ==> edited(buf, Key::Backspace, enter, max_len) == buf && key_event(
            buf,
            Key::Backspace,
            enter,
            max_len,
        ) == FieldEvent::Ignored,
        edited(buf, Key::Enter, EnterKey::Submit, max_len) == buf,
        key_event(buf, Key::Enter, EnterKey::Submit, max_len) == FieldEvent::Submit,
        edited(buf, Key::Shift, enter, max_len) == buf,
        edited(buf, Key::Symbols, enter, max_len) == buf,
        key_event(buf, Key::Shift, enter, max_len) == FieldEvent::Ignored,
        key_event(buf, Key::Symbols, enter, max_len) == FieldEvent::Ignored,
{
    if buf.len() > 0 {
        assert(buf.drop_last() =~= buf.take(buf.len() - 1));
        assert(buf.drop_last().len() != buf.len());
    }
}

/// A text within its limit stays within it, whatever is typed.
pub proof fn law_text_stays_within_limit(
    buf: Seq<char>,
    key: Key,
    enter: EnterKey,
    max_len: int,
)
    requires
        encode_utf8(buf).len() <= max_len,
    ensures
        encode_utf8(edited(buf, key, enter, max_len)).len() <= max_len,
{
    let after = edited(buf, key, enter, max_len);
    if after.len() < buf.len() {
        let one = seq![buf.last()];
        assert(buf =~= after + one);
        lemma_encode_concat(after, one);
    }
}

/// Every character of the keyboard is one byte long.
pub proof fn law_keys_type_one_byte(symbols: bool, shift: bool, i: int)
    requires
        0 <= i < keys_of(symbols, shift).len(),
    ensures
        keys_of(symbols, shift)[i].key matches Key::Char(c) ==> (c as u32) < 0x80,
{
    keyboard::lemma_row_lengths();
    reveal_strlit("qwertyuiop");
    reveal_strlit("asdfghjkl");
    reveal_strlit("zxcvbnm");
    reveal_strlit("1234567890");
    reveal_strlit("@#$&-+()/");
    reveal_strlit("*\"':;!?,");
}

/// A message is cut into no more lines than it has characters.
proof fn lemma_pieces_len(s: Seq<char>, start: int, per_line: int)
    requires
        0 <= start <= s.len(),
        per_line > 0,
    ensures
        pieces(s, start, per_line).len() <= s.len() - start,
    decreases s.len() - start,
{
    if start < s.len() {
        let end = if start + per_line < s.len() {
            start + per_line
        } else {
            s.len() as int
        };
        lemma_pieces_len(s, end, per_line);
    }
}

/// No line of a message is longer than what fits, and none is empty.
pub proof fn law_message_lines_fit(s: Seq<char>, start: int, per_line: int, i: int)
    requires
        0 <= start,
        per_line > 0,
        0 <= i < pieces(s, start, per_line).len(),
    ensures
        1 <= pieces(s, start, per_line)[i].len() <= per_line,
    decreases s.len() - start,
{
    let end = if start + per_line < s.len() {
        start + per_line
    } else {
        s.len() as int
    };
    if i > 0 {
        law_message_lines_fit(s, end, per_line, i - 1);
        assert(pieces(s, start, per_line)[i] == pieces(s, end, per_line)[i - 1]);
    }
}

/// The lines of a message, one after the other.
pub open spec fn joined(lines: Seq<Seq<char>>) -> Seq<char>
    decreases lines.len(),
{
    if lines.len() == 0 {
        seq![]
    } else {
        lines[0] + joined(lines.drop_first())
    }
}

/// The lines of a message are the message: nothing of it is lost.
pub proof fn law_message_is_shown_whole(s: Seq<char>, start: int, per_line: int)
    requires
        0 <= start <= s.len(),
        per_line > 0,
    ensures
        joined(pieces(s, start, per_line)) == s.skip(start),
    decreases s.len() - start,
{
    let all = pieces(s, start, per_line);
    if start < s.len() {
        let end = if start + per_line < s.len() {
            start + per_line
        } else {
            s.len() as int
        };
        law_message_is_shown_whole(s, end, per_line);
        assert(all.drop_first() =~= pieces(s, end, per_line));
        assert(s.subrange(start, end) + s.skip(end) =~= s.skip(start));
    } else {
        assert(s.skip(start) =~= seq![]);
    }
}

/// Any message can be shown, wherever its box lies and as long as its lines
/// have coordinates.
pub proof fn law_message_can_be_shown(field: TextField, text: Seq<char>)
    requires
        field.wrap == Wrap::CharFill,
        field.w >= 33,
        field.h >= 0,
        i32::MIN + 12 <= field.y,
        field.x + 21 <= i32::MAX,
        field.y + 28 + 20 * (text.len() + 1) <= i32::MAX,
    ensures
        field.can_show(text),
{
    lemma_pieces_len(text.push('_'), 0, field.cols());
}

/// Every line of a message but the last is full, and each begins where the one
/// above it ends.
pub proof fn law_message_lines_are_filled(s: Seq<char>, per_line: int, i: int)
    requires
        per_line > 0,
        0 <= i < pieces(s, 0, per_line).len(),
    ensures
        0 <= i * per_line < s.len(),
        pieces(s, 0, per_line)[i] == s.subrange(
            i * per_line,
            if (i + 1) * per_line < s.len() {
                (i + 1) * per_line
            } else {
                s.len() as int
            },
        ),
{
    lemma_piece(s, 0, per_line, i);
    assert(0 + i * per_line == i * per_line);
    assert((i + 1) * per_line == i * per_line + per_line) by (nonlinear_arith);
}

/// Where a line of a message stands in it.
proof fn lemma_piece(s: Seq<char>, start: int, per_line: int, i: int)
    requires
        per_line > 0,
        0 <= start,
        0 <= i < pieces(s, start, per_line).len(),
    ensures
        start <= start + i * per_line < s.len(),
        pieces(s, start, per_line)[i] == s.subrange(
            start + i * per_line,
            if start + i * per_line + per_line < s.len() {
                start + i * per_line + per_line
            } else {
                s.len() as int
            },
        ),
    decreases i,
{
    let end = if start + per_line < s.len() {
        start + per_line
    } else {
        s.len() as int
    };
    if i == 0 {
        assert(0 * per_line == 0);
    } else {
        lemma_piece(s, end, per_line, i - 1);
        assert(pieces(s, start, per_line)[i] == pieces(s, end, per_line)[i - 1]);
        assert(i * per_line == (i - 1) * per_line + per_line) by (nonlinear_arith);
        assert((i - 1) * per_line >= 0) by (nonlinear_arith)
            requires
                i >= 1,
                per_line > 0,
        ;
    }
}

/// A field for a message shows all of it, an underscore behind it, in lines of
/// as many characters as fit, twenty pixels apart; an empty one shows its
/// placeholder too.
pub proof fn law_message_is_shown(f: TextField, text: Seq<char>)
    requires
        f.wrap == Wrap::CharFill,
    ensures
        ({
            let lines = pieces(text.push('_'), 0, (f.w - 24) / 9);
            let hint = text.len() == 0 && f.placeholder@.len() > 0;
            let from = if hint {
                2int
            } else {
                1
            };
            let shown = f.picture(text);
            &&& shown.len() == from + lines.len()
            &&& shown[0] == framed(f.x as int, f.y as int, f.w as int, f.h as int, WHITE, 2)
            &&& hint ==> shown[1] == label(
                seq![' '] + f.placeholder@,
                f.x + 21,
                f.y + 28,
                Font::Body,
                9,
            )
            &&& forall|k: int|
                0 <= k < lines.len() ==> #[trigger] shown[from + k] == label(
                    lines[k],
                    f.x + 12,
                    f.y + 28 + 20 * k,
                    Font::Body,
                    BLACK,
                )
        }),
{
}

/// An editor shows the last lines of its text, as many as fit, twenty pixels
/// apart, and the cursor behind the last character.
pub proof fn law_end_of_text_is_shown(f: TextField, text: Seq<char>, visible: usize)
    requires
        f.wrap == (Wrap::WordScroll { visible_lines: visible }),
        visible > 0,
        f.w >= 33,
    ensures
        ({
            let lines = wrapped(text, 0, (f.w - 24) / 9);
            let count = if lines.len() < visible {
                lines.len() as int
            } else {
                visible as int
            };
            let first = lines.len() - count;
            let last = lines.last();
            let shown = f.picture(text);
            &&& count > 0
            &&& forall|k: int|
                0 <= k < count ==> #[trigger] shown[1 + k] == label(
                    text.subrange(lines[first + k].0, lines[first + k].1),
                    f.x + 12,
                    f.y + 26 + 20 * k,
                    Font::Body,
                    BLACK,
                )
            &&& last.1 == text.len()
            &&& shown[1 + count] == filled(
                f.x + 13 + 9 * (last.1 - last.0),
                f.y + 14 + 20 * (count - 1),
                2,
                15,
                BLACK,
            )
            &&& shown.len() == count + 2 + if text.len() == 0 && f.placeholder@.len() > 0 {
                1int
            } else {
                0
            }
        }),
{
    law_lines_lie_in_text(text, 0, (f.w - 24) / 9);
}

/// A field of one line shows the beginning of its text, as much as fits.
pub proof fn law_beginning_of_text_is_shown(f: TextField, text: Seq<char>)
    requires
        f.wrap == Wrap::Truncate,
        f.w >= 33,
    ensures
        ({
            let cols = (f.w - 24) / 9;
            let shown = f.picture(text);
            &&& shown.len() == 2
            &&& shown[1] == label(
                if text.len() <= cols {
                    text
                } else {
                    text.subrange(0, cols)
                },
                f.x + 12,
                f.y + f.h / 2 + 6,
                Font::Body,
                BLACK,
            )
        }),
{
    let cols = (f.w - 24) / 9;
    if text.len() > cols {
        assert(text.take(cols) =~= text.subrange(0, cols));
    }
}

/// What was typed is shown at the end of the pass: cheaply where it was more
/// than one change, and then cleaned up once, when the field was left alone for
/// 400 milliseconds.
pub proof fn law_typing_is_shown_and_cleaned_up(f: TextField, now: u64, later: u64, last: u64)
    requires
        f.dirty,
    ensures
        ({
            let after = f.passed(now);
            let clean = after.passed(later);
            let idle = later - f.last_edit_us > 400_000;
            &&& f.chars_this_pass > 1 ==> {
                &&& f.refresh_due(now) == Some(Flush::Quick(f.native()))
                &&& after.refresh_due(later) == if idle {
                    Some(Flush::Fast(f.native()))
                } else {
                    None
                }
                &&& idle ==> clean.refresh_due(last) is None
            }
            &&& f.chars_this_pass <= 1 ==> {
                &&& f.refresh_due(now) == Some(Flush::Fast(f.native()))
                &&& after.refresh_due(later) is None
            }
        }),
{
}

} // verus!
