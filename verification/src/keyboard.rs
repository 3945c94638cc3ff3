//! The on-screen keyboard that the text fields share. Its keys do not move, so
//! a page paints the whole board once and then only its input field.
use vstd::prelude::*;
use vstd::string::*;

use crate::layout::{in_rect, inside, native_of, screen_to_native_rect, NativeRect, SCREEN_W};
use crate::scene::{
    centered, rounded, Align, Font, Ink, Picture, Scene, Shape, BLACK, WHITE,
};
use crate::text::{chars_of, own};

verus! {

/// Pixels across a key.
pub const KB_KEY_W: i32 = 50;

/// Pixels down a key.
pub const KB_KEY_H: i32 = 78;

/// Pixels from one key of a row to the next: a key and a gap of four.
pub const KB_STEP: i32 = 54;

/// Pixels from one row to the next: a key and a gap of eight.
pub const KB_ROW_STEP: i32 = 86;

/// Where the first row begins.
pub const KB_TOP: i32 = 600;

/// What a key does.
#[derive(Clone, Copy, Debug, PartialEq, Eq, Structural)]
pub enum Key {
    Char(char),
    Shift,
    Symbols,
    Backspace,
    Space,
    Enter,
}

/// A key and the box it fills.
#[derive(Clone, Copy, Debug, PartialEq, Eq, Structural)]
pub struct KeyBox {
    pub key: Key,
    pub x: i32,
    pub y: i32,
    pub w: i32,
    pub h: i32,
}

/// A Latin letter as a capital, any other character as it is.
pub open spec fn capital(c: char) -> char {
    if 'a' <= c && c <= 'z' {
        ((c as u32) - 32) as char
    } else {
        c
    }
}

/// The characters of one of the three upper rows.
pub open spec fn row_chars(symbols: bool, row: int) -> Seq<char> {
    if symbols {
        if row == 0 {
            "1234567890"@
        } else if row == 1 {
            "@#$&-+()/"@
        } else {
            "*\"':;!?,"@
        }
    } else {
        if row == 0 {
            "qwertyuiop"@
        } else if row == 1 {
            "asdfghjkl"@
        } else {
            "zxcvbnm"@
        }
    }
}

/// Where a row begins, down the screen.
pub open spec fn row_y(row: int) -> int {
    600 + 86 * row
}

/// Where a row of `n` keys begins when it is centred on the screen.
pub open spec fn row_x(n: int) -> int {
    (540 - (54 * n - 4)) / 2
}

/// A key of the ordinary size.
pub open spec fn key_at(key: Key, x: int, y: int) -> KeyBox {
    KeyBox { key, x: x as i32, y: y as i32, w: KB_KEY_W, h: KB_KEY_H }
}

/// The key for character `i` of `chars` in a row that begins at `x`, a capital
/// where `upper` says so.
pub open spec fn row_key(chars: Seq<char>, upper: bool, x: int, y: int, i: int) -> KeyBox {
    let c = if upper {
        capital(chars[i])
    } else {
        chars[i]
    };
    key_at(Key::Char(c), x + 54 * i, y)
}

/// Keys for `chars`, side by side from `x` on, as capitals where `upper` says
/// so.
pub open spec fn key_row(chars: Seq<char>, upper: bool, x: int, y: int) -> Seq<KeyBox> {
    Seq::new(chars.len(), |i: int| row_key(chars, upper, x, y, i))
}

/// The third row: nine slots, the last of them for deleting. Among the letters
/// the first one is for shift.
pub open spec fn third_row(symbols: bool, shift: bool) -> Seq<KeyBox> {
    let x = row_x(9);
    let y = row_y(2);
    if symbols {
        key_row(row_chars(true, 2), false, x, y).push(key_at(Key::Backspace, x + 8 * 54, y))
    } else {
        seq![key_at(Key::Shift, x, y)] + key_row(row_chars(false, 2), shift, x + 54, y).push(
            key_at(Key::Backspace, x + 8 * 54, y),
        )
    }
}

/// The bottom row: the key that changes layers, the space bar and enter.
pub open spec fn bottom_row() -> Seq<KeyBox> {
    let y = row_y(3) as i32;
    seq![
        KeyBox { key: Key::Symbols, x: 2, y, w: 90, h: KB_KEY_H },
        KeyBox { key: Key::Space, x: 96, y, w: 328, h: KB_KEY_H },
        KeyBox { key: Key::Enter, x: 428, y, w: 110, h: KB_KEY_H },
    ]
}

/// The keys of a layer.
pub open spec fn keys_of(symbols: bool, shift: bool) -> Seq<KeyBox> {
    let upper = !symbols && shift;
    key_row(row_chars(symbols, 0), upper, row_x(10), row_y(0)) + key_row(
        row_chars(symbols, 1),
        upper,
        row_x(9),
        row_y(1),
    ) + third_row(symbols, shift) + bottom_row()
}

/// Makes a Latin letter a capital.
pub fn to_capital(c: char) -> (r: char)
    ensures
        r == capital(c),
{
    if 'a' <= c && c <= 'z' {
        let v: u32 = (c as u32) - 32;
        (v as u8) as char
    } else {
        c
    }
}

/// Where a row begins, down the screen.
fn kb_row_y(row: i32) -> (r: i32)
    requires
        0 <= row <= 3,
    ensures
        r == row_y(row as int),
{
    KB_TOP + 86 * row
}

/// Appends keys for the characters of `row`, side by side from `x` on.
fn push_row(keys: &mut Vec<KeyBox>, row: &str, upper: bool, x: i32, y: i32)
    requires
        row@.len() <= 10,
        0 <= x <= 100,
    ensures
        final(keys)@ == old(keys)@ + key_row(row@, upper, x as int, y as int),
{
    let chars: Vec<char> = chars_of(row);
    let mut i: usize = 0;
    while i < chars.len()
        invariant
            i <= chars@.len() <= 10,
            chars@ == row@,
            0 <= x <= 100,
            keys@ == old(keys)@ + key_row(row@, upper, x as int, y as int).take(i as int),
        decreases chars@.len() - i,
    {
        let c: char = chars[i];
        let ch: char = if upper {
            to_capital(c)
        } else {
            c
        };
        keys.push(
            KeyBox {
                key: Key::Char(ch),
                x: x + 54 * i as i32,
                y,
                w: KB_KEY_W,
                h: KB_KEY_H,
            },
        );
        let ghost whole = key_row(row@, upper, x as int, y as int);
        assert(whole.len() == row@.len());
        assert(whole.take(i + 1) =~= whole.take(i as int).push(whole[i as int]));
        i = i + 1;
    }
    let ghost whole = key_row(row@, upper, x as int, y as int);
    assert(whole.take(whole.len() as int) =~= whole);
}

/// How long the rows are.
pub proof fn lemma_row_lengths()
    ensures
        row_chars(false, 0).len() == 10,
        row_chars(false, 1).len() == 9,
        row_chars(false, 2).len() == 7,
        row_chars(true, 0).len() == 10,
        row_chars(true, 1).len() == 9,
        row_chars(true, 2).len() == 8,
{
    reveal_strlit("qwertyuiop");
    reveal_strlit("asdfghjkl");
    reveal_strlit("zxcvbnm");
    reveal_strlit("1234567890");
    reveal_strlit("@#$&-+()/");
    reveal_strlit("*\"':;!?,");
}

/// Builds the keys of a layer.
pub fn keyboard(symbols: bool, shift: bool) -> (r: Vec<KeyBox>)
    ensures
        r@ == keys_of(symbols, shift),
{
    proof {
        lemma_row_lengths();
    }
    let upper: bool = !symbols && shift;
    let mut keys: Vec<KeyBox> = Vec::new();
    let first: &str = if symbols {
        "1234567890"
    } else {
        "qwertyuiop"
    };
    let second: &str = if symbols {
        "@#$&-+()/"
    } else {
        "asdfghjkl"
    };
    push_row(&mut keys, first, upper, 2, kb_row_y(0));
    push_row(&mut keys, second, upper, 29, kb_row_y(1));
    let ghost two = keys@;
    let y: i32 = kb_row_y(2);
    let x: i32 = 29;
    if symbols {
        push_row(&mut keys, "*\"':;!?,", upper, x, y);
    } else {
        keys.push(KeyBox { key: Key::Shift, x, y, w: KB_KEY_W, h: KB_KEY_H });
        push_row(&mut keys, "zxcvbnm", upper, x + KB_STEP, y);
    }
    keys.push(KeyBox { key: Key::Backspace, x: x + 8 * KB_STEP, y, w: KB_KEY_W, h: KB_KEY_H });
    assert(keys@ =~= two + third_row(symbols, shift));
    let y: i32 = kb_row_y(3);
    keys.push(KeyBox { key: Key::Symbols, x: 2, y, w: 90, h: KB_KEY_H });
    keys.push(KeyBox { key: Key::Space, x: 96, y, w: 328, h: KB_KEY_H });
    keys.push(KeyBox { key: Key::Enter, x: 428, y, w: 110, h: KB_KEY_H });
    assert(keys@ =~= keys_of(symbols, shift));
    keys
}

/// Whether a point lies on a key.
pub open spec fn on_key(k: KeyBox, sx: int, sy: int) -> bool {
    inside(sx, sy, k.x as int, k.y as int, k.w as int, k.h as int)
}

/// The first of `keys` that a point lies on.
pub open spec fn key_under(keys: Seq<KeyBox>, sx: int, sy: int) -> Option<Key>
    decreases keys.len(),
{
    if keys.len() == 0 {
        None
    } else if on_key(keys[0], sx, sy) {
        Some(keys[0].key)
    } else {
        key_under(keys.drop_first(), sx, sy)
    }
}

/// The keys of the layer that was used last, kept so that a touch need not
/// build them anew.
pub struct KeyCache {
    pub layer: Option<(bool, bool)>,
    pub keys: Vec<KeyBox>,
}

impl KeyCache {
    /// The keys kept are those of the layer named.
    pub open spec fn well_formed(&self) -> bool {
        self.layer matches Some(l) ==> self.keys@ == keys_of(l.0, l.1)
    }

    /// Nothing kept yet.
    pub fn new() -> (r: Self)
        ensures
            r.well_formed(),
            r.layer is None,
    {
        KeyCache { layer: None, keys: Vec::new() }
    }

    /// Makes the keys kept those of a layer.
    pub fn cached_keyboard(&mut self, symbols: bool, shift: bool)
        requires
            old(self).well_formed(),
        ensures
            final(self).well_formed(),
            final(self).layer == Some((symbols, shift)),
            final(self).keys@ == keys_of(symbols, shift),
            old(self).layer == Some((symbols, shift)) ==> *final(self) == *old(self),
    {
        let kept: bool = match self.layer {
            Some((s, sh)) => s == symbols && sh == shift,
            None => false,
        };
        if !kept {
            self.keys = keyboard(symbols, shift);
            self.layer = Some((symbols, shift));
        }
    }

    /// The key of a layer that a point lies on.
    pub fn hit(&mut self, sx: i32, sy: i32, symbols: bool, shift: bool) -> (r: Option<Key>)
        requires
            old(self).well_formed(),
        ensures
            final(self).well_formed(),
            r == key_under(keys_of(symbols, shift), sx as int, sy as int),
    {
        self.cached_keyboard(symbols, shift);
        let ghost whole = keys_of(symbols, shift);
        let mut i: usize = 0;
        proof {
            law_keys_are_on_screen(symbols, shift);
            assert(whole.skip(0) =~= whole);
        }
        while i < self.keys.len()
            invariant
                i <= self.keys@.len(),
                self.well_formed(),
                self.keys@ == whole,
                forall|k: int| 0 <= k < whole.len() ==> on_screen(#[trigger] whole[k]),
                key_under(whole, sx as int, sy as int) == key_under(
                    whole.skip(i as int),
                    sx as int,
                    sy as int,
                ),
                whole == keys_of(symbols, shift),
            decreases self.keys@.len() - i,
        {
            let k: KeyBox = self.keys[i];
            assert(on_screen(whole[i as int]));
            assert(whole.skip(i as int)[0] == k);
            if in_rect(sx, sy, k.x, k.y, k.w, k.h) {
                return Some(k.key);
            }
            assert(whole.skip(i as int).drop_first() =~= whole.skip(i + 1));
            i = i + 1;
        }
        None
    }
}

/// The text on a key.
pub open spec fn key_text(key: Key, symbols: bool, enter_label: Seq<char>) -> Seq<char> {
    match key {
        Key::Char(c) => seq![c],
        Key::Shift => "shift"@,
        Key::Symbols => if symbols {
            "abc"@
        } else {
            "123"@
        },
        Key::Backspace => "del"@,
        Key::Space => "space"@,
        Key::Enter => enter_label,
    }
}

/// The text on a key.
pub fn key_label(key: Key, symbols: bool, enter_label: &str) -> (r: String)
    ensures
        r@ == key_text(key, symbols, enter_label@),
{
    match key {
        Key::Char(c) => {
            let mut s: String = String::new();
            s.push(c);
            s
        },
        Key::Shift => own("shift"),
        Key::Symbols => if symbols {
            own("abc")
        } else {
            own("123")
        },
        Key::Backspace => own("del"),
        Key::Space => own("space"),
        Key::Enter => own(enter_label),
    }
}

/// What a key looks like: a box with its text in the middle, in white on black
/// for shift while it holds.
pub open spec fn key_picture(
    k: KeyBox,
    symbols: bool,
    shift: bool,
    enter_label: Seq<char>,
) -> Picture {
    let active = k.key == Key::Shift && shift;
    let back = if active {
        BLACK
    } else {
        WHITE
    };
    let ink = if active {
        WHITE
    } else {
        BLACK
    };
    seq![
        rounded(k.x as int, k.y as int, k.w as int, k.h as int, 6, back, 1),
        centered(
            key_text(k.key, symbols, enter_label),
            k.x + k.w / 2,
            k.y + k.h / 2 + 5,
            Font::Body,
            ink,
        ),
    ]
}

/// What `n` keys look like.
pub open spec fn keys_picture(
    keys: Seq<KeyBox>,
    n: int,
    symbols: bool,
    shift: bool,
    enter_label: Seq<char>,
) -> Picture
    decreases n,
{
    if n <= 0 {
        seq![]
    } else {
        keys_picture(keys, n - 1, symbols, shift, enter_label) + key_picture(
            keys[n - 1],
            symbols,
            shift,
            enter_label,
        )
    }
}

/// What the keyboard looks like.
pub open spec fn keyboard_picture(symbols: bool, shift: bool, enter_label: Seq<char>) -> Picture {
    let keys = keys_of(symbols, shift);
    keys_picture(keys, keys.len() as int, symbols, shift, enter_label)
}

/// Paints the keyboard.
pub fn draw(scene: &mut Scene, symbols: bool, shift: bool, enter_label: &str)
    ensures
        final(scene)@ == old(scene)@ + keyboard_picture(symbols, shift, enter_label@),
{
    let keys: Vec<KeyBox> = keyboard(symbols, shift);
    let ghost whole = keys_of(symbols, shift);
    proof {
        law_keys_are_on_screen(symbols, shift);
    }
    let mut i: usize = 0;
    while i < keys.len()
        invariant
            i <= keys@.len(),
            keys@ == whole,
            forall|k: int| 0 <= k < whole.len() ==> on_screen(#[trigger] whole[k]),
            scene@ == old(scene)@ + keys_picture(
                whole,
                i as int,
                symbols,
                shift,
                enter_label@,
            ),
        decreases keys@.len() - i,
    {
        let k: KeyBox = keys[i];
        assert(on_screen(whole[i as int]));
        let active: bool = k.key == Key::Shift && shift;
        let back: u8 = if active {
            BLACK
        } else {
            WHITE
        };
        let ink: u8 = if active {
            WHITE
        } else {
            BLACK
        };
        let ghost before = scene@;
        scene.round(k.x, k.y, k.w as u32, k.h as u32, 6, back, 1);
        let text: String = key_label(k.key, symbols, enter_label);
        scene.center(text.as_str(), k.x + k.w / 2, k.y + k.h / 2 + 5, Font::Body, ink);
        assert(scene@ =~= before + key_picture(k, symbols, shift, enter_label@));
        i = i + 1;
        assert(scene@ =~= old(scene)@ + keys_picture(
            whole,
            i as int,
            symbols,
            shift,
            enter_label@,
        ));
    }
}

/// The part of the panel that the keyboard fills.
pub fn native_rect() -> (r: NativeRect)
    ensures
        r == native_of(0, 594, 540, 356),
{
    screen_to_native_rect(0, KB_TOP - 6, SCREEN_W, 4 * KB_ROW_STEP + 12)
}

/// Whether a key lies within the part of the screen that the keyboard is
/// painted in.
pub open spec fn on_screen(k: KeyBox) -> bool {
    &&& 0 <= k.x
    &&& 0 < k.w
    &&& k.x + k.w <= SCREEN_W
    &&& KB_TOP <= k.y
    &&& 0 < k.h
    &&& k.y + k.h <= 950
}

/// Every key lies within the part of the screen that the keyboard is painted
/// in.
pub proof fn law_keys_are_on_screen(symbols: bool, shift: bool)
    ensures
        forall|i: int|
            0 <= i < keys_of(symbols, shift).len() ==> on_screen(
                #[trigger] keys_of(symbols, shift)[i],
            ),
{
    lemma_row_lengths();
}

/// No two keys overlap: a point lies on one at most.
pub proof fn law_keys_do_not_overlap(
    symbols: bool,
    shift: bool,
    i: int,
    j: int,
    sx: int,
    sy: int,
)
    requires
        0 <= i < keys_of(symbols, shift).len(),
        0 <= j < keys_of(symbols, shift).len(),
        on_key(keys_of(symbols, shift)[i], sx, sy),
        on_key(keys_of(symbols, shift)[j], sx, sy),
    ensures
        i == j,
{
    lemma_row_lengths();
}

/// A point is on a key exactly when it is in that key's box.
pub proof fn law_hit_is_the_key_there(symbols: bool, shift: bool, i: int, sx: int, sy: int)
    requires
        0 <= i < keys_of(symbols, shift).len(),
        on_key(keys_of(symbols, shift)[i], sx, sy),
    ensures
        key_under(keys_of(symbols, shift), sx, sy) == Some(keys_of(symbols, shift)[i].key),
{
    let keys = keys_of(symbols, shift);
    assert forall|j: int| 0 <= j < i implies !on_key(#[trigger] keys[j], sx, sy) by {
        if on_key(keys[j], sx, sy) {
            law_keys_do_not_overlap(symbols, shift, i, j, sx, sy);
        }
    }
    lemma_key_under(keys, i, sx, sy);
}

/// The first key that a point lies on is the one that is found.
proof fn lemma_key_under(keys: Seq<KeyBox>, i: int, sx: int, sy: int)
    requires
        0 <= i < keys.len(),
        on_key(keys[i], sx, sy),
        forall|j: int| 0 <= j < i ==> !on_key(#[trigger] keys[j], sx, sy),
    ensures
        key_under(keys, sx, sy) == Some(keys[i].key),
    decreases i,
{
    if i > 0 {
        let rest = keys.drop_first();
        assert forall|j: int| 0 <= j < i - 1 implies !on_key(#[trigger] rest[j], sx, sy) by {
            assert(rest[j] == keys[j + 1]);
        }
        assert(!on_key(keys[0], sx, sy));
        lemma_key_under(rest, i - 1, sx, sy);
    }
}

/// Every key is painted: its box where touches hit it, and its label in the
/// middle of the box. The shift key is painted inverted while it is on.
pub proof fn law_every_key_is_painted(
    symbols: bool,
    shift: bool,
    enter_label: Seq<char>,
    i: int,
)
    requires
        0 <= i < keys_of(symbols, shift).len(),
    ensures
        ({
            let k = keys_of(symbols, shift)[i];
            let shown = keyboard_picture(symbols, shift, enter_label);
            let on = k.key == Key::Shift && shift;
            &&& shown.len() == 2 * keys_of(symbols, shift).len()
            &&& shown[2 * i] == (Shape::<Seq<char>>::Rounded {
                x: k.x,
                y: k.y,
                w: k.w as u32,
                h: k.h as u32,
                radius: 6,
                ink: Ink::Framed {
                    gray: if on {
                        BLACK
                    } else {
                        WHITE
                    },
                    width: 1,
                },
            })
            &&& shown[2 * i + 1] == (Shape::Text {
                text: match k.key {
                    Key::Char(c) => seq![c],
                    Key::Shift => "shift"@,
                    Key::Symbols => if symbols {
                        "abc"@
                    } else {
                        "123"@
                    },
                    Key::Backspace => "del"@,
                    Key::Space => "space"@,
                    Key::Enter => enter_label,
                },
                x: (k.x + k.w / 2) as i32,
                y: (k.y + k.h / 2 + 5) as i32,
                font: Font::Body,
                gray: if on {
                    WHITE
                } else {
                    BLACK
                },
                align: Align::Center,
            })
        }),
{
    let keys = keys_of(symbols, shift);
    lemma_key_is_painted(keys, keys.len() as int, symbols, shift, enter_label, i);
}

/// Two shapes for each key.
proof fn lemma_key_is_painted(
    keys: Seq<KeyBox>,
    n: int,
    symbols: bool,
    shift: bool,
    enter_label: Seq<char>,
    i: int,
)
    requires
        0 <= i < n,
    ensures
        ({
            let shown = keys_picture(keys, n, symbols, shift, enter_label);
            let one = key_picture(keys[i], symbols, shift, enter_label);
            &&& shown.len() == 2 * n
            &&& shown[2 * i] == one[0]
            &&& shown[2 * i + 1] == one[1]
        }),
    decreases n,
{
    let before = keys_picture(keys, n - 1, symbols, shift, enter_label);
    if n == 1 {
        assert(before.len() == 0);
    } else {
        lemma_key_is_painted(keys, n - 1, symbols, shift, enter_label, 0);
        if i < n - 1 {
            lemma_key_is_painted(keys, n - 1, symbols, shift, enter_label, i);
        }
    }
}

/// Whether a key of a layer types a character.
pub open spec fn types(symbols: bool, shift: bool, c: char) -> bool {
    exists|i: int|
        0 <= i < keys_of(symbols, shift).len() && (#[trigger] keys_of(symbols, shift)[i]).key
            == Key::Char(c)
}

/// Every small letter is on the keyboard, with shift every capital in its
/// place, and on the other layer every digit.
pub proof fn law_letters_and_digits_can_be_typed(c: char)
    ensures
        'a' <= c <= 'z' ==> types(false, false, c) && types(
            false,
            true,
            ((c as u32) - 32) as char,
        ),
        '0' <= c <= '9' ==> types(true, false, c) && types(true, true, c),
{
    lemma_row_lengths();
    reveal_strlit("qwertyuiop");
    reveal_strlit("asdfghjkl");
    reveal_strlit("zxcvbnm");
    reveal_strlit("1234567890");
    if 'a' <= c <= 'z' {
        let top = row_chars(false, 0);
        let middle = row_chars(false, 1);
        let low = row_chars(false, 2);
        assert(top.contains(c) || middle.contains(c) || low.contains(c)) by {
            lemma_letter_in_a_row(c);
        }
        let i = if top.contains(c) {
            top.index_of(c)
        } else if middle.contains(c) {
            10 + middle.index_of(c)
        } else {
            20 + low.index_of(c)
        };
        assert(keys_of(false, false)[i].key == Key::Char(c));
        assert(keys_of(false, true)[i].key == Key::Char(capital(c)));
    }
    if '0' <= c <= '9' {
        let top = row_chars(true, 0);
        let i = if c == '0' {
            9
        } else {
            c as int - 49
        };
        assert(top[i] == c);
        assert(keys_of(true, false)[i].key == Key::Char(c));
        assert(keys_of(true, true)[i].key == Key::Char(c));
    }
}

/// Every small letter stands in one of the three rows.
proof fn lemma_letter_in_a_row(c: char)
    requires
        'a' <= c <= 'z',
    ensures
        row_chars(false, 0).contains(c) || row_chars(false, 1).contains(c) || row_chars(
            false,
            2,
        ).contains(c),
{
    reveal_strlit("qwertyuiop");
    reveal_strlit("asdfghjkl");
    reveal_strlit("zxcvbnm");
    let t = row_chars(false, 0);
    let m = row_chars(false, 1);
    let l = row_chars(false, 2);
    assert(t[0] == 'q' && t[1] == 'w' && t[2] == 'e' && t[3] == 'r' && t[4] == 't' && t[5] == 'y'
        && t[6] == 'u' && t[7] == 'i' && t[8] == 'o' && t[9] == 'p');
    assert(m[0] == 'a' && m[1] == 's' && m[2] == 'd' && m[3] == 'f' && m[4] == 'g' && m[5] == 'h'
        && m[6] == 'j' && m[7] == 'k' && m[8] == 'l');
    assert(l[0] == 'z' && l[1] == 'x' && l[2] == 'c' && l[3] == 'v' && l[4] == 'b' && l[5] == 'n'
        && l[6] == 'm');
}

/// The keys of a row are fifty by seventy-eight pixels, four pixels apart, the
/// row in the middle of the screen, and the rows 86 pixels apart from the 600th
/// on; the character of each is that of its row, as a capital with shift.
pub proof fn law_rows_of_keys(symbols: bool, shift: bool, i: int)
    requires
        0 <= i < 10,
    ensures
        ({
            let keys = keys_of(symbols, shift);
            let first = if symbols {
                "1234567890"@
            } else {
                "qwertyuiop"@
            };
            let second = if symbols {
                "@#$&-+()/"@
            } else {
                "asdfghjkl"@
            };
            let capitals = shift && !symbols;
            &&& keys.len() == 31
            &&& keys[i].x == 2 + 54 * i && keys[i].y == 600
            &&& keys[i].key == Key::Char(
                if capitals {
                    capital(first[i])
                } else {
                    first[i]
                },
            )
            &&& i < 9 ==> {
                &&& keys[10 + i].x == 29 + 54 * i && keys[10 + i].y == 686
                &&& keys[10 + i].key == Key::Char(
                    if capitals {
                        capital(second[i])
                    } else {
                        second[i]
                    },
                )
                &&& keys[19 + i].x == 29 + 54 * i && keys[19 + i].y == 772
            }
            &&& keys[27].key == Key::Backspace
            &&& !symbols ==> keys[19].key == Key::Shift
            &&& keys[28].key == Key::Symbols && keys[28].x == 2 && keys[28].w == 90
            &&& keys[29].key == Key::Space && keys[29].x == 96 && keys[29].w == 328
            &&& keys[30].key == Key::Enter && keys[30].x == 428 && keys[30].w == 110
            &&& keys[28].y == 858 && keys[29].y == 858 && keys[30].y == 858
            &&& i < 9 ==> keys[19 + i].w == 50 && keys[10 + i].w == 50
            &&& keys[i].w == 50 && keys[i].h == 78
        }),
{
    lemma_row_lengths();
    let keys = keys_of(symbols, shift);
    assert(third_row(symbols, shift).len() == 9);
    assert(keys.len() == 31);
}

/// The capital of a small letter is that letter; anything else is its own.
pub proof fn law_capitals(c: char)
    ensures
        'a' <= c <= 'z' ==> 'A' <= capital(c) <= 'Z' && (capital(c) as u32) + 32 == c as u32,
        !('a' <= c <= 'z') ==> capital(c) == c,
{
}

} // verus!
