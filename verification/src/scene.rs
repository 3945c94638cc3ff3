//! What a page shows: a list of shapes in the order in which they are painted.
use vstd::prelude::*;
use vstd::string::*;

use crate::text::texts;

verus! {

/// The darkest of the sixteen grays.
pub const BLACK: u8 = 0;

/// The lightest of the sixteen grays.
pub const WHITE: u8 = 15;

/// The typefaces that pages use.
#[derive(Clone, Copy, Debug, PartialEq, Eq, Structural)]
pub enum Font {
    /// Monospace, 6 by 10 pixels.
    Small,
    /// Monospace, 9 by 15 pixels.
    Body,
    /// Monospace bold, 9 by 18 pixels.
    Bold,
    /// The large proportional digits of the weather page.
    Hero,
}

/// Which part of a text stands at its anchor.
#[derive(Clone, Copy, Debug, PartialEq, Eq, Structural)]
pub enum Align {
    Left,
    Center,
    Right,
}

/// The weather icons.
#[derive(Clone, Copy, Debug, PartialEq, Eq, Structural)]
pub enum Sky {
    Clear,
    PartlyCloudy,
    Cloudy,
    Fog,
    Rain,
    Snow,
    Storm,
}

/// How an outline is painted.
#[derive(Clone, Copy, Debug, PartialEq, Eq, Structural)]
pub enum Ink {
    /// The inside, in one gray.
    Fill { gray: u8 },
    /// The outline alone.
    Stroke { gray: u8, width: u32 },
    /// The inside and a black outline around it.
    Framed { gray: u8, width: u32 },
}

/// One thing painted. `T` is the type of its text.
#[derive(Clone, Debug, PartialEq, Eq)]
pub enum Shape<T> {
    Rect { x: i32, y: i32, w: u32, h: u32, ink: Ink },
    Rounded { x: i32, y: i32, w: u32, h: u32, radius: u32, ink: Ink },
    Circle { x: i32, y: i32, diameter: u32, ink: Ink },
    Line { x0: i32, y0: i32, x1: i32, y1: i32, gray: u8, width: u32 },
    Text { text: T, x: i32, y: i32, font: Font, gray: u8, align: Align },
    /// A weather icon with its middle at a point.
    Icon { sky: Sky, small: bool, x: i32, y: i32 },
    /// The back button that pages share.
    BackButton,
    /// The map that was fetched last, fitted into a box.
    MapImage { x: i32, y: i32, w: u32, h: u32 },
}

impl View for Shape<String> {
    type V = Shape<Seq<char>>;

    open spec fn view(&self) -> Shape<Seq<char>> {
        match *self {
            Shape::Rect { x, y, w, h, ink } => Shape::Rect { x, y, w, h, ink },
            Shape::Rounded { x, y, w, h, radius, ink } => Shape::Rounded {
                x,
                y,
                w,
                h,
                radius,
                ink,
            },
            Shape::Circle { x, y, diameter, ink } => Shape::Circle { x, y, diameter, ink },
            Shape::Line { x0, y0, x1, y1, gray, width } => Shape::Line {
                x0,
                y0,
                x1,
                y1,
                gray,
                width,
            },
            Shape::Text { text, x, y, font, gray, align } => Shape::Text {
                text: text@,
                x,
                y,
                font,
                gray,
                align,
            },
            Shape::Icon { sky, small, x, y } => Shape::Icon { sky, small, x, y },
            Shape::BackButton => Shape::BackButton,
            Shape::MapImage { x, y, w, h } => Shape::MapImage { x, y, w, h },
        }
    }
}

/// A picture as mathematics sees it.
pub type Picture = Seq<Shape<Seq<char>>>;

/// A rectangle in one gray.
pub open spec fn filled(x: int, y: int, w: int, h: int, gray: u8) -> Shape<Seq<char>> {
    Shape::Rect { x: x as i32, y: y as i32, w: w as u32, h: h as u32, ink: Ink::Fill { gray } }
}

/// A black outline.
pub open spec fn outlined(x: int, y: int, w: int, h: int, width: u32) -> Shape<Seq<char>> {
    Shape::Rect {
        x: x as i32,
        y: y as i32,
        w: w as u32,
        h: h as u32,
        ink: Ink::Stroke { gray: BLACK, width },
    }
}

/// A rectangle in one gray with a black outline.
pub open spec fn framed(x: int, y: int, w: int, h: int, gray: u8, width: u32) -> Shape<Seq<char>> {
    Shape::Rect {
        x: x as i32,
        y: y as i32,
        w: w as u32,
        h: h as u32,
        ink: Ink::Framed { gray, width },
    }
}

/// A rectangle with round corners in one gray with a black outline.
pub open spec fn rounded(
    x: int,
    y: int,
    w: int,
    h: int,
    radius: u32,
    gray: u8,
    width: u32,
) -> Shape<Seq<char>> {
    Shape::Rounded {
        x: x as i32,
        y: y as i32,
        w: w as u32,
        h: h as u32,
        radius,
        ink: Ink::Framed { gray, width },
    }
}

/// A circle within a square whose corner is given.
pub open spec fn disc(x: int, y: int, diameter: int, ink: Ink) -> Shape<Seq<char>> {
    Shape::Circle { x: x as i32, y: y as i32, diameter: diameter as u32, ink }
}

/// A text that begins at its anchor.
pub open spec fn label(text: Seq<char>, x: int, y: int, font: Font, gray: u8) -> Shape<Seq<char>> {
    Shape::Text { text, x: x as i32, y: y as i32, font, gray, align: Align::Left }
}

/// A text whose middle is at its anchor.
pub open spec fn centered(
    text: Seq<char>,
    x: int,
    y: int,
    font: Font,
    gray: u8,
) -> Shape<Seq<char>> {
    Shape::Text { text, x: x as i32, y: y as i32, font, gray, align: Align::Center }
}

/// A text that ends at its anchor.
pub open spec fn flush_right(
    text: Seq<char>,
    x: int,
    y: int,
    font: Font,
    gray: u8,
) -> Shape<Seq<char>> {
    Shape::Text { text, x: x as i32, y: y as i32, font, gray, align: Align::Right }
}

/// Lines of text one under the other, twenty pixels apart.
pub open spec fn column(
    lines: Seq<Seq<char>>,
    x: int,
    y: int,
    font: Font,
    gray: u8,
) -> Picture {
    Seq::new(lines.len(), |i: int| label(lines[i], x, y + 20 * i, font, gray))
}

/// The shapes of a page, in the order in which they are painted.
pub struct Scene {
    pub shapes: Vec<Shape<String>>,
}

impl View for Scene {
    type V = Picture;

    open spec fn view(&self) -> Picture {
        Seq::new(self.shapes@.len(), |i: int| self.shapes@[i]@)
    }
}

impl Scene {
    /// Nothing painted yet.
    pub fn new() -> (r: Self)
        ensures
            r@ == Seq::<Shape<Seq<char>>>::empty(),
    {
        Scene { shapes: Vec::new() }
    }

    /// Paints one more shape.
    pub fn put(&mut self, shape: Shape<String>)
        ensures
            final(self)@ == old(self)@.push(shape@),
    {
        let ghost before = self@;
        self.shapes.push(shape);
        assert(self@ =~= before.push(shape@));
    }

    /// Paints a rectangle in one gray.
    pub fn fill(&mut self, x: i32, y: i32, w: u32, h: u32, gray: u8)
        ensures
            final(self)@ == old(self)@.push(
                filled(x as int, y as int, w as int, h as int, gray),
            ),
    {
        self.put(Shape::Rect { x, y, w, h, ink: Ink::Fill { gray } });
    }

    /// Paints a black outline.
    pub fn outline(&mut self, x: i32, y: i32, w: u32, h: u32, width: u32)
        ensures
            final(self)@ == old(self)@.push(
                outlined(x as int, y as int, w as int, h as int, width),
            ),
    {
        self.put(Shape::Rect { x, y, w, h, ink: Ink::Stroke { gray: BLACK, width } });
    }

    /// Paints a rectangle in one gray with a black outline.
    pub fn frame(&mut self, x: i32, y: i32, w: u32, h: u32, gray: u8, width: u32)
        ensures
            final(self)@ == old(self)@.push(
                framed(x as int, y as int, w as int, h as int, gray, width),
            ),
    {
        self.put(Shape::Rect { x, y, w, h, ink: Ink::Framed { gray, width } });
    }

    /// Paints a rectangle with round corners in one gray with a black outline.
    pub fn round(&mut self, x: i32, y: i32, w: u32, h: u32, radius: u32, gray: u8, width: u32)
        ensures
            final(self)@ == old(self)@.push(
                rounded(x as int, y as int, w as int, h as int, radius, gray, width),
            ),
    {
        self.put(Shape::Rounded { x, y, w, h, radius, ink: Ink::Framed { gray, width } });
    }

    /// Paints a text that begins at its anchor.
    pub fn text(&mut self, text: &str, x: i32, y: i32, font: Font, gray: u8)
        ensures
            final(self)@ == old(self)@.push(label(text@, x as int, y as int, font, gray)),
    {
        let text: String = String::from_str(text);
        self.put(Shape::Text { text, x, y, font, gray, align: Align::Left });
    }

    /// Paints a text whose middle is at its anchor.
    pub fn center(&mut self, text: &str, x: i32, y: i32, font: Font, gray: u8)
        ensures
            final(self)@ == old(self)@.push(centered(text@, x as int, y as int, font, gray)),
    {
        let text: String = String::from_str(text);
        self.put(Shape::Text { text, x, y, font, gray, align: Align::Center });
    }

    /// Paints a text that ends at its anchor.
    pub fn right(&mut self, text: &str, x: i32, y: i32, font: Font, gray: u8)
        ensures
            final(self)@ == old(self)@.push(flush_right(text@, x as int, y as int, font, gray)),
    {
        let text: String = String::from_str(text);
        self.put(Shape::Text { text, x, y, font, gray, align: Align::Right });
    }

    /// Paints a line.
    pub fn line(&mut self, x0: i32, y0: i32, x1: i32, y1: i32, gray: u8, width: u32)
        ensures
            final(self)@ == old(self)@.push(Shape::Line { x0, y0, x1, y1, gray, width }),
    {
        self.put(Shape::Line { x0, y0, x1, y1, gray, width });
    }

    /// Paints a circle within a square whose corner is given.
    pub fn circle(&mut self, x: i32, y: i32, diameter: u32, ink: Ink)
        ensures
            final(self)@ == old(self)@.push(disc(x as int, y as int, diameter as int, ink)),
    {
        self.put(Shape::Circle { x, y, diameter, ink });
    }

    /// Paints the map that was fetched last.
    pub fn map_image(&mut self, x: i32, y: i32, w: u32, h: u32)
        ensures
            final(self)@ == old(self)@.push(Shape::MapImage { x, y, w, h }),
    {
        self.put(Shape::MapImage { x, y, w, h });
    }

    /// Paints a weather icon.
    pub fn icon(&mut self, sky: Sky, small: bool, x: i32, y: i32)
        ensures
            final(self)@ == old(self)@.push(Shape::Icon { sky, small, x, y }),
    {
        self.put(Shape::Icon { sky, small, x, y });
    }

    /// Paints the back button.
    pub fn back_button(&mut self)
        ensures
            final(self)@ == old(self)@.push(Shape::BackButton),
    {
        self.put(Shape::BackButton);
    }

    /// Paints the lines from `from` up to `to` one under the other.
    pub fn column(
        &mut self,
        lines: &Vec<String>,
        from: usize,
        to: usize,
        x: i32,
        y: i32,
        font: Font,
        gray: u8,
    )
        requires
            from <= to <= lines@.len(),
            y + 20 * (to - from) <= i32::MAX,
        ensures
            final(self)@ == old(self)@ + column(
                texts(lines@).subrange(from as int, to as int),
                x as int,
                y as int,
                font,
                gray,
            ),
    {
        let ghost all = column(
            texts(lines@).subrange(from as int, to as int),
            x as int,
            y as int,
            font,
            gray,
        );
        let mut row: i32 = y;
        let mut i: usize = from;
        while i < to
            invariant
                from <= i <= to <= lines@.len(),
                y + 20 * (to - from) <= i32::MAX,
                row == y + 20 * (i - from),
                all == column(
                    texts(lines@).subrange(from as int, to as int),
                    x as int,
                    y as int,
                    font,
                    gray,
                ),
                self@ == old(self)@ + all.take(i - from),
            decreases to - i,
        {
            self.text(lines[i].as_str(), x, row, font, gray);
            assert(texts(lines@).subrange(from as int, to as int)[i - from] == lines@[i as int]@);
            assert(all.take(i - from + 1) =~= all.take(i - from).push(all[i - from]));
            row = row + 20;
            i = i + 1;
        }
        assert(all.take(to - from) =~= all);
    }
}

/// A column shows every line, one below the other, twenty pixels apart.
pub proof fn law_column_shows_every_line(
    lines: Seq<Seq<char>>,
    x: int,
    y: int,
    font: Font,
    gray: u8,
)
    ensures
        column(lines, x, y, font, gray).len() == lines.len(),
        forall|i: int|
            0 <= i < lines.len() ==> #[trigger] column(lines, x, y, font, gray)[i] == (
            Shape::Text {
                text: lines[i],
                x: x as i32,
                y: (y + 20 * i) as i32,
                font,
                gray,
                align: Align::Left,
            }),
{
}

/// Shapes are where they are asked to be and of the size that is asked for, and
/// texts are shown whole.
pub proof fn law_shapes_are_as_asked(
    text: Seq<char>,
    x: i32,
    y: i32,
    w: u32,
    h: u32,
    gray: u8,
    width: u32,
    font: Font,
)
    ensures
        filled(x as int, y as int, w as int, h as int, gray) == (Shape::<Seq<char>>::Rect {
            x,
            y,
            w,
            h,
            ink: Ink::Fill { gray },
        }),
        outlined(x as int, y as int, w as int, h as int, width) == (Shape::<Seq<char>>::Rect {
            x,
            y,
            w,
            h,
            ink: Ink::Stroke { gray: BLACK, width },
        }),
        framed(x as int, y as int, w as int, h as int, gray, width) == (Shape::<Seq<char>>::Rect {
            x,
            y,
            w,
            h,
            ink: Ink::Framed { gray, width },
        }),
        label(text, x as int, y as int, font, gray) == (Shape::Text {
            text,
            x,
            y,
            font,
            gray,
            align: Align::Left,
        }),
        centered(text, x as int, y as int, font, gray) == (Shape::Text {
            text,
            x,
            y,
            font,
            gray,
            align: Align::Center,
        }),
        flush_right(text, x as int, y as int, font, gray) == (Shape::Text {
            text,
            x,
            y,
            font,
            gray,
            align: Align::Right,
        }),
{
}

} // verus!
