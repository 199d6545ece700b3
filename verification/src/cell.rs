use vstd::prelude::*;

verus! {

/// What a cell shows: a blank, or one of the two digit glyphs.
#[derive(Clone, Copy, PartialEq, Eq, Structural, Debug)]
pub enum Content {
    Empty,
    Zero,
    One,
}

/// The fixed palette, ordered from brightest to darkest.
#[derive(Clone, Copy, PartialEq, Eq, Structural, Debug)]
pub enum Color {
    BrightGreen,
    DarkGreen,
    DarkGrey,
    Black,
}

/// The binary display attribute layered on top of the color.
#[derive(Clone, Copy, PartialEq, Eq, Structural, Debug)]
pub enum Emphasis {
    Normal,
    Dim,
}

/// One screen cell of the rain simulation.
///
/// `age == 0` means the cell is blank; `age == 1` is the bright head of a
/// stream; larger ages are the fading body. `lifetime` is how many ticks the
/// current occupancy may last, and is meaningful only while `age > 0`.
#[derive(Clone, Copy, PartialEq, Eq, Structural, Debug)]
pub struct Pixel {
    pub content: Content,
    pub color: Color,
    pub emphasis: Emphasis,
    pub age: u8,
    pub lifetime: u8,
}

/// Ages up to this bound (and above 1) show as dark green.
pub open spec fn green_cut(lifetime: u8) -> int {
    (lifetime * 6) / 10
}

/// Ages up to this bound (and above `green_cut`) would show as dark grey.
pub open spec fn grey_cut(lifetime: u8) -> int {
    (lifetime * 4) / 10
}

/// The color an occupied cell of the given age and lifetime must show.
pub open spec fn color_for(age: u8, lifetime: u8) -> Color {
    if age == 1 {
        Color::BrightGreen
    } else if age <= green_cut(lifetime) {
        Color::DarkGreen
    } else if age <= grey_cut(lifetime) {
        Color::DarkGrey
    } else {
        Color::Black
    }
}

/// The emphasis a cell of the given age and lifetime must show: the body of a
/// stream is dimmed, the head and blank cells are not.
pub open spec fn emphasis_for(age: u8, lifetime: u8) -> Emphasis {
    if 1 < age <= lifetime {
        Emphasis::Dim
    } else {
        Emphasis::Normal
    }
}

/// The state a cell moves to when `advance` is called on it: one tick older,
/// restyled for its new age, or blank once the age would pass the lifetime.
/// A blank cell is left as it is.
pub open spec fn step_cell(c: Pixel) -> Pixel {
    if c.age == 0 {
        c
    } else if c.age + 1 > c.lifetime {
        Pixel::blank()
    } else {
        Pixel {
            content: c.content,
            color: color_for((c.age + 1) as u8, c.lifetime),
            emphasis: emphasis_for((c.age + 1) as u8, c.lifetime),
            age: (c.age + 1) as u8,
            lifetime: c.lifetime,
        }
    }
}

impl Pixel {
    /// The blank state every cell starts in and returns to.
    pub open spec fn blank() -> Pixel {
        Pixel {
            content: Content::Empty,
            color: Color::Black,
            emphasis: Emphasis::Normal,
            age: 0,
            lifetime: 0,
        }
    }

    /// Visually blank: nothing drawn, darkest color, no emphasis.
    pub open spec fn is_blank(self) -> bool {
        &&& self.content == Content::Empty
        &&& self.color == Color::Black
        &&& self.emphasis == Emphasis::Normal
    }

    /// Well-formedness of a cell between ticks: a cell with age 0 is exactly
    /// the blank cell, and an occupied cell is within its lifetime, shows a
    /// digit, and is styled according to its age and lifetime.
    pub open spec fn wf(self) -> bool {
        &&& self.age == 0 ==> self == Pixel::blank()
        &&& self.age >= 1 ==> {
            &&& self.age <= self.lifetime
            &&& self.color == color_for(self.age, self.lifetime)
            &&& self.emphasis == emphasis_for(self.age, self.lifetime)
            &&& self.content != Content::Empty
        }
    }

    /// Recompute the color from the current age and lifetime.
    pub fn set_color(&mut self)
        ensures
            final(self).color == color_for(old(self).age, old(self).lifetime),
            final(self).content == old(self).content,
            final(self).emphasis == old(self).emphasis,
            final(self).age == old(self).age,
            final(self).lifetime == old(self).lifetime,
    {
        let dark_green_breakpoint: u8 = ((self.lifetime as u16 * 6) / 10) as u8;
        let dark_grey_breakpoint: u8 = ((self.lifetime as u16 * 4) / 10) as u8;

        if self.age == 1 {
            self.color = Color::BrightGreen;
        } else if self.age <= dark_green_breakpoint {
            self.color = Color::DarkGreen;
        } else if self.age <= dark_grey_breakpoint {
            self.color = Color::DarkGrey;
        } else {
            self.color = Color::Black;
        }
    }

    /// Recompute the emphasis from the current age and lifetime.
    pub fn set_attribute(&mut self)
        ensures
            final(self).emphasis == emphasis_for(old(self).age, old(self).lifetime),
            final(self).content == old(self).content,
            final(self).color == old(self).color,
            final(self).age == old(self).age,
            final(self).lifetime == old(self).lifetime,
    {
        if self.age > 1 && self.age <= self.lifetime {
            self.emphasis = Emphasis::Dim;
        } else {
            self.emphasis = Emphasis::Normal;
        }
    }

    /// Force the cell back to the blank state.
    pub fn reset(&mut self)
        ensures
            *final(self) == Pixel::blank(),
    {
        *self = Pixel::default();
    }

    /// Occupy the cell as the head of a stream: age 1, the given lifetime and
    /// glyph, styled as a head (bright green, no emphasis).
    pub fn activate(&mut self, lifetime: u8, glyph: Content)
        requires
            lifetime >= 1,
            glyph != Content::Empty,
        ensures
            *final(self) == (Pixel {
                content: glyph,
                color: Color::BrightGreen,
                emphasis: Emphasis::Normal,
                age: 1,
                lifetime: lifetime,
            }),
            final(self).wf(),
    {
        self.age = 1;
        self.lifetime = lifetime;
        self.content = glyph;
        self.set_color();
        self.set_attribute();
    }

    /// One tick of aging for an occupied cell: the age grows by one and the
    /// styling follows it, or the cell resets to blank once the new age would
    /// pass the lifetime.
    pub fn advance(&mut self)
        requires
            old(self).age >= 1,
        ensures
            *final(self) == step_cell(*old(self)),
            old(self).age + 1 > old(self).lifetime ==> *final(self) == Pixel::blank(),
            old(self).age + 1 <= old(self).lifetime ==> {
                &&& final(self).age == old(self).age + 1
                &&& final(self).lifetime == old(self).lifetime
                &&& final(self).content == old(self).content
                &&& final(self).color == color_for(final(self).age, old(self).lifetime)
                &&& final(self).emphasis == emphasis_for(final(self).age, old(self).lifetime)
            },
    {
        if self.age >= self.lifetime {
            self.reset();
        } else {
            self.age = self.age + 1;
            self.set_color();
            self.set_attribute();
        }
    }

    /// A freshly randomized digit for a cell that is lighting up; never blank.
    pub fn new_content(&self) -> (glyph: Content)
        ensures
            glyph == Content::Zero || glyph == Content::One,
    {
        if crate::random::random_ratio(1, 2) {
            Content::One
        } else {
            Content::Zero
        }
    }

}

impl Content {
    /// The character this glyph state is drawn with.
    pub fn symbol(&self) -> (c: char)
        ensures
            *self == Content::Empty ==> c == ' ',
            *self == Content::Zero ==> c == '0',
            *self == Content::One ==> c == '1',
    {
        match self {
            Content::Empty => ' ',
            Content::Zero => '0',
            Content::One => '1',
        }
    }
}

impl Default for Pixel {
    /// A blank cell.
    fn default() -> (p: Pixel)
        ensures
            p == Pixel::blank(),
    {
        Pixel {
            content: Content::Empty,
            color: Color::Black,
            emphasis: Emphasis::Normal,
            age: 0,
            lifetime: 0,
        }
    }
}

/// A cell that satisfies the cell invariant is blank exactly when its age
/// is 0: occupied cells always show a digit, and age-0 cells show nothing.
pub proof fn lemma_blank_iff_age_zero(c: Pixel)
    requires
        c.wf(),
    ensures
        c.age == 0 <==> c.is_blank(),
{
}

/// Aging keeps the cell invariant.
pub proof fn lemma_step_cell_wf(c: Pixel)
    requires
        c.wf(),
    ensures
        step_cell(c).wf(),
{
}

} // verus!
