use vstd::prelude::*;

verus! {

/// The sixteen terminal colors the clock can be drawn in: eight hues and
/// their bright variants, in the order in which the color keys cycle.
#[derive(Clone, Copy, Debug, PartialEq, Eq, Structural)]
pub enum Color {
    Black,
    Red,
    Green,
    Yellow,
    Blue,
    Magenta,
    Cyan,
    White,
    BrightBlack,
    BrightRed,
    BrightGreen,
    BrightYellow,
    BrightBlue,
    BrightMagenta,
    BrightCyan,
    BrightWhite,
}

/// How many colors there are.
pub const COLOR_COUNT: u8 = 16;

/// How many hues there are; each has a plain and a bright variant.
pub const HUE_COUNT: u8 = 8;

/// The place of a color in the cycle: hues first, bright variants after.
pub open spec fn color_index(c: Color) -> int {
    match c {
        Color::Black => 0,
        Color::Red => 1,
        Color::Green => 2,
        Color::Yellow => 3,
        Color::Blue => 4,
        Color::Magenta => 5,
        Color::Cyan => 6,
        Color::White => 7,
        Color::BrightBlack => 8,
        Color::BrightRed => 9,
        Color::BrightGreen => 10,
        Color::BrightYellow => 11,
        Color::BrightBlue => 12,
        Color::BrightMagenta => 13,
        Color::BrightCyan => 14,
        Color::BrightWhite => 15,
    }
}

/// The name of a hue, by its place among the eight.
pub open spec fn hue_name(h: int) -> Seq<char> {
    if h == 0 {
        "black"@
    } else if h == 1 {
        "red"@
    } else if h == 2 {
        "green"@
    } else if h == 3 {
        "yellow"@
    } else if h == 4 {
        "blue"@
    } else if h == 5 {
        "magenta"@
    } else if h == 6 {
        "cyan"@
    } else {
        "white"@
    }
}

/// The kebab-case name of a color in the configuration file: the hue's
/// name, with "bright-" in front for the bright variants.
pub open spec fn spec_color_name(c: Color) -> Seq<char> {
    let i = color_index(c);
    if i < HUE_COUNT {
        hue_name(i)
    } else {
        "bright-"@ + hue_name(i - HUE_COUNT)
    }
}

/// The color that a name in the configuration file stands for, if any.
pub open spec fn color_named(s: Seq<char>) -> Option<Color> {
    if exists|c: Color| spec_color_name(c) == s {
        Some(choose|c: Color| spec_color_name(c) == s)
    } else {
        None
    }
}

/// A color is determined by its place in the cycle.
pub proof fn lemma_color_index_injective(a: Color, b: Color)
    ensures
        0 <= color_index(a) < COLOR_COUNT,
        color_index(a) == color_index(b) ==> a == b,
{
}

/// The hue names differ from each other and are at most seven characters long.
proof fn lemma_hue_names(h: int, k: int)
    requires
        0 <= h < HUE_COUNT,
        0 <= k < HUE_COUNT,
    ensures
        3 <= hue_name(h).len() <= 7,
        hue_name(h) == hue_name(k) ==> h == k,
{
    reveal_strlit("black");
    reveal_strlit("red");
    reveal_strlit("green");
    reveal_strlit("yellow");
    reveal_strlit("blue");
    reveal_strlit("magenta");
    reveal_strlit("cyan");
    reveal_strlit("white");
    if hue_name(h) == hue_name(k) && h != k {
        assert(hue_name(h).len() == hue_name(k).len());
        assert(hue_name(h)[0] == hue_name(k)[0]);
    }
}

/// Different colors have different names, so reading a color's name gives
/// the color back.
pub proof fn lemma_color_name_roundtrip(c: Color)
    ensures
        color_named(spec_color_name(c)) == Some(c),
{
    reveal_strlit("bright-");
    assert forall|d: Color| spec_color_name(d) == spec_color_name(c) implies d == c by {
        let i = color_index(c);
        let j = color_index(d);
        lemma_color_index_injective(c, d);
        lemma_color_index_injective(d, c);
        if i < HUE_COUNT && j < HUE_COUNT {
            lemma_hue_names(i, j);
        } else if i >= HUE_COUNT && j >= HUE_COUNT {
            assert(hue_name(i - HUE_COUNT) =~= spec_color_name(c).subrange(7, spec_color_name(c).len() as int));
            assert(hue_name(j - HUE_COUNT) =~= spec_color_name(d).subrange(7, spec_color_name(d).len() as int));
            lemma_hue_names(i - HUE_COUNT, j - HUE_COUNT);
        } else if i < HUE_COUNT {
            lemma_hue_names(i, 0);
            lemma_hue_names(j - HUE_COUNT, 0);
            assert(spec_color_name(c).len() <= 7);
            assert(spec_color_name(d).len() >= 10);
        } else {
            lemma_hue_names(j, 0);
            lemma_hue_names(i - HUE_COUNT, 0);
            assert(spec_color_name(d).len() <= 7);
            assert(spec_color_name(c).len() >= 10);
        }
    }
}

/// Whether `n` comes right after `c` in the cycle; the last color is
/// followed by the first.
pub open spec fn is_next_color(c: Color, n: Color) -> bool {
    color_index(n) == (color_index(c) + 1) % (COLOR_COUNT as int)
}

/// The color at a place of the cycle.
pub open spec fn color_at(i: int) -> Color {
    choose|c: Color| color_index(c) == i
}

/// Every place of the cycle holds a color.
pub proof fn lemma_color_at(i: int)
    requires
        0 <= i < COLOR_COUNT,
    ensures
        color_index(color_at(i)) == i,
{
    let c = if i < HUE_COUNT {
        if i == 0 { Color::Black } else if i == 1 { Color::Red } else if i == 2 { Color::Green }
        else if i == 3 { Color::Yellow } else if i == 4 { Color::Blue } else if i == 5 { Color::Magenta }
        else if i == 6 { Color::Cyan } else { Color::White }
    } else {
        if i == 8 { Color::BrightBlack } else if i == 9 { Color::BrightRed } else if i == 10 { Color::BrightGreen }
        else if i == 11 { Color::BrightYellow } else if i == 12 { Color::BrightBlue } else if i == 13 { Color::BrightMagenta }
        else if i == 14 { Color::BrightCyan } else { Color::BrightWhite }
    };
    assert(color_index(c) == i);
}

/// The color after `c` in the cycle.
pub open spec fn spec_next_color(c: Color) -> Color {
    color_at((color_index(c) + 1) % (COLOR_COUNT as int))
}

/// The color before `c` in the cycle.
pub open spec fn spec_prev_color(c: Color) -> Color {
    color_at((color_index(c) + COLOR_COUNT - 1) % (COLOR_COUNT as int))
}

impl Default for Color {
    fn default() -> (c: Self)
        ensures
            c == Color::White,
    {
        Color::White
    }
}

impl Color {
    /// The place of this color in the cycle.
    pub fn index(&self) -> (i: u8)
        ensures
            i == color_index(*self),
    {
        match self {
            Color::Black => 0,
            Color::Red => 1,
            Color::Green => 2,
            Color::Yellow => 3,
            Color::Blue => 4,
            Color::Magenta => 5,
            Color::Cyan => 6,
            Color::White => 7,
            Color::BrightBlack => 8,
            Color::BrightRed => 9,
            Color::BrightGreen => 10,
            Color::BrightYellow => 11,
            Color::BrightBlue => 12,
            Color::BrightMagenta => 13,
            Color::BrightCyan => 14,
            Color::BrightWhite => 15,
        }
    }

    /// The color at a place of the cycle.
    pub fn from_index(i: u8) -> (c: Color)
        requires
            i < COLOR_COUNT,
        ensures
            color_index(c) == i,
    {
        let hue = i % HUE_COUNT;
        let bright = i >= HUE_COUNT;
        if hue == 0 {
            if bright { Color::BrightBlack } else { Color::Black }
        } else if hue == 1 {
            if bright { Color::BrightRed } else { Color::Red }
        } else if hue == 2 {
            if bright { Color::BrightGreen } else { Color::Green }
        } else if hue == 3 {
            if bright { Color::BrightYellow } else { Color::Yellow }
        } else if hue == 4 {
            if bright { Color::BrightBlue } else { Color::Blue }
        } else if hue == 5 {
            if bright { Color::BrightMagenta } else { Color::Magenta }
        } else if hue == 6 {
            if bright { Color::BrightCyan } else { Color::Cyan }
        } else {
            if bright { Color::BrightWhite } else { Color::White }
        }
    }

    /// The name of the color in the configuration file.
    pub fn as_toml_string(&self) -> (s: String)
        ensures
            s@ == spec_color_name(*self),
    {
        let i = self.index();
        let h = i % HUE_COUNT;
        let hue: &str = if h == 0 {
            "black"
        } else if h == 1 {
            "red"
        } else if h == 2 {
            "green"
        } else if h == 3 {
            "yellow"
        } else if h == 4 {
            "blue"
        } else if h == 5 {
            "magenta"
        } else if h == 6 {
            "cyan"
        } else {
            "white"
        };
        if i < HUE_COUNT {
            hue.to_owned()
        } else {
            String::from_str("bright-").concat(hue)
        }
    }
}

/// The color that the forward color key switches to.
pub fn next_color(c: &Color) -> (r: Color)
    ensures
        r == spec_next_color(*c),
        is_next_color(*c, r),
{
    let r = Color::from_index((c.index() + 1) % COLOR_COUNT);
    proof {
        lemma_color_at((color_index(*c) + 1) % (COLOR_COUNT as int));
        lemma_color_index_injective(r, spec_next_color(*c));
    }
    r
}

/// The color that the backward color key switches to.
pub fn prev_color(c: &Color) -> (r: Color)
    ensures
        r == spec_prev_color(*c),
        is_next_color(r, *c),
{
    let r = Color::from_index((c.index() + COLOR_COUNT - 1) % COLOR_COUNT);
    proof {
        lemma_color_at((color_index(*c) + COLOR_COUNT - 1) % (COLOR_COUNT as int));
        lemma_color_index_injective(r, spec_prev_color(*c));
    }
    r
}

/// Stepping back undoes stepping forward and the other way round, and a
/// step always changes the color.
pub proof fn lemma_color_cycle_inverse(c: Color)
    ensures
        spec_prev_color(spec_next_color(c)) == c,
        spec_next_color(spec_prev_color(c)) == c,
        spec_next_color(c) != c,
        spec_prev_color(c) != c,
{
    let i = color_index(c);
    lemma_color_index_injective(c, c);
    lemma_color_at((i + 1) % (COLOR_COUNT as int));
    lemma_color_at((i + COLOR_COUNT - 1) % (COLOR_COUNT as int));
    let n = spec_next_color(c);
    let p = spec_prev_color(c);
    lemma_color_at((color_index(n) + COLOR_COUNT - 1) % (COLOR_COUNT as int));
    lemma_color_at((color_index(p) + 1) % (COLOR_COUNT as int));
    lemma_color_index_injective(spec_prev_color(n), c);
    lemma_color_index_injective(spec_next_color(p), c);
    lemma_color_index_injective(n, c);
    lemma_color_index_injective(p, c);
}

} // verus!
