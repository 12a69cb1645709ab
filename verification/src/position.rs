use vstd::prelude::*;

verus! {

/// Where the clock is placed along one axis of the terminal.
#[derive(Clone, Copy, Debug, PartialEq, Eq, Structural)]
pub enum Position {
    Start,
    Center,
    End,
}

/// The row or column at which the clock starts, for a terminal side of
/// `len` cells and a clock that takes `offset` cells on each side of its
/// middle (`offset` is half the clock's extent).
pub open spec fn spec_calculate(pos: Position, len: u16, offset: u16) -> int {
    match pos {
        Position::Start => 1,
        Position::Center => if len / 2 >= offset { len / 2 - offset } else { 0 },
        Position::End => if len >= offset * 2 + 2 { len - (offset * 2 + 2) } else { 0 },
    }
}

/// Where the clock starts on a side: one cell in from the near edge at the
/// start; with its middle on the middle cell in the center; at the end,
/// with its extent (twice the offset) and a margin of two cells reaching
/// exactly the far edge. Where the side is too short, it starts at cell 0.
pub proof fn lemma_placement(len: u16, offset: u16)
    ensures
        spec_calculate(Position::Start, len, offset) == 1,
        len / 2 >= offset ==> spec_calculate(Position::Center, len, offset) + offset == len / 2,
        len / 2 < offset ==> spec_calculate(Position::Center, len, offset) == 0,
        len >= 2 * offset + 2 ==> spec_calculate(Position::End, len, offset) + 2 * offset + 2 == len,
        len < 2 * offset + 2 ==> spec_calculate(Position::End, len, offset) == 0,
{
}

/// The end placement mirrors the start: the clock placed at the start keeps
/// one cell before it, and placed at the end it keeps two cells after its
/// extent, on every side long enough for both.
pub proof fn lemma_end_mirrors_start(len: u16, offset: u16)
    requires
        len >= 2 * offset + 2,
    ensures
        len - (spec_calculate(Position::End, len, offset) + 2 * offset) == 2,
        spec_calculate(Position::Start, len, offset) - 0 == 1,
{
}

/// The name of a position in the configuration file.
pub open spec fn spec_toml_name(pos: Position) -> Seq<char> {
    match pos {
        Position::Start => "start"@,
        Position::Center => "center"@,
        Position::End => "end"@,
    }
}

impl Default for Position {
    fn default() -> (p: Self)
        ensures
            p == Position::Center,
    {
        Position::Center
    }
}

impl Position {
    /// The starting cell of the clock; the subtractions saturate at zero.
    pub fn calculate(&self, len: u16, offset: u16) -> (r: u16)
        requires
            *self == Position::End ==> offset * 2 + 2 <= u16::MAX,
        ensures
            r == spec_calculate(*self, len, offset),
            *self == Position::Start ==> r == 1,
            *self == Position::End && len >= offset * 2 + 2 ==> r + offset * 2 + 2 == len,
            *self == Position::End && len < offset * 2 + 2 ==> r == 0,
            *self == Position::Center && len / 2 >= offset ==> r + offset == len / 2,
            *self == Position::Center && len / 2 < offset ==> r == 0,
    {
        match self {
            Position::Start => 1,
            Position::Center => (len / 2).saturating_sub(offset),
            Position::End => len.saturating_sub(offset * 2 + 2),
        }
    }

    /// The lowercase name used for this position in the configuration file.
    pub fn as_toml_str(&self) -> (s: &'static str)
        ensures
            s@ == spec_toml_name(*self),
    {
        match self {
            Position::Start => "start",
            Position::Center => "center",
            Position::End => "end",
        }
    }
}

/// The position that a name in the configuration file stands for.
pub open spec fn position_named(s: Seq<char>) -> Option<Position> {
    if s == "start"@ {
        Some(Position::Start)
    } else if s == "center"@ {
        Some(Position::Center)
    } else if s == "end"@ {
        Some(Position::End)
    } else {
        None
    }
}

/// Reading a position's name gives the position back.
pub proof fn lemma_position_name_roundtrip(p: Position)
    ensures
        position_named(spec_toml_name(p)) == Some(p),
{
    reveal_strlit("start");
    reveal_strlit("center");
    reveal_strlit("end");
    assert("center"@.len() != "start"@.len());
    assert("end"@.len() != "start"@.len());
    assert("end"@.len() != "center"@.len());
}

} // verus!
