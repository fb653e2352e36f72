use vstd::prelude::*;

verus! {

/// Elemental affinity of a character variant.
#[derive(Debug, Clone, Copy, PartialEq, Eq, Structural)]
pub enum Element {
    WIND,
    FOREST,
    FIRE,
    MOUNTAIN,
    UNKNOWN,
}

/// The element selected by an element cell of the parameter table.
pub open spec fn spec_element_from(value: i32) -> Element {
    if value == 1 {
        Element::WIND
    } else if value == 2 {
        Element::FOREST
    } else if value == 3 {
        Element::FIRE
    } else if value == 4 {
        Element::MOUNTAIN
    } else {
        Element::UNKNOWN
    }
}

impl From<i32> for Element {
    fn from(value: i32) -> (r: Element) {
        match value {
            1 => Element::WIND,
            2 => Element::FOREST,
            3 => Element::FIRE,
            4 => Element::MOUNTAIN,
            _ => Element::UNKNOWN,
        }
    }
}

impl vstd::std_specs::convert::FromSpecImpl<i32> for Element {
    open spec fn obeys_from_spec() -> bool {
        true
    }

    open spec fn from_spec(value: i32) -> Element {
        spec_element_from(value)
    }
}

impl Element {
    /// The stable numeric code persisted for this element.
    pub open spec fn spec_code(self) -> u8 {
        match self {
            Element::WIND => 1,
            Element::FOREST => 2,
            Element::FIRE => 3,
            Element::MOUNTAIN => 4,
            Element::UNKNOWN => 5,
        }
    }

    pub fn code(&self) -> (r: u8)
        ensures
            r == self.spec_code(),
    {
        match self {
            Element::WIND => 1,
            Element::FOREST => 2,
            Element::FIRE => 3,
            Element::MOUNTAIN => 4,
            Element::UNKNOWN => 5,
        }
    }
}

/// Field position (primary or secondary role) of a character variant.
#[derive(Debug, Clone, Copy, PartialEq, Eq, Structural)]
pub enum Position {
    GK,
    FW,
    MF,
    DF,
    UNKNOWN,
}

/// The position selected by a role cell of the parameter table.
pub open spec fn spec_position_from(value: i32) -> Position {
    if value == 1 {
        Position::GK
    } else if value == 2 {
        Position::FW
    } else if value == 3 {
        Position::MF
    } else if value == 4 {
        Position::DF
    } else {
        Position::UNKNOWN
    }
}

impl From<i32> for Position {
    fn from(value: i32) -> (r: Position) {
        match value {
            1 => Position::GK,
            2 => Position::FW,
            3 => Position::MF,
            4 => Position::DF,
            _ => Position::UNKNOWN,
        }
    }
}

impl vstd::std_specs::convert::FromSpecImpl<i32> for Position {
    open spec fn obeys_from_spec() -> bool {
        true
    }

    open spec fn from_spec(value: i32) -> Position {
        spec_position_from(value)
    }
}

impl Position {
    /// The stable numeric code persisted for this position; it is also the
    /// role component of a growth-table key.
    pub open spec fn spec_code(self) -> u8 {
        match self {
            Position::GK => 1,
            Position::FW => 2,
            Position::MF => 3,
            Position::DF => 4,
            Position::UNKNOWN => 5,
        }
    }

    pub fn code(&self) -> (r: u8)
        ensures
            r == self.spec_code(),
    {
        match self {
            Position::GK => 1,
            Position::FW => 2,
            Position::MF => 3,
            Position::DF => 4,
            Position::UNKNOWN => 5,
        }
    }
}

/// Playstyle of a character variant.
#[derive(Debug, Clone, Copy, PartialEq, Eq, Structural)]
pub enum Style {
    BREACH,
    COUNTER,
    BOND,
    TENSION,
    ROUGH,
    JUSTICE,
    UNKNOWN,
}

/// The style selected by the playstyle cell of the parameter table.
pub open spec fn spec_style_from(value: i32) -> Style {
    if value == 0 {
        Style::BREACH
    } else if value == 1 {
        Style::COUNTER
    } else if value == 2 {
        Style::BOND
    } else if value == 3 {
        Style::TENSION
    } else if value == 4 {
        Style::ROUGH
    } else if value == 5 {
        Style::JUSTICE
    } else {
        Style::UNKNOWN
    }
}

impl From<i32> for Style {
    fn from(value: i32) -> (r: Style) {
        match value {
            0 => Style::BREACH,
            1 => Style::COUNTER,
            2 => Style::BOND,
            3 => Style::TENSION,
            4 => Style::ROUGH,
            5 => Style::JUSTICE,
            _ => Style::UNKNOWN,
        }
    }
}

impl vstd::std_specs::convert::FromSpecImpl<i32> for Style {
    open spec fn obeys_from_spec() -> bool {
        true
    }

    open spec fn from_spec(value: i32) -> Style {
        spec_style_from(value)
    }
}

impl Style {
    /// The stable numeric code persisted for this style.
    pub open spec fn spec_code(self) -> u8 {
        match self {
            Style::BREACH => 0,
            Style::COUNTER => 1,
            Style::BOND => 2,
            Style::TENSION => 3,
            Style::ROUGH => 4,
            Style::JUSTICE => 5,
            Style::UNKNOWN => 6,
        }
    }

    pub fn code(&self) -> (r: u8)
        ensures
            r == self.spec_code(),
    {
        match self {
            Style::BREACH => 0,
            Style::COUNTER => 1,
            Style::BOND => 2,
            Style::TENSION => 3,
            Style::ROUGH => 4,
            Style::JUSTICE => 5,
            Style::UNKNOWN => 6,
        }
    }
}

/// One block of seven unsigned stat magnitudes.
#[derive(Debug, Clone, Copy, PartialEq, Eq, Structural)]
pub struct Stats {
    pub kick: u16,
    pub control: u16,
    pub technique: u16,
    pub pressure: u16,
    pub physical: u16,
    pub agility: u16,
    pub intelligence: u16,
}

/// The all-zero stat block.
pub open spec fn spec_zero_stats() -> Stats {
    Stats {
        kick: 0,
        control: 0,
        technique: 0,
        pressure: 0,
        physical: 0,
        agility: 0,
        intelligence: 0,
    }
}

impl Default for Stats {
    /// A defaulted stat block has every magnitude at zero.
    fn default() -> (r: Stats)
        ensures
            r == spec_zero_stats(),
    {
        Stats {
            kick: 0,
            control: 0,
            technique: 0,
            pressure: 0,
            physical: 0,
            agility: 0,
            intelligence: 0,
        }
    }
}

/// The fully derived unit of persistence: one character variant with its
/// identity, classification and derived stat blocks.
#[derive(Debug, Clone, Copy, PartialEq, Eq, Structural)]
pub struct Character {
    pub index: i32,
    pub name_id: i32,
    pub element: Element,
    pub main_position: Position,
    pub alt_position: Position,
    pub style: Style,
    pub lvl50_stats: Stats,
    pub lvl99_stats: Stats,
    pub series_id: i32,
}

} // verus!
