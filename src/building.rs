use vstd::prelude::*;

verus! {

/// Which department tiles take part in a layout.
#[derive(Copy, Clone, Debug, PartialEq, Eq, Structural)]
pub enum Tiles {
    Base,
    Both,
    Expansion,
}

/// The most distinct departments a row may hold.
#[derive(Copy, Clone, Debug, PartialEq, Eq, Structural)]
pub enum LimitTypes {
    Four,
    Five,
    Six,
    All,
}

/// Bounds on the number of distinct permanent (blue) departments per row.
#[derive(Copy, Clone, Debug, PartialEq, Eq, Structural)]
pub enum Permanent {
    Zero,
    ZeroPlus,
    One,
    OnePlus,
    Two,
}

/// A department tile; its identity is its value, from 1 to 32.
#[derive(Copy, Clone, Debug, PartialEq, Eq, Structural)]
pub struct Building(pub u8);

pub open spec fn is_token_value(v: int) -> bool {
    1 <= v <= 32
}

/// The row of a value: values run in blocks of four, cycling over four rows.
pub open spec fn row_of(v: int) -> int {
    ((v - 1) / 4) % 4
}

/// Whether a value is a permanent (blue) department.
pub open spec fn is_blue(v: int) -> bool {
    (if v <= 16 { v - 1 } else { v }) % 4 == 3
}

/// Whether a value belongs to the chosen tile set.
pub open spec fn in_tiles(v: int, tiles: Tiles) -> bool {
    match tiles {
        Tiles::Base => v <= 16,
        Tiles::Both => true,
        Tiles::Expansion => v >= 17,
    }
}

pub open spec fn limit_value(l: LimitTypes) -> int {
    match l {
        LimitTypes::Four => 4,
        LimitTypes::Five => 5,
        LimitTypes::Six => 6,
        LimitTypes::All => 8,
    }
}

pub open spec fn permanent_min(p: Permanent) -> int {
    match p {
        Permanent::Zero => 0,
        Permanent::ZeroPlus => 0,
        Permanent::One => 1,
        Permanent::OnePlus => 1,
        Permanent::Two => 2,
    }
}

pub open spec fn permanent_max(p: Permanent) -> int {
    match p {
        Permanent::Zero => 0,
        Permanent::ZeroPlus => 2,
        Permanent::One => 1,
        Permanent::OnePlus => 2,
        Permanent::Two => 2,
    }
}

impl Building {
    pub fn new(value: u8) -> (b: Building)
        ensures
            b.0 == value,
    {
        Building(value)
    }

    pub fn value(&self) -> (r: u8)
        ensures
            r == self.0,
    {
        self.0
    }

    pub fn row(&self) -> (r: usize)
        requires
            1 <= self.0,
        ensures
            r == row_of(self.0 as int),
            r < 4,
    {
        let v: u8 = self.0 - 1;
        let r: u8 = (v >> 2) & 3;
        assert((v >> 2) & 3 == (v / 4) % 4) by (bit_vector);
        r as usize
    }

    pub fn blue(&self) -> (r: bool)
        requires
            1 <= self.0,
        ensures
            r == is_blue(self.0 as int),
    {
        let v: u8 = if self.0 <= 16 {
            self.0 - 1
        } else {
            self.0
        };
        assert(v & 3 == v % 4) by (bit_vector);
        v & 3 == 3
    }

    pub fn is_tile(&self, tiles: Tiles) -> (r: bool)
        ensures
            r == in_tiles(self.0 as int, tiles),
    {
        match tiles {
            Tiles::Base => self.0 <= 16,
            Tiles::Both => true,
            Tiles::Expansion => self.0 >= 17,
        }
    }
}

impl LimitTypes {
    /// The limit as a number of distinct departments.
    pub fn count(&self) -> (r: usize)
        ensures
            r == limit_value(*self),
    {
        match self {
            LimitTypes::Four => 4,
            LimitTypes::Five => 5,
            LimitTypes::Six => 6,
            LimitTypes::All => 8,
        }
    }
}

impl Permanent {
    pub fn min(&self) -> (r: usize)
        ensures
            r == permanent_min(*self),
    {
        match self {
            Permanent::Zero => 0,
            Permanent::ZeroPlus => 0,
            Permanent::One => 1,
            Permanent::OnePlus => 1,
            Permanent::Two => 2,
        }
    }

    pub fn max(&self) -> (r: usize)
        ensures
            r == permanent_max(*self),
    {
        match self {
            Permanent::Zero => 0,
            Permanent::ZeroPlus => 2,
            Permanent::One => 1,
            Permanent::OnePlus => 2,
            Permanent::Two => 2,
        }
    }
}

/// The options that shape a building layout.
#[derive(Copy, Clone, Debug, PartialEq, Eq, Structural)]
pub struct PlacementOptions {
    pub tiles: Tiles,
    pub limit: LimitTypes,
    pub permanent: Permanent,
}

} // verus!
