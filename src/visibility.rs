use vstd::prelude::*;

verus! {

/// The player count a setup is shown for.
#[derive(Copy, Clone, Debug, PartialEq, Eq, Structural)]
pub enum Players {
    All,
    Four,
    Three,
    Two,
}

/// The reveal threshold of a player count: a copy is hidden when the low
/// bits of its insertion index cover the threshold.
pub open spec fn threshold(p: Players) -> usize {
    match p {
        Players::All => 32,
        Players::Four => 7,
        Players::Three => 3,
        Players::Two => 1,
    }
}

/// Whether the copy placed at `index` is shown for player count `p`.
pub open spec fn is_visible(index: usize, p: Players) -> bool {
    (index & threshold(p)) != threshold(p)
}

/// The donation and city spaces blocked for a player count.
pub open spec fn disks_for(p: Players) -> usize {
    match p {
        Players::All => 0,
        Players::Four => 0,
        Players::Three => 9,
        Players::Two => 18,
    }
}

impl Players {
    pub fn threshold(&self) -> (r: usize)
        ensures
            r == threshold(*self),
    {
        match self {
            Players::All => 32,
            Players::Four => 7,
            Players::Three => 3,
            Players::Two => 1,
        }
    }

    /// How many donation and city spaces are blocked.
    pub fn disks(&self) -> (r: usize)
        ensures
            r == disks_for(*self),
    {
        match self {
            Players::All => 0,
            Players::Four => 0,
            Players::Three => 9,
            Players::Two => 18,
        }
    }
}

/// Whether the copy placed at `index` is shown for `players`.
pub fn visible(index: usize, players: Players) -> (r: bool)
    ensures
        r == is_visible(index, players),
{
    let t = players.threshold();
    index & t != t
}

/// The reveal pattern in arithmetic terms: for two players every second
/// copy is hidden, for three every fourth, for four every eighth, and with
/// no player count everything placed is shown.
pub proof fn lemma_visible_pattern(index: usize)
    ensures
        is_visible(index, Players::Two) == (index % 2 != 1),
        is_visible(index, Players::Three) == (index % 4 != 3),
        is_visible(index, Players::Four) == (index % 8 != 7),
        index < 32 ==> is_visible(index, Players::All),
{
    assert((index & 1) == index % 2) by (bit_vector);
    assert((index & 3) == index % 4) by (bit_vector);
    assert((index & 7) == index % 8) by (bit_vector);
    assert(index < 32 ==> (index & 32) == 0) by (bit_vector);
}

/// The shown copies are nested: what is shown for fewer players is also
/// shown for more, and every placed copy is shown with no player count.
pub proof fn lemma_visible_nested(index: usize)
    requires
        index < 32,
    ensures
        is_visible(index, Players::Two) ==> is_visible(index, Players::Three),
        is_visible(index, Players::Three) ==> is_visible(index, Players::Four),
        is_visible(index, Players::Four) ==> is_visible(index, Players::All),
{
    lemma_visible_pattern(index);
}

} // verus!
