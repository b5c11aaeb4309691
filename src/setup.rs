use crate::building::PlacementOptions;
use crate::donation::{restrict_spec, Cards, Donations, CARD_SALT};
use crate::layout::{all_tokens, place_spec, standard_tokens, Buildings, Layout};
use crate::shuffle::{lemma_shuffle_ignores_order, shuffle_spec};
use crate::visibility::{disks_for, Players};
use vstd::prelude::*;

verus! {

/// The donation cards 0 to 19, in order.
pub open spec fn standard_cards() -> Seq<u8> {
    Seq::new(20, |i: int| i as u8)
}

/// A complete game setup: the building layout and the blocked spaces.
pub struct Setup {
    pub layout: Layout,
    pub donations: Donations,
}

/// Builds the setup for `seed`: the buildings and the cards are shuffled
/// with the seed (the cards with their own salt), then laid out and
/// restricted.
pub fn generate(seed: u64, options: PlacementOptions, players: Players) -> (s: Setup)
    ensures
        s.layout@ == place_spec(shuffle_spec(seed, 0, standard_tokens()), options).order,
        s.donations@.0 == restrict_spec(
            shuffle_spec(seed, CARD_SALT, standard_cards()),
            disks_for(players),
        ).blocked,
        s.donations@.1 == restrict_spec(
            shuffle_spec(seed, CARD_SALT, standard_cards()),
            disks_for(players),
        ).used,
{
    let mut buildings = Buildings::default();
    proof {
        assert(all_tokens(standard_tokens()));
    }
    buildings.rand(seed);
    let layout = buildings.layout(options);
    let mut cards = Cards::default();
    proof {
        assert(cards@ =~= standard_cards());
    }
    cards.rand(seed);
    let donations = cards.donations(players);
    Setup { layout, donations }
}

/// Reproducibility: the same seed and options give the same layout and the
/// same blocked spaces, whatever order the tokens and cards were in before.
pub proof fn lemma_reproducible(
    seed: u64,
    options: PlacementOptions,
    budget: usize,
    tokens1: Seq<u8>,
    tokens2: Seq<u8>,
    cards1: Seq<u8>,
    cards2: Seq<u8>,
)
    requires
        tokens1.to_multiset() == tokens2.to_multiset(),
        cards1.to_multiset() == cards2.to_multiset(),
    ensures
        place_spec(shuffle_spec(seed, 0, tokens1), options) == place_spec(
            shuffle_spec(seed, 0, tokens2),
            options,
        ),
        restrict_spec(shuffle_spec(seed, CARD_SALT, cards1), budget) == restrict_spec(
            shuffle_spec(seed, CARD_SALT, cards2),
            budget,
        ),
{
    lemma_shuffle_ignores_order(seed, 0, tokens1, tokens2);
    lemma_shuffle_ignores_order(seed, CARD_SALT, cards1, cards2);
}

} // verus!
