use crate::city::{
    card_cities, cities_of_card, city_index, city_spaces, City, CARD_COUNT, CITY_COUNT,
};
use crate::shuffle::{seeded_shuffle, shuffle_spec};
use crate::visibility::{disks_for, Players};
use vstd::prelude::*;

verus! {

broadcast use vstd::seq_lib::group_to_multiset_ensures;

/// The salt that separates the card shuffle from the building shuffle.
pub const CARD_SALT: u64 = 0x4362256e;

/// The state of the donation pass: which donation cells are blocked (by card
/// index), how many spaces of each city are blocked (by city index), and how
/// many blocking disks are left.
pub struct DonationModel {
    pub blocked: Seq<bool>,
    pub used: Seq<usize>,
    pub disks: usize,
}

pub open spec fn empty_model(budget: usize) -> DonationModel {
    DonationModel {
        blocked: Seq::new(CARD_COUNT as nat, |i: int| false),
        used: Seq::new(CITY_COUNT as nat, |i: int| 0usize),
        disks: budget,
    }
}

/// Blocks the donation cell of card `idx` if it is free and a disk is left.
pub open spec fn block_cell(s: DonationModel, idx: int) -> DonationModel {
    if s.disks > 0 && !s.blocked[idx] {
        DonationModel {
            blocked: s.blocked.update(idx, true),
            used: s.used,
            disks: (s.disks - 1) as usize,
        }
    } else {
        s
    }
}

/// Blocks one space of city `c` if it has a free space and a disk is left.
pub open spec fn block_city(s: DonationModel, c: City) -> DonationModel {
    let i = city_index(c);
    if s.disks > 0 && s.used[i] < city_spaces(c) {
        DonationModel {
            blocked: s.blocked,
            used: s.used.update(i, (s.used[i] + 1) as usize),
            disks: (s.disks - 1) as usize,
        }
    } else {
        s
    }
}

/// Blocks spaces of the cities `cs`, in order, while disks are left.
pub open spec fn block_cities(s: DonationModel, cs: Seq<City>) -> DonationModel
    decreases cs.len(),
{
    if cs.len() == 0 {
        s
    } else {
        block_cities(block_city(s, cs[0]), cs.drop_first())
    }
}

/// One card: its donation cell first, then its cities in the card's order.
pub open spec fn card_step(s: DonationModel, idx: int) -> DonationModel {
    block_cities(block_cell(s, idx), card_cities(idx))
}

/// The state after going through `cards` in order.
pub open spec fn restrict_from(s: DonationModel, cards: Seq<u8>) -> DonationModel
    decreases cards.len(),
{
    if cards.len() == 0 {
        s
    } else {
        restrict_from(card_step(s, cards[0] as int), cards.drop_first())
    }
}

/// The result of the donation pass over the shuffled cards with `budget` disks.
pub open spec fn restrict_spec(cards: Seq<u8>, budget: usize) -> DonationModel {
    restrict_from(empty_model(budget), cards)
}

pub open spec fn count_true(s: Seq<bool>) -> int
    decreases s.len(),
{
    if s.len() == 0 {
        0
    } else {
        count_true(s.drop_last()) + if s.last() {
            1int
        } else {
            0
        }
    }
}

pub open spec fn total(s: Seq<usize>) -> int
    decreases s.len(),
{
    if s.len() == 0 {
        0
    } else {
        total(s.drop_last()) + s.last()
    }
}

/// What the pass keeps at every point: each city has at most its spaces
/// blocked, and the blocked cells, blocked city spaces and remaining disks
/// add up to the budget.
pub open spec fn donation_ok(s: DonationModel, budget: usize) -> bool {
    &&& s.blocked.len() == CARD_COUNT
    &&& s.used.len() == CITY_COUNT
    &&& forall|c: City| #[trigger] s.used[city_index(c)] <= city_spaces(c)
    &&& count_true(s.blocked) + total(s.used) + s.disks == budget
}

pub open spec fn all_cards(cards: Seq<u8>) -> bool {
    forall|i: int| 0 <= i < cards.len() ==> #[trigger] cards[i] < CARD_COUNT
}

proof fn lemma_count_true_set(s: Seq<bool>, i: int)
    requires
        0 <= i < s.len(),
        !s[i],
    ensures
        count_true(s.update(i, true)) == count_true(s) + 1,
    decreases s.len(),
{
    if i == s.len() - 1 {
        assert(s.update(i, true).drop_last() =~= s.drop_last());
    } else {
        lemma_count_true_set(s.drop_last(), i);
        assert(s.update(i, true).drop_last() =~= s.drop_last().update(i, true));
    }
}

proof fn lemma_total_incr(s: Seq<usize>, i: int, x: usize)
    requires
        0 <= i < s.len(),
        x == s[i] + 1,
    ensures
        total(s.update(i, x)) == total(s) + 1,
    decreases s.len(),
{
    if i == s.len() - 1 {
        assert(s.update(i, x).drop_last() =~= s.drop_last());
    } else {
        lemma_total_incr(s.drop_last(), i, x);
        assert(s.update(i, x).drop_last() =~= s.drop_last().update(i, x));
    }
}

proof fn lemma_count_true_none(n: nat)
    ensures
        count_true(Seq::new(n, |i: int| false)) == 0,
    decreases n,
{
    if n > 0 {
        lemma_count_true_none((n - 1) as nat);
        let s = Seq::new(n, |i: int| false);
        assert(s.drop_last() =~= Seq::new((n - 1) as nat, |i: int| false));
    }
}

proof fn lemma_total_none(n: nat)
    ensures
        total(Seq::new(n, |i: int| 0usize)) == 0,
    decreases n,
{
    if n > 0 {
        lemma_total_none((n - 1) as nat);
        let s = Seq::new(n, |i: int| 0usize);
        assert(s.drop_last() =~= Seq::new((n - 1) as nat, |i: int| 0usize));
    }
}

proof fn lemma_empty_ok(budget: usize)
    ensures
        donation_ok(empty_model(budget), budget),
{
    lemma_count_true_none(CARD_COUNT as nat);
    lemma_total_none(CITY_COUNT as nat);
}

proof fn lemma_city_index_range(c: City)
    ensures
        0 <= city_index(c) < CITY_COUNT,
{
}

proof fn lemma_block_city_ok(s: DonationModel, c: City, budget: usize)
    requires
        donation_ok(s, budget),
    ensures
        donation_ok(block_city(s, c), budget),
{
    let t = block_city(s, c);
    let i = city_index(c);
    lemma_city_index_range(c);
    if t != s {
        lemma_total_incr(s.used, i, (s.used[i] + 1) as usize);
        assert forall|d: City| #[trigger] t.used[city_index(d)] <= city_spaces(d) by {
            lemma_city_index_range(d);
        }
    }
}

proof fn lemma_block_cities_ok(s: DonationModel, cs: Seq<City>, budget: usize)
    requires
        donation_ok(s, budget),
    ensures
        donation_ok(block_cities(s, cs), budget),
    decreases cs.len(),
{
    if cs.len() > 0 {
        lemma_block_city_ok(s, cs[0], budget);
        lemma_block_cities_ok(block_city(s, cs[0]), cs.drop_first(), budget);
    }
}

proof fn lemma_block_cell_ok(s: DonationModel, idx: int, budget: usize)
    requires
        donation_ok(s, budget),
        0 <= idx < CARD_COUNT,
    ensures
        donation_ok(block_cell(s, idx), budget),
{
    if block_cell(s, idx) != s {
        lemma_count_true_set(s.blocked, idx);
    }
}

proof fn lemma_card_step_ok(s: DonationModel, idx: int, budget: usize)
    requires
        donation_ok(s, budget),
        0 <= idx < CARD_COUNT,
    ensures
        donation_ok(card_step(s, idx), budget),
{
    let t = block_cell(s, idx);
    if t != s {
        lemma_count_true_set(s.blocked, idx);
    }
    lemma_block_cities_ok(t, card_cities(idx), budget);
}

proof fn lemma_restrict_from_ok(s: DonationModel, cards: Seq<u8>, budget: usize)
    requires
        donation_ok(s, budget),
        all_cards(cards),
    ensures
        donation_ok(restrict_from(s, cards), budget),
    decreases cards.len(),
{
    if cards.len() > 0 {
        assert(cards[0] < CARD_COUNT);
        lemma_card_step_ok(s, cards[0] as int, budget);
        lemma_restrict_from_ok(card_step(s, cards[0] as int), cards.drop_first(), budget);
    }
}

proof fn lemma_block_cities_spent(s: DonationModel, cs: Seq<City>)
    requires
        s.disks == 0,
    ensures
        block_cities(s, cs) == s,
    decreases cs.len(),
{
    if cs.len() > 0 {
        lemma_block_cities_spent(s, cs.drop_first());
    }
}

/// With no disks left, the remaining cards change nothing.
proof fn lemma_restrict_spent(s: DonationModel, cards: Seq<u8>)
    requires
        s.disks == 0,
    ensures
        restrict_from(s, cards) == s,
    decreases cards.len(),
{
    if cards.len() > 0 {
        lemma_block_cities_spent(s, card_cities(cards[0] as int));
        lemma_restrict_spent(s, cards.drop_first());
    }
}

/// Every state of the donation pass keeps each city within its spaces and
/// spends exactly the disks it blocks with, so never more than the budget.
pub proof fn lemma_restrict_ok(cards: Seq<u8>, budget: usize)
    requires
        all_cards(cards),
    ensures
        donation_ok(restrict_spec(cards, budget), budget),
        count_true(restrict_spec(cards, budget).blocked) + total(restrict_spec(cards, budget).used)
            <= budget,
{
    lemma_empty_ok(budget);
    lemma_restrict_from_ok(empty_model(budget), cards, budget);
}

/// With a budget of zero nothing is blocked.
pub proof fn lemma_no_budget(cards: Seq<u8>)
    ensures
        restrict_spec(cards, 0) == empty_model(0),
{
    lemma_restrict_spent(empty_model(0), cards);
}

/// The blocked donation cells and city spaces.
pub struct Donations {
    blocked: Vec<bool>,
    used: Vec<usize>,
}

impl View for Donations {
    type V = (Seq<bool>, Seq<usize>);

    closed spec fn view(&self) -> (Seq<bool>, Seq<usize>) {
        (self.blocked@, self.used@)
    }
}

/// Runs the donation pass: for each card in order its donation cell, then
/// each of its cities, take one disk each while disks are left; a blocked
/// cell or a full city takes none.
pub fn restrict(cards: &Vec<u8>, budget: usize) -> (d: Donations)
    requires
        all_cards(cards@),
    ensures
        d@.0 == restrict_spec(cards@, budget).blocked,
        d@.1 == restrict_spec(cards@, budget).used,
        donation_ok(restrict_spec(cards@, budget), budget),
{
    let ghost target = restrict_spec(cards@, budget);
    let mut blocked: Vec<bool> = vec![false; CARD_COUNT];
    let mut used: Vec<usize> = vec![0usize; CITY_COUNT];
    let mut disks: usize = budget;
    proof {
        assert(blocked@ =~= empty_model(budget).blocked);
        assert(used@ =~= empty_model(budget).used);
        assert(cards@.subrange(0, cards@.len() as int) =~= cards@);
        lemma_empty_ok(budget);
        lemma_restrict_ok(cards@, budget);
    }
    let mut i: usize = 0;
    while i < cards.len() && disks > 0
        invariant
            all_cards(cards@),
            i <= cards.len(),
            target == restrict_spec(cards@, budget),
            restrict_from(
                DonationModel { blocked: blocked@, used: used@, disks },
                cards@.subrange(i as int, cards@.len() as int),
            ) == target,
            donation_ok(DonationModel { blocked: blocked@, used: used@, disks }, budget),
        decreases cards.len() - i,
    {
        let ghost s0 = DonationModel { blocked: blocked@, used: used@, disks };
        let idx = cards[i];
        proof {
            assert(idx < CARD_COUNT);
            assert(cards@.subrange(i as int, cards@.len() as int).drop_first() =~= cards@.subrange(
                i + 1,
                cards@.len() as int,
            ));
            lemma_card_step_ok(s0, idx as int, budget);
        }
        if !blocked[idx as usize] {
            blocked.set(idx as usize, true);
            disks = disks - 1;
        }
        let ghost s1 = DonationModel { blocked: blocked@, used: used@, disks };
        assert(s1 == block_cell(s0, idx as int));
        proof {
            lemma_block_cell_ok(s0, idx as int, budget);
        }
        let cs = cities_of_card(idx);
        let mut j: usize = 0;
        proof {
            assert(cs@.subrange(0, cs@.len() as int) =~= cs@);
        }
        while j < cs.len() && disks > 0
            invariant
                j <= cs.len(),
                cs@ == card_cities(idx as int),
                block_cities(
                    DonationModel { blocked: blocked@, used: used@, disks },
                    cs@.subrange(j as int, cs@.len() as int),
                ) == card_step(s0, idx as int),
                donation_ok(DonationModel { blocked: blocked@, used: used@, disks }, budget),
            decreases cs.len() - j,
        {
            let ghost t0 = DonationModel { blocked: blocked@, used: used@, disks };
            let c = cs[j];
            let k = c.index();
            proof {
                assert(cs@.subrange(j as int, cs@.len() as int).drop_first() =~= cs@.subrange(
                    j + 1,
                    cs@.len() as int,
                ));
                lemma_block_city_ok(t0, c, budget);
                lemma_city_index_range(c);
            }
            let u = used[k];
            if u < c.spaces() {
                used.set(k, u + 1);
                disks = disks - 1;
            }
            assert(DonationModel { blocked: blocked@, used: used@, disks } == block_city(t0, c));
            j = j + 1;
        }
        proof {
            let s2 = DonationModel { blocked: blocked@, used: used@, disks };
            if j < cs.len() {
                lemma_block_cities_spent(s2, cs@.subrange(j as int, cs@.len() as int));
            } else {
                assert(cs@.subrange(j as int, cs@.len() as int) =~= Seq::<City>::empty());
            }
        }
        i = i + 1;
    }
    proof {
        let s = DonationModel { blocked: blocked@, used: used@, disks };
        if i < cards.len() {
            lemma_restrict_spent(s, cards@.subrange(i as int, cards@.len() as int));
        } else {
            assert(cards@.subrange(i as int, cards@.len() as int) =~= Seq::<u8>::empty());
        }
    }
    Donations { blocked, used }
}

impl Donations {
    /// Whether the donation cell in `row` (0 to 4) and `col` (0 to 3) is
    /// blocked; it belongs to card `col * 5 + row`.
    pub fn is_blocked(&self, row: usize, col: usize) -> (r: bool)
        requires
            row < 5,
            col < 4,
            self@.0.len() == CARD_COUNT,
        ensures
            r == self@.0[col * 5 + row],
    {
        self.blocked[col * 5 + row]
    }

    /// How many spaces of `city` are blocked.
    pub fn consumed(&self, city: City) -> (r: usize)
        requires
            self@.1.len() == CITY_COUNT,
        ensures
            r == self@.1[city_index(city)],
    {
        proof {
            lemma_city_index_range(city);
        }
        self.used[city.index()]
    }
}

/// The donation cards, in shuffled order.
pub struct Cards {
    order: Vec<u8>,
}

impl View for Cards {
    type V = Seq<u8>;

    closed spec fn view(&self) -> Seq<u8> {
        self.order@
    }
}

impl Default for Cards {
    fn default() -> (c: Self)
        ensures
            c@ == Seq::new(CARD_COUNT as nat, |i: int| i as u8),
    {
        let mut order: Vec<u8> = Vec::new();
        let mut i: u8 = 0;
        while i < 20
            invariant
                i <= 20,
                order@ == Seq::new(i as nat, |k: int| k as u8),
            decreases 20 - i,
        {
            order.push(i);
            assert(order@ =~= Seq::new((i + 1) as nat, |k: int| k as u8));
            i = i + 1;
        }
        Cards { order }
    }
}

impl Cards {
    /// Shuffles the cards for `seed`, with the card salt: the result depends
    /// on the seed and on which cards there are, not on their previous order.
    pub fn rand(&mut self, seed: u64)
        ensures
            final(self)@ == shuffle_spec(seed, CARD_SALT, old(self)@),
            final(self)@.to_multiset() == old(self)@.to_multiset(),
            all_cards(old(self)@) ==> all_cards(final(self)@),
    {
        seeded_shuffle(seed, CARD_SALT, &mut self.order);
        proof {
            let a = old(self)@;
            let b = self@;
            if all_cards(a) {
                assert forall|i: int| 0 <= i < b.len() implies #[trigger] b[i] < CARD_COUNT by {
                    assert(b.contains(b[i]));
                    assert(b.to_multiset().count(b[i]) > 0);
                    assert(a.contains(b[i]));
                }
            }
        }
    }

    /// The donation cells and city spaces blocked for `players`.
    pub fn donations(&self, players: Players) -> (d: Donations)
        requires
            all_cards(self@),
        ensures
            d@.0 == restrict_spec(self@, disks_for(players)).blocked,
            d@.1 == restrict_spec(self@, disks_for(players)).used,
            donation_ok(restrict_spec(self@, disks_for(players)), disks_for(players)),
    {
        restrict(&self.order, players.disks())
    }
}

} // verus!
