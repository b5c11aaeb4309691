use crate::visibility::{is_visible, visible, Players};
use crate::building::{
    in_tiles, is_blue, is_token_value, limit_value, permanent_max, permanent_min, row_of,
    Building, PlacementOptions,
};
use crate::shuffle::{seeded_shuffle, shuffle_spec, sort_values, sorted_of};
use vstd::multiset::Multiset;
use vstd::prelude::*;

verus! {

broadcast use vstd::seq_lib::group_to_multiset_ensures;

/// The state of the greedy placement pass: the values placed so far, in the
/// order they were placed (a value's insertion indices are its positions
/// here), and how many permanent placements are still reserved across all
/// rows.
pub struct LayoutModel {
    pub order: Seq<u8>,
    pub missing: int,
}

/// How many copies of value `v` have been placed.
pub open spec fn copies(order: Seq<u8>, v: int) -> int {
    order.to_multiset().count(v as u8) as int
}

pub open spec fn has(order: Seq<u8>, v: int) -> int {
    if copies(order, v) > 0 {
        1
    } else {
        0
    }
}

/// Placed copies in row `r`, whose values are 4r+1..4r+4 and 4r+17..4r+20.
#[verifier::opaque]
pub open spec fn row_len(order: Seq<u8>, r: int) -> int {
    copies(order, 4 * r + 1) + copies(order, 4 * r + 2) + copies(order, 4 * r + 3) + copies(
        order,
        4 * r + 4,
    ) + copies(order, 4 * r + 17) + copies(order, 4 * r + 18) + copies(order, 4 * r + 19)
        + copies(order, 4 * r + 20)
}

/// Distinct values placed in row `r`.
#[verifier::opaque]
pub open spec fn row_types(order: Seq<u8>, r: int) -> int {
    has(order, 4 * r + 1) + has(order, 4 * r + 2) + has(order, 4 * r + 3) + has(order, 4 * r + 4)
        + has(order, 4 * r + 17) + has(order, 4 * r + 18) + has(order, 4 * r + 19) + has(
        order,
        4 * r + 20,
    )
}

/// Distinct permanent values placed in row `r`; those are 4r+4 and 4r+19.
#[verifier::opaque]
pub open spec fn row_blue(order: Seq<u8>, r: int) -> int {
    has(order, 4 * r + 4) + has(order, 4 * r + 19)
}

pub open spec fn initial_model(o: PlacementOptions) -> LayoutModel {
    LayoutModel { order: Seq::empty(), missing: permanent_min(o.permanent) * 4 }
}

/// One step of the greedy pass: the next token is placed or dropped.
pub open spec fn step(s: LayoutModel, v: u8, o: PlacementOptions) -> LayoutModel {
    let order = s.order;
    let count = order.len() as int;
    let r = row_of(v as int);
    let len = row_len(order, r);
    let types = row_types(order, r);
    let blue = row_blue(order, r);
    let min = permanent_min(o.permanent);
    let max = permanent_max(o.permanent);
    let limit = limit_value(o.limit);
    let placed = LayoutModel { order: order.push(v), missing: s.missing };
    if count >= 32 || !in_tiles(v as int, o.tiles) || len >= 8 {
        s
    } else if copies(order, v as int) > 0 {
        if count == 32 - s.missing || len - blue + min >= 8 {
            s
        } else {
            placed
        }
    } else if types == limit {
        s
    } else if is_blue(v as int) {
        if blue == max {
            s
        } else if blue < min && s.missing > 0 {
            LayoutModel { order: order.push(v), missing: s.missing - 1 }
        } else {
            placed
        }
    } else if count == 32 - s.missing || types - blue + min >= limit || len - blue + min >= 8 {
        s
    } else {
        placed
    }
}

/// The state after the first `n` tokens.
pub open spec fn run(tokens: Seq<u8>, o: PlacementOptions, n: nat) -> LayoutModel
    decreases n,
{
    if n == 0 {
        initial_model(o)
    } else {
        step(run(tokens, o, (n - 1) as nat), tokens[n - 1], o)
    }
}

/// The result of the greedy pass over all tokens.
pub open spec fn place_spec(tokens: Seq<u8>, o: PlacementOptions) -> LayoutModel {
    run(tokens, o, tokens.len())
}

/// The constraints every row satisfies at every point of the pass.
pub open spec fn layout_ok(s: LayoutModel, o: PlacementOptions) -> bool {
    &&& s.order.len() <= 32
    &&& 0 <= s.missing <= 4 * permanent_min(o.permanent)
    &&& forall|i: int|
        0 <= i < s.order.len() ==> is_token_value(s.order[i] as int) && in_tiles(
            #[trigger] s.order[i] as int,
            o.tiles,
        )
    &&& forall|r: int|
        0 <= r < 4 ==> {
            &&& row_len(s.order, r) <= 8
            &&& row_types(s.order, r) <= limit_value(o.limit)
            &&& row_blue(s.order, r) <= permanent_max(o.permanent)
        }
}

pub open spec fn all_tokens(tokens: Seq<u8>) -> bool {
    forall|i: int| 0 <= i < tokens.len() ==> is_token_value(#[trigger] tokens[i] as int)
}

/// A token value is one of the eight values of its own row and of no other.
proof fn lemma_row_members(v: int, r: int)
    requires
        is_token_value(v),
        0 <= r < 4,
    ensures
        (row_of(v) == r) <==> (v == 4 * r + 1 || v == 4 * r + 2 || v == 4 * r + 3 || v == 4 * r
            + 4 || v == 4 * r + 17 || v == 4 * r + 18 || v == 4 * r + 19 || v == 4 * r + 20),
        (row_of(v) == r && is_blue(v)) <==> (v == 4 * r + 4 || v == 4 * r + 19),
{
}

/// Placing one more copy of `v` changes the counts of its row only.
proof fn lemma_push_counts(order: Seq<u8>, v: u8)
    requires
        is_token_value(v as int),
    ensures
        forall|r: int|
            0 <= r < 4 ==> {
                &&& #[trigger] row_len(order.push(v), r) == row_len(order, r) + if row_of(
                    v as int,
                ) == r {
                    1int
                } else {
                    0
                }
                &&& row_types(order.push(v), r) == row_types(order, r) + if row_of(v as int) == r
                    && copies(order, v as int) == 0 {
                    1int
                } else {
                    0
                }
                &&& row_blue(order.push(v), r) == row_blue(order, r) + if row_of(v as int) == r
                    && copies(order, v as int) == 0 && is_blue(v as int) {
                    1int
                } else {
                    0
                }
            },
        forall|w: int|
            0 <= w < 256 ==> #[trigger] copies(order.push(v), w) == copies(order, w) + if w
                == v {
                1int
            } else {
                0
            },
{
    reveal(row_len);
    reveal(row_types);
    reveal(row_blue);
    assert(order.push(v).to_multiset() =~= order.to_multiset().insert(v));
    assert forall|r: int| 0 <= r < 4 implies {
        &&& #[trigger] row_len(order.push(v), r) == row_len(order, r) + if row_of(v as int) == r {
            1int
        } else {
            0
        }
        &&& row_types(order.push(v), r) == row_types(order, r) + if row_of(v as int) == r
            && copies(order, v as int) == 0 {
            1int
        } else {
            0
        }
        &&& row_blue(order.push(v), r) == row_blue(order, r) + if row_of(v as int) == r
            && copies(order, v as int) == 0 && is_blue(v as int) {
            1int
        } else {
            0
        }
    } by {
        lemma_row_members(v as int, r);
    }
}

/// In a row, permanent values are among the distinct values, and each
/// distinct value has at least one copy.
proof fn lemma_row_order(order: Seq<u8>, r: int)
    ensures
        0 <= row_blue(order, r) <= row_types(order, r) <= row_len(order, r),
{
    reveal(row_len);
    reveal(row_types);
    reveal(row_blue);
}

/// A value's copies are part of its row's copies.
proof fn lemma_copies_in_row(order: Seq<u8>, v: int)
    requires
        is_token_value(v),
    ensures
        0 <= copies(order, v) <= row_len(order, row_of(v)),
{
    reveal(row_len);
    lemma_row_members(v, row_of(v));
}

/// Before the first placement every row is empty.
proof fn lemma_empty_rows()
    ensures
        forall|r: int|
            #![trigger row_len(Seq::<u8>::empty(), r)]
            row_len(Seq::<u8>::empty(), r) == 0 && row_types(Seq::<u8>::empty(), r) == 0
                && row_blue(Seq::<u8>::empty(), r) == 0,
{
    reveal(row_len);
    reveal(row_types);
    reveal(row_blue);
    assert(Seq::<u8>::empty().to_multiset() =~= Multiset::empty());
}

/// Every step keeps the row constraints.
proof fn lemma_step_ok(s: LayoutModel, v: u8, o: PlacementOptions)
    requires
        layout_ok(s, o),
        is_token_value(v as int),
    ensures
        layout_ok(step(s, v, o), o),
{
    let t = step(s, v, o);
    if t != s {
        let rv = row_of(v as int);
        assert(t.order == s.order.push(v));
        assert(in_tiles(v as int, o.tiles));
        assert(row_len(s.order, rv) < 8);
        assert(copies(s.order, v as int) == 0 ==> row_types(s.order, rv) < limit_value(o.limit));
        assert(copies(s.order, v as int) == 0 && is_blue(v as int) ==> row_blue(s.order, rv)
            < permanent_max(o.permanent));
        lemma_push_counts(s.order, v);
        assert forall|i: int| 0 <= i < t.order.len() implies is_token_value(t.order[i] as int)
            && in_tiles(#[trigger] t.order[i] as int, o.tiles) by {
            if i < s.order.len() {
                assert(t.order[i] == s.order[i]);
            }
        }
        assert forall|r: int| 0 <= r < 4 implies {
            &&& row_len(t.order, r) <= 8
            &&& row_types(t.order, r) <= limit_value(o.limit)
            &&& row_blue(t.order, r) <= permanent_max(o.permanent)
        } by {
            assert(row_len(s.order.push(v), r) == row_len(s.order, r) + if rv == r {
                1int
            } else {
                0
            });
        }
    }
}

/// Every state of the pass keeps the row constraints.
pub proof fn lemma_run_ok(tokens: Seq<u8>, o: PlacementOptions, n: nat)
    requires
        all_tokens(tokens),
        n <= tokens.len(),
    ensures
        layout_ok(run(tokens, o, n), o),
    decreases n,
{
    if n > 0 {
        lemma_run_ok(tokens, o, (n - 1) as nat);
        assert(is_token_value(tokens[n - 1] as int));
        lemma_step_ok(run(tokens, o, (n - 1) as nat), tokens[n - 1], o);
    } else {
        lemma_empty_rows();
        let s = run(tokens, o, n);
        assert(s == initial_model(o));
        assert forall|r: int| 0 <= r < 4 implies {
            &&& row_len(s.order, r) <= 8
            &&& row_types(s.order, r) <= limit_value(o.limit)
            &&& row_blue(s.order, r) <= permanent_max(o.permanent)
        } by {
            assert(row_len(Seq::<u8>::empty(), r) == 0);
        }
    }
}

/// Once 32 copies are placed, the remaining tokens change nothing.
proof fn lemma_run_full(tokens: Seq<u8>, o: PlacementOptions, n: nat, m: nat)
    requires
        n <= m,
        run(tokens, o, n).order.len() >= 32,
    ensures
        run(tokens, o, m) == run(tokens, o, n),
    decreases m - n,
{
    if n < m {
        lemma_run_full(tokens, o, n, (m - 1) as nat);
    }
}

/// The insertion indices of the copies of `v`, in increasing order.
pub open spec fn positions(s: Seq<u8>, v: u8) -> Seq<usize>
    decreases s.len(),
{
    if s.len() == 0 {
        Seq::empty()
    } else {
        let rest = positions(s.drop_last(), v);
        if s.last() == v {
            rest.push((s.len() - 1) as usize)
        } else {
            rest
        }
    }
}

/// A value's insertion indices are strictly increasing, and each is the
/// index of a copy of that value.
pub proof fn lemma_positions_increasing(s: Seq<u8>, v: u8)
    requires
        s.len() <= usize::MAX,
    ensures
        forall|i: int, j: int|
            0 <= i < j < positions(s, v).len() ==> positions(s, v)[i] < positions(s, v)[j],
        forall|i: int|
            0 <= i < positions(s, v).len() ==> #[trigger] positions(s, v)[i] < s.len()
                && s[positions(s, v)[i] as int] == v,
    decreases s.len(),
{
    if s.len() > 0 {
        let rest = positions(s.drop_last(), v);
        let p = positions(s, v);
        lemma_positions_increasing(s.drop_last(), v);
        assert forall|i: int| 0 <= i < rest.len() implies #[trigger] rest[i] < s.len() - 1
            && s[rest[i] as int] == v by {
            assert(s.drop_last()[rest[i] as int] == s[rest[i] as int]);
        }
        if s.last() == v {
            assert(p == rest.push((s.len() - 1) as usize));
            assert forall|i: int, j: int| 0 <= i < j < p.len() implies p[i] < p[j] by {
                if j < rest.len() {
                    assert(rest[i] < rest[j]);
                } else {
                    assert(rest[i] < s.len() - 1);
                }
            }
            assert forall|i: int| 0 <= i < p.len() implies #[trigger] p[i] < s.len()
                && s[p[i] as int] == v by {
                if i < rest.len() {
                    assert(p[i] == rest[i]);
                }
            }
        } else {
            assert(p == rest);
        }
    }
}

/// The values of row `r`, in increasing order.
pub open spec fn row_members(r: int) -> Seq<u8> {
    seq![
        (4 * r + 1) as u8,
        (4 * r + 2) as u8,
        (4 * r + 3) as u8,
        (4 * r + 4) as u8,
        (4 * r + 17) as u8,
        (4 * r + 18) as u8,
        (4 * r + 19) as u8,
        (4 * r + 20) as u8,
    ]
}

/// The distinct values placed in row `r`, in increasing order.
pub open spec fn row_values(s: Seq<u8>, r: int) -> Seq<u8> {
    row_members(r).filter(|v: u8| copies(s, v as int) > 0)
}

/// How many copies of `v` are shown for player count `p`.
pub open spec fn visible_count(s: Seq<u8>, v: u8, p: Players) -> int {
    positions(s, v).filter(|c: usize| is_visible(c, p)).len() as int
}

/// The placement of building tokens into the four rows: the values in the
/// order they were placed, so a copy's insertion index is its position.
pub struct Layout {
    order: Vec<u8>,
}

impl View for Layout {
    type V = Seq<u8>;

    closed spec fn view(&self) -> Seq<u8> {
        self.order@
    }
}

/// Runs the greedy placement pass over the shuffled tokens: each token is
/// placed in its row when the row limits and the reservations for permanent
/// departments allow it, and dropped otherwise; the pass stops after 32
/// placements.
pub fn place(tokens: &Vec<u8>, o: PlacementOptions) -> (l: Layout)
    requires
        all_tokens(tokens@),
    ensures
        l@ == place_spec(tokens@, o).order,
        layout_ok(place_spec(tokens@, o), o),
{
    let limit = o.limit.count();
    let min = o.permanent.min();
    let max = o.permanent.max();
    let mut order: Vec<u8> = Vec::new();
    let mut missing: usize = min * 4;
    let mut counts: Vec<usize> = vec![0usize; 33];
    let mut lens: Vec<usize> = vec![0usize; 4];
    let mut types: Vec<usize> = vec![0usize; 4];
    let mut blues: Vec<usize> = vec![0usize; 4];
    let mut i: usize = 0;
    proof {
        lemma_empty_rows();
        assert(Seq::<u8>::empty().to_multiset() =~= Multiset::empty());
        assert(order@ == Seq::<u8>::empty());
        assert forall|r: int|
            #![trigger lens[r]]
            #![trigger types[r]]
            #![trigger blues[r]]
            0 <= r < 4 implies {
            &&& lens[r] == row_len(order@, r)
            &&& types[r] == row_types(order@, r)
            &&& blues[r] == row_blue(order@, r)
        } by {
            assert(row_len(Seq::<u8>::empty(), r) == 0);
        }
        lemma_run_ok(tokens@, o, 0);
    }
    while i < tokens.len() && order.len() < 32
        invariant
            all_tokens(tokens@),
            i <= tokens.len(),
            order@ == run(tokens@, o, i as nat).order,
            missing == run(tokens@, o, i as nat).missing,
            layout_ok(run(tokens@, o, i as nat), o),
            limit == limit_value(o.limit),
            min == permanent_min(o.permanent),
            max == permanent_max(o.permanent),
            counts.len() == 33,
            lens.len() == 4,
            types.len() == 4,
            blues.len() == 4,
            forall|w: int| 1 <= w <= 32 ==> #[trigger] counts[w] == copies(order@, w),
            forall|r: int| 0 <= r < 4 ==> #[trigger] lens[r] == row_len(order@, r),
            forall|r: int| 0 <= r < 4 ==> #[trigger] types[r] == row_types(order@, r),
            forall|r: int| 0 <= r < 4 ==> #[trigger] blues[r] == row_blue(order@, r),
        decreases tokens.len() - i,
    {
        proof {
            lemma_run_ok(tokens@, o, i as nat);
        }
        let v = tokens[i];
        let b = Building::new(v);
        assert(is_token_value(v as int));
        if b.is_tile(o.tiles) {
            let r = b.row();
            let len = lens[r];
            let ty = types[r];
            let bl = blues[r];
            let c = counts[v as usize];
            proof {
                lemma_row_order(order@, r as int);
                lemma_copies_in_row(order@, v as int);
            }
            let blue = b.blue();
            let mut accept = false;
            let mut reserve = false;
            if len < 8 {
                if c > 0 {
                    if order.len() != 32 - missing && len - bl + min < 8 {
                        accept = true;
                    }
                } else if ty != limit {
                    if blue {
                        if bl != max {
                            accept = true;
                            if bl < min && missing > 0 {
                                reserve = true;
                            }
                        }
                    } else if order.len() != 32 - missing && ty - bl + min < limit && len - bl
                        + min < 8 {
                        accept = true;
                    }
                }
            }
            if accept {
                let ghost before = order@;
                let ghost l0 = lens@;
                let ghost t0 = types@;
                let ghost b0 = blues@;
                assert(l0[r as int] == row_len(before, r as int));
                proof {
                    lemma_push_counts(order@, v);
                }
                if reserve {
                    missing = missing - 1;
                }
                if c == 0 {
                    types.set(r, ty + 1);
                    if blue {
                        blues.set(r, bl + 1);
                    }
                }
                counts.set(v as usize, c + 1);
                lens.set(r, len + 1);
                order.push(v);
                assert forall|q: int|
                    #![trigger lens[q]]
                    #![trigger types[q]]
                    #![trigger blues[q]]
                    0 <= q < 4 implies {
                    &&& lens[q] == row_len(order@, q)
                    &&& types[q] == row_types(order@, q)
                    &&& blues[q] == row_blue(order@, q)
                } by {
                    assert(order@ == before.push(v));
                    assert(l0[q] == row_len(before, q));
                    assert(t0[q] == row_types(before, q));
                    assert(b0[q] == row_blue(before, q));
                    assert(row_len(before.push(v), q) == row_len(before, q) + if r == q {
                        1int
                    } else {
                        0
                    });
                    if q != r {
                        assert(lens[q] == l0[q]);
                        assert(types[q] == t0[q]);
                        assert(blues[q] == b0[q]);
                    }
                }
            }
        }
        i = i + 1;
        proof {
            lemma_run_ok(tokens@, o, i as nat);
        }
    }
    proof {
        if i < tokens.len() {
            lemma_run_full(tokens@, o, i as nat, tokens.len() as nat);
        }
        lemma_run_ok(tokens@, o, tokens.len() as nat);
    }
    Layout { order }
}

impl Layout {
    /// How many copies were placed.
    pub fn placed(&self) -> (r: usize)
        ensures
            r == self@.len(),
    {
        self.order.len()
    }

    /// How many copies of `value` were placed.
    pub fn copies_of(&self, value: u8) -> (r: usize)
        ensures
            r == copies(self@, value as int),
    {
        let mut n: usize = 0;
        let mut i: usize = 0;
        proof {
            assert(self.order@.subrange(0, 0).to_multiset() =~= Multiset::empty());
        }
        while i < self.order.len()
            invariant
                i <= self.order.len(),
                n == self.order@.subrange(0, i as int).to_multiset().count(value),
                n <= i,
            decreases self.order.len() - i,
        {
            proof {
                assert(self.order@.subrange(0, i + 1) =~= self.order@.subrange(0, i as int).push(
                    self.order@[i as int],
                ));
            }
            if self.order[i] == value {
                n = n + 1;
            }
            i = i + 1;
        }
        proof {
            assert(self.order@.subrange(0, i as int) =~= self.order@);
        }
        n
    }

    /// The insertion indices of the copies of `value`, in increasing order.
    pub fn insertion_indices(&self, value: u8) -> (r: Vec<usize>)
        ensures
            r@ == positions(self@, value),
    {
        let mut r: Vec<usize> = Vec::new();
        let mut i: usize = 0;
        while i < self.order.len()
            invariant
                i <= self.order.len(),
                r@ == positions(self.order@.subrange(0, i as int), value),
            decreases self.order.len() - i,
        {
            proof {
                assert(self.order@.subrange(0, i + 1).drop_last() =~= self.order@.subrange(
                    0,
                    i as int,
                ));
            }
            if self.order[i] == value {
                r.push(i);
            }
            i = i + 1;
        }
        proof {
            assert(self.order@.subrange(0, i as int) =~= self.order@);
        }
        r
    }

    /// How many copies of `value` are shown for `players`.
    pub fn visible_copies(&self, value: u8, players: Players) -> (r: usize)
        ensures
            r == visible_count(self@, value, players),
    {
        let ghost pred = |c: usize| is_visible(c, players);
        let mut n: usize = 0;
        let mut i: usize = 0;
        while i < self.order.len()
            invariant
                i <= self.order.len(),
                pred == (|c: usize| is_visible(c, players)),
                n == positions(self.order@.subrange(0, i as int), value).filter(pred).len(),
                n <= i,
            decreases self.order.len() - i,
        {
            let ghost before = positions(self.order@.subrange(0, i as int), value);
            proof {
                assert(self.order@.subrange(0, i + 1).drop_last() =~= self.order@.subrange(
                    0,
                    i as int,
                ));
                before.lemma_filter_len(pred);
                reveal(Seq::filter);
            }
            if self.order[i] == value {
                proof {
                    assert(before.push(i).drop_last() =~= before);
                }
                if visible(i, players) {
                    n = n + 1;
                }
            }
            i = i + 1;
        }
        proof {
            assert(self.order@.subrange(0, i as int) =~= self.order@);
        }
        n
    }

    /// The distinct values placed in `row`, in increasing order.
    pub fn row_values(&self, row: usize) -> (r: Vec<u8>)
        requires
            row < 4,
        ensures
            r@ == row_values(self@, row as int),
    {
        let ghost members = row_members(row as int);
        let ghost pred = |v: u8| copies(self@, v as int) > 0;
        let base: u8 = 4 * (row as u8);
        let mut r: Vec<u8> = Vec::new();
        let mut k: u8 = 0;
        while k < 8
            invariant
                k <= 8,
                row < 4,
                base == 4 * row,
                members == row_members(row as int),
                pred == (|v: u8| copies(self@, v as int) > 0),
                r@ == members.subrange(0, k as int).filter(pred),
            decreases 8 - k,
        {
            let v: u8 = if k < 4 {
                base + 1 + k
            } else {
                base + 13 + k
            };
            proof {
                assert(members.subrange(0, k + 1).drop_last() =~= members.subrange(0, k as int));
                assert(members[k as int] == v);
                reveal(Seq::filter);
            }
            if self.copies_of(v) > 0 {
                r.push(v);
            }
            k = k + 1;
        }
        proof {
            assert(members.subrange(0, 8) =~= members);
        }
        r
    }
}

/// The decimal digit `d`.
pub open spec fn digit(d: int) -> char {
    if d == 0 {
        '0'
    } else if d == 1 {
        '1'
    } else if d == 2 {
        '2'
    } else if d == 3 {
        '3'
    } else if d == 4 {
        '4'
    } else if d == 5 {
        '5'
    } else if d == 6 {
        '6'
    } else if d == 7 {
        '7'
    } else if d == 8 {
        '8'
    } else {
    '9'
    }
}

/// A value written with two decimal digits.
pub open spec fn two_digits(v: u8) -> Seq<char> {
    seq![digit(v as int / 10), digit(v as int % 10)]
}

/// Values written with two digits each, separated by commas.
pub open spec fn joined(vals: Seq<u8>) -> Seq<char>
    decreases vals.len(),
{
    if vals.len() == 0 {
        Seq::empty()
    } else if vals.len() == 1 {
        two_digits(vals[0])
    } else {
        joined(vals.drop_last()) + seq![','] + two_digits(vals.last())
    }
}

/// The text form of a token order: the first 32 values, sorted, with two
/// digits each, separated by commas.
pub open spec fn tokens_text(tokens: Seq<u8>) -> Seq<char> {
    joined(sorted_of(tokens.take(if tokens.len() < 32 { tokens.len() as int } else { 32 })))
}

fn digit_str(d: u8) -> (r: &'static str)
    requires
        d < 10,
    ensures
        r@ == seq![digit(d as int)],
{
    let r = if d == 0 {
        "0"
    } else if d == 1 {
        "1"
    } else if d == 2 {
        "2"
    } else if d == 3 {
        "3"
    } else if d == 4 {
        "4"
    } else if d == 5 {
        "5"
    } else if d == 6 {
        "6"
    } else if d == 7 {
        "7"
    } else if d == 8 {
        "8"
    } else {
        "9"
    };
    proof {
        reveal_strlit("0");
        reveal_strlit("1");
        reveal_strlit("2");
        reveal_strlit("3");
        reveal_strlit("4");
        reveal_strlit("5");
        reveal_strlit("6");
        reveal_strlit("7");
        reveal_strlit("8");
        reveal_strlit("9");
    }
    r
}

/// Both copies of every value from 1 to 32, in ascending order.
pub open spec fn standard_tokens() -> Seq<u8> {
    Seq::new(64, |i: int| (i / 2 + 1) as u8)
}

/// The full set of building tokens, in shuffled order.
pub struct Buildings {
    tokens: Vec<u8>,
}

impl View for Buildings {
    type V = Seq<u8>;

    closed spec fn view(&self) -> Seq<u8> {
        self.tokens@
    }
}

impl Default for Buildings {
    fn default() -> (b: Self)
        ensures
            b@ == standard_tokens(),
    {
        let mut tokens: Vec<u8> = Vec::new();
        let mut v: u8 = 1;
        while v <= 32
            invariant
                1 <= v <= 33,
                tokens@ == standard_tokens().subrange(0, 2 * (v - 1)),
            decreases 33 - v,
        {
            tokens.push(v);
            tokens.push(v);
            assert(tokens@ =~= standard_tokens().subrange(0, 2 * v));
            v = v + 1;
        }
        assert(tokens@ =~= standard_tokens());
        Buildings { tokens }
    }
}

impl Buildings {
    /// Shuffles the tokens for `seed`: the result depends on the seed and on
    /// which tokens there are, not on their previous order.
    pub fn rand(&mut self, seed: u64)
        ensures
            final(self)@ == shuffle_spec(seed, 0, old(self)@),
            final(self)@.to_multiset() == old(self)@.to_multiset(),
            all_tokens(old(self)@) ==> all_tokens(final(self)@),
    {
        seeded_shuffle(seed, 0, &mut self.tokens);
        proof {
            let a = old(self)@;
            let b = self@;
            if all_tokens(a) {
                assert forall|i: int| 0 <= i < b.len() implies is_token_value(
                    #[trigger] b[i] as int,
                ) by {
                    assert(b.contains(b[i]));
                    assert(b.to_multiset().count(b[i]) > 0);
                    assert(a.contains(b[i]));
                }
            }
        }
    }

    /// The text form of the tokens: the first 32 values in ascending order,
    /// each with two digits, separated by commas.
    pub fn to_text(&self) -> (t: String)
        requires
            all_tokens(self@),
        ensures
            t@ == tokens_text(self@),
    {
        let n: usize = if self.tokens.len() < 32 {
            self.tokens.len()
        } else {
            32
        };
        let mut first: Vec<u8> = Vec::new();
        let mut i: usize = 0;
        while i < n
            invariant
                n <= self.tokens.len(),
                i <= n,
                first@ == self@.take(i as int),
            decreases n - i,
        {
            first.push(self.tokens[i]);
            assert(first@ =~= self@.take(i + 1));
            i = i + 1;
        }
        let ghost taken = first@;
        sort_values(&mut first);
        proof {
            crate::shuffle::lemma_sorted_of(first@, taken);
            assert forall|k: int| 0 <= k < first@.len() implies #[trigger] first@[k] <= 32 by {
                assert(first@.contains(first@[k]));
                assert(first@.to_multiset().count(first@[k]) > 0);
                assert(taken.contains(first@[k]));
            }
        }
        let mut t = String::new();
        let mut j: usize = 0;
        while j < first.len()
            invariant
                j <= first.len(),
                forall|k: int| 0 <= k < first@.len() ==> #[trigger] first@[k] <= 32,
                t@ == joined(first@.subrange(0, j as int)),
            decreases first.len() - j,
        {
            let v = first[j];
            let ghost before = t@;
            if j > 0 {
                t.append(",");
                proof {
                    reveal_strlit(",");
                }
            }
            t.append(digit_str(v / 10));
            t.append(digit_str(v % 10));
            proof {
                let sub = first@.subrange(0, j + 1);
                assert(sub.drop_last() =~= first@.subrange(0, j as int));
                assert(sub.last() == v);
                if j == 0 {
                    assert(t@ =~= two_digits(v));
                } else {
                    assert(t@ =~= before + seq![','] + two_digits(v));
                }
            }
            j = j + 1;
        }
        proof {
            assert(first@.subrange(0, j as int) =~= first@);
        }
        t
    }

    /// The layout the greedy placement pass makes of the tokens.
    pub fn layout(&self, o: PlacementOptions) -> (l: Layout)
        requires
            all_tokens(self@),
        ensures
            l@ == place_spec(self@, o).order,
            layout_ok(place_spec(self@, o), o),
    {
        place(&self.tokens, o)
    }
}

} // verus!
