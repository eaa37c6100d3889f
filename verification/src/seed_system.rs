//! Weighted distributions over outcomes of random events, and the lineage
//! bookkeeping that lets a seed answer the same random question the same way.
use vstd::prelude::*;

use crate::actions::DynAction;
use crate::simulation_state::CombatState;

verus! {

/// The weight of a certain outcome: weights count millionths of a probability.
pub const WEIGHT_ONE: u64 = 1_000_000;

/// Weighted outcomes of a random event, each outcome listed once.
#[derive(Clone, Debug)]
pub struct Distribution(pub Vec<(u64, i32)>);

/// No outcome value is listed twice.
pub open spec fn unique_values(entries: Seq<(u64, i32)>) -> bool {
    forall|i: int, j: int| 0 <= i < j < entries.len() ==> #[trigger] entries[i].1 != #[trigger] entries[j].1
}

/// The summed weight of all outcomes.
pub open spec fn total_weight(entries: Seq<(u64, i32)>) -> int
    decreases entries.len(),
{
    if entries.len() == 0 {
        0
    } else {
        total_weight(entries.drop_last()) + entries.last().0
    }
}

/// Whether some outcome has the value `v`.
pub open spec fn has_value(entries: Seq<(u64, i32)>, v: i32) -> bool {
    exists|i: int| 0 <= i < entries.len() && #[trigger] entries[i].1 == v
}

/// The position of the outcome with value `v` (meaningful when there is one).
pub open spec fn value_position(entries: Seq<(u64, i32)>, v: i32) -> int {
    choose|i: int| 0 <= i < entries.len() && #[trigger] entries[i].1 == v
}

/// Adds weight `w` to the outcome `v`, listing `v` last if it is new.
pub open spec fn merge_one(entries: Seq<(u64, i32)>, w: u64, v: i32) -> Seq<(u64, i32)> {
    if has_value(entries, v) {
        let i = value_position(entries, v);
        entries.update(i, ((entries[i].0 + w) as u64, v))
    } else {
        entries.push((w, v))
    }
}

/// Merges every outcome of `other`, in order, into `entries`.
pub open spec fn merge_all(entries: Seq<(u64, i32)>, other: Seq<(u64, i32)>) -> Seq<(u64, i32)>
    decreases other.len(),
{
    if other.len() == 0 {
        entries
    } else {
        let merged = merge_all(entries, other.drop_last());
        merge_one(merged, other.last().0, other.last().1)
    }
}

/// Every weight scaled by `numerator / denominator`, rounded down.
pub open spec fn scale_entries(entries: Seq<(u64, i32)>, numerator: u64, denominator: u64) -> Seq<
    (u64, i32),
> {
    entries.map_values(|e: (u64, i32)| (((e.0 * numerator) / (denominator as int)) as u64, e.1))
}

proof fn lemma_total_weight_update(entries: Seq<(u64, i32)>, i: int, w: u64)
    requires
        0 <= i < entries.len(),
    ensures
        total_weight(entries.update(i, (w, entries[i].1))) == total_weight(entries) - entries[i].0
            + w,
    decreases entries.len(),
{
    let updated = entries.update(i, (w, entries[i].1));
    if i == entries.len() - 1 {
        assert(updated.drop_last() =~= entries.drop_last());
    } else {
        lemma_total_weight_update(entries.drop_last(), i, w);
        assert(updated.drop_last() =~= entries.drop_last().update(i, (w, entries[i].1)));
    }
}

pub proof fn lemma_total_weight_nonneg_entry(entries: Seq<(u64, i32)>, i: int)
    requires
        0 <= i < entries.len(),
    ensures
        entries[i].0 <= total_weight(entries),
        total_weight(entries) >= 0,
    decreases entries.len(),
{
    lemma_total_weight_nonneg(entries.drop_last());
    if i < entries.len() - 1 {
        lemma_total_weight_nonneg_entry(entries.drop_last(), i);
    }
}

proof fn lemma_total_weight_nonneg(entries: Seq<(u64, i32)>)
    ensures
        total_weight(entries) >= 0,
    decreases entries.len(),
{
    if entries.len() > 0 {
        lemma_total_weight_nonneg(entries.drop_last());
    }
}

/// Merging an outcome adds its weight to the total and keeps outcomes unique.
pub proof fn lemma_merge_one(entries: Seq<(u64, i32)>, w: u64, v: i32)
    requires
        unique_values(entries),
        total_weight(entries) + w <= u64::MAX,
    ensures
        unique_values(merge_one(entries, w, v)),
        total_weight(merge_one(entries, w, v)) == total_weight(entries) + w,
        has_value(merge_one(entries, w, v), v),
{
    if has_value(entries, v) {
        let i = value_position(entries, v);
        lemma_total_weight_nonneg_entry(entries, i);
        lemma_total_weight_update(entries, i, (entries[i].0 + w) as u64);
        let m = merge_one(entries, w, v);
        assert(m[i].1 == v);
    } else {
        let m = entries.push((w, v));
        assert(m.drop_last() =~= entries);
        assert(m[entries.len() as int].1 == v);
    }
}

impl Distribution {
    /// No outcomes yet.
    pub fn new() -> (d: Distribution)
        ensures
            d.0@ == Seq::<(u64, i32)>::empty(),
    {
        Distribution(Vec::new())
    }

    /// A copy with the same outcomes and weights.
    pub fn duplicate(&self) -> (d: Distribution)
        ensures
            d.0@ == self.0@,
    {
        let mut entries: Vec<(u64, i32)> = Vec::new();
        let mut i: usize = 0;
        while i < self.0.len()
            invariant
                i <= self.0@.len(),
                entries@ == self.0@.subrange(0, i as int),
            decreases self.0@.len() - i,
        {
            entries.push(self.0[i]);
            i = i + 1;
            assert(entries@ =~= self.0@.subrange(0, i as int));
        }
        assert(self.0@.subrange(0, self.0@.len() as int) =~= self.0@);
        Distribution(entries)
    }

    /// A certain outcome.
    pub fn from_value(value: i32) -> (d: Distribution)
        ensures
            d.0@ == seq![(WEIGHT_ONE, value)],
    {
        let mut v = Vec::new();
        v.push((WEIGHT_ONE, value));
        Distribution(v)
    }

    /// Every weight multiplied by `numerator / denominator`, rounded down.
    pub fn scaled(self, numerator: u64, denominator: u64) -> (d: Distribution)
        requires
            denominator > 0,
            numerator <= denominator,
            numerator <= 0xFFFF_FFFF,
            forall|i: int| 0 <= i < self.0@.len() ==> #[trigger] self.0@[i].0 <= 0xFFFF_FFFF,
        ensures
            d.0@ == scale_entries(self.0@, numerator, denominator),
    {
        let mut entries = self.0;
        let ghost start_entries = entries@;
        let mut i: usize = 0;
        while i < entries.len()
            invariant
                entries@.len() == start_entries.len(),
                i <= entries@.len(),
                denominator > 0,
                numerator <= 0xFFFF_FFFF,
                forall|j: int| 0 <= j < start_entries.len() ==> #[trigger] start_entries[j].0 <= 0xFFFF_FFFF,
                forall|j: int|
                    0 <= j < i ==> #[trigger] entries@[j] == (((start_entries[j].0 * numerator) / (denominator as int)) as u64, start_entries[j].1),
                forall|j: int| i <= j < entries@.len() ==> #[trigger] entries@[j] == start_entries[j],
            decreases entries@.len() - i,
        {
            let (w, v) = entries[i];
            assert(w * numerator <= 0xFFFF_FFFF * 0xFFFF_FFFF) by (nonlinear_arith)
                requires
                    w <= 0xFFFF_FFFF,
                    numerator <= 0xFFFF_FFFF,
            ;
            let scaled = w * numerator / denominator;
            entries.set(i, (scaled, v));
            i = i + 1;
        }
        assert(entries@ =~= scale_entries(start_entries, numerator, denominator));
        Distribution(entries)
    }

    /// Adds the weight of every outcome of `other`: weights of a shared outcome add up,
    /// and new outcomes are listed after the existing ones.
    pub fn add_assign(&mut self, other: Distribution)
        requires
            unique_values(old(self).0@),
            total_weight(old(self).0@) + total_weight(other.0@) <= u64::MAX,
        ensures
            final(self).0@ == merge_all(old(self).0@, other.0@),
            unique_values(final(self).0@),
            total_weight(final(self).0@) == total_weight(old(self).0@) + total_weight(other.0@),
    {
        let ghost start = self.0@;
        let mut k: usize = 0;
        proof {
            assert(other.0@.subrange(0, 0) =~= Seq::<(u64, i32)>::empty());
            lemma_total_weight_nonneg(other.0@);
        }
        while k < other.0.len()
            invariant
                start == old(self).0@,
                k <= other.0@.len(),
                self.0@ == merge_all(start, other.0@.subrange(0, k as int)),
                unique_values(self.0@),
                total_weight(self.0@) == total_weight(start) + total_weight(other.0@.subrange(0, k as int)),
                total_weight(start) + total_weight(other.0@) <= u64::MAX,
            decreases other.0@.len() - k,
        {
            let (w, v) = other.0[k];
            proof {
                let prefix = other.0@.subrange(0, k + 1);
                assert(prefix.drop_last() =~= other.0@.subrange(0, k as int));
                lemma_total_weight_prefix(other.0@, k as int + 1);
                lemma_total_weight_nonneg(other.0@.subrange(0, k as int));
                lemma_merge_one(self.0@, w, v);
            }
            let mut i: usize = 0;
            while i < self.0.len() && self.0[i].1 != v
                invariant
                    i <= self.0@.len(),
                    forall|j: int| 0 <= j < i ==> #[trigger] self.0@[j].1 != v,
                decreases self.0@.len() - i,
            {
                i = i + 1;
            }
            let found = i < self.0.len();
            let ghost before = self.0@;
            if found {
                proof {
                    assert(before[i as int].1 == v);
                    assert(has_value(before, v));
                    let c = value_position(before, v);
                    assert(before[c].1 == v);
                    if c != i as int {
                        if c < i as int {
                            assert(before[c].1 != v);
                        } else {
                            assert(before[i as int].1 != before[c].1);
                        }
                    }
                    lemma_total_weight_nonneg_entry(before, i as int);
                }
                let old_weight = self.0[i].0;
                self.0.set(i, (old_weight + w, v));
            } else {
                proof {
                    assert(!has_value(before, v));
                }
                self.0.push((w, v));
            }
            proof {
                assert(self.0@ =~= merge_one(before, w, v));
            }
            k = k + 1;
        }
        assert(other.0@.subrange(0, other.0@.len() as int) =~= other.0@);
    }

    /// `then_value` with probability `probability` (in millionths), else `else_value`.
    pub fn split(probability: u64, then_value: Distribution, else_value: Distribution) -> (d:
        Distribution)
        requires
            probability <= WEIGHT_ONE,
            unique_values(then_value.0@),
            unique_values(else_value.0@),
            forall|i: int| 0 <= i < then_value.0@.len() ==> #[trigger] then_value.0@[i].0 <= WEIGHT_ONE,
            forall|i: int| 0 <= i < else_value.0@.len() ==> #[trigger] else_value.0@[i].0 <= WEIGHT_ONE,
            then_value.0@.len() <= 1,
            else_value.0@.len() <= 1,
        ensures
            d.0@ == merge_all(
                scale_entries(then_value.0@, probability, WEIGHT_ONE),
                scale_entries(else_value.0@, (WEIGHT_ONE - probability) as u64, WEIGHT_ONE),
            ),
            unique_values(d.0@),
            total_weight(d.0@) <= WEIGHT_ONE,
    {
        let mut result = then_value.scaled(probability, WEIGHT_ONE);
        let other = else_value.scaled(WEIGHT_ONE - probability, WEIGHT_ONE);
        proof {
            lemma_scale_small(then_value.0@, probability);
            lemma_scale_small(else_value.0@, (WEIGHT_ONE - probability) as u64);
        }
        result.add_assign(other);
        result
    }
}

/// Scaling by at most one never raises the total weight, and keeps outcomes unique.
pub proof fn lemma_scale_total(entries: Seq<(u64, i32)>, numerator: u64, denominator: u64)
    requires
        0 < denominator,
        numerator <= denominator,
        forall|i: int| 0 <= i < entries.len() ==> #[trigger] entries[i].0 <= 0xFFFF_FFFF,
    ensures
        total_weight(scale_entries(entries, numerator, denominator)) <= total_weight(entries),
        unique_values(entries) ==> unique_values(scale_entries(entries, numerator, denominator)),
        forall|i: int|
            0 <= i < entries.len() ==> #[trigger] scale_entries(entries, numerator, denominator)[i].0
                <= entries[i].0,
    decreases entries.len(),
{
    let s = scale_entries(entries, numerator, denominator);
    assert forall|i: int| 0 <= i < entries.len() implies #[trigger] s[i].0 <= entries[i].0 by {
        let w = entries[i].0;
        assert((w * numerator) / (denominator as int) <= w && (w * numerator) / (denominator as int) >= 0) by (nonlinear_arith)
            requires
                0 <= w,
                0 <= numerator <= denominator,
                denominator > 0,
        ;
    }
    if entries.len() > 0 {
        lemma_scale_total(entries.drop_last(), numerator, denominator);
        assert(s.drop_last() =~= scale_entries(entries.drop_last(), numerator, denominator));
    }
}

proof fn lemma_total_weight_prefix(entries: Seq<(u64, i32)>, k: int)
    requires
        0 <= k <= entries.len(),
    ensures
        total_weight(entries.subrange(0, k)) <= total_weight(entries),
    decreases entries.len() - k,
{
    if k < entries.len() {
        lemma_total_weight_prefix(entries, k + 1);
        let p = entries.subrange(0, k + 1);
        assert(p.drop_last() =~= entries.subrange(0, k));
    } else {
        assert(entries.subrange(0, k) =~= entries);
    }
}

proof fn lemma_scale_small(entries: Seq<(u64, i32)>, p: u64)
    requires
        entries.len() <= 1,
        p <= WEIGHT_ONE,
        forall|i: int| 0 <= i < entries.len() ==> #[trigger] entries[i].0 <= WEIGHT_ONE,
    ensures
        unique_values(scale_entries(entries, p, WEIGHT_ONE)),
        total_weight(scale_entries(entries, p, WEIGHT_ONE)) <= p,
        forall|i: int| 0 <= i < scale_entries(entries, p, WEIGHT_ONE).len() ==> #[trigger] scale_entries(entries, p, WEIGHT_ONE)[i].0 <= WEIGHT_ONE,
{
    let s = scale_entries(entries, p, WEIGHT_ONE);
    if entries.len() == 1 {
        let w = entries[0].0;
        assert((w * p) / (WEIGHT_ONE as int) <= w && (w * p) / (WEIGHT_ONE as int) <= p) by (nonlinear_arith)
            requires
                w <= WEIGHT_ONE,
                p <= WEIGHT_ONE,
                w >= 0,
                p >= 0,
        ;
        assert(s[0].0 == ((w * p) / (WEIGHT_ONE as int)) as u64);
        assert((w * p) / (WEIGHT_ONE as int) >= 0) by (nonlinear_arith)
            requires
                w >= 0,
                p >= 0,
        ;
        assert(s.drop_last() =~= Seq::<(u64, i32)>::empty());
        assert(total_weight(s) == total_weight(s.drop_last()) + s[0].0);
    } else {
        assert(s =~= Seq::<(u64, i32)>::empty());
    }
}


/// Whether an outcome of weight `w_a` given the seed value `v_a` comes strictly before one
/// of weight `w_b` given `v_b`: `v_a / w_a < v_b / w_b`, compared exactly, where an outcome
/// of weight 0 stands infinitely far back.
pub open spec fn ranks_before(w_a: u64, v_a: u64, w_b: u64, v_b: u64) -> bool {
    if w_a == 0 {
        false
    } else if w_b == 0 {
        true
    } else {
        v_a * w_b < v_b * w_a
    }
}

/// Whether `m` is the first of the outcomes that nothing ranks before, each outcome given
/// the seed value at its place in `values`.
pub open spec fn is_first_min(entries: Seq<(u64, i32)>, values: Seq<u64>, m: int) -> bool {
    &&& 0 <= m < entries.len()
    &&& forall|j: int|
        0 <= j < m ==> ranks_before(entries[m].0, values[m], #[trigger] entries[j].0, values[j])
    &&& forall|j: int|
        m < j < entries.len() ==> !ranks_before(#[trigger] entries[j].0, values[j], entries[m].0, values[m])
}

/// Ranking is a strict weak order: an outcome that ranks before a second, which a third
/// does not rank before, ranks before the third.
proof fn lemma_ranks_before_mixed(w_a: u64, v_a: u64, w_b: u64, v_b: u64, w_c: u64, v_c: u64)
    requires
        ranks_before(w_a, v_a, w_b, v_b),
        !ranks_before(w_c, v_c, w_b, v_b),
    ensures
        ranks_before(w_a, v_a, w_c, v_c),
{
    if w_b != 0 && w_c != 0 {
        assert(v_a * w_c < v_c * w_a) by (nonlinear_arith)
            requires
                v_a * w_b < v_b * w_a,
                v_c * w_b >= v_b * w_c,
                w_a > 0,
                w_b > 0,
                w_c > 0,
        {
            assert(v_a * w_b * w_c < v_b * w_a * w_c);
            assert(v_c * w_b * w_a >= v_b * w_c * w_a);
        }
    }
}

/// Ranking is irreflexive and asymmetric.
proof fn lemma_ranks_before_asymmetric(w_a: u64, v_a: u64, w_b: u64, v_b: u64)
    ensures
        !ranks_before(w_a, v_a, w_a, v_a),
        ranks_before(w_a, v_a, w_b, v_b) ==> !ranks_before(w_b, v_b, w_a, v_a),
{
}

/// Whether an outcome ranks before another, by exact products.
fn ranks_before_exec(w_a: u64, v_a: u64, w_b: u64, v_b: u64) -> (before: bool)
    ensures
        before == ranks_before(w_a, v_a, w_b, v_b),
{
    if w_a == 0 {
        false
    } else if w_b == 0 {
        true
    } else {
        proof {
            assert((v_a as u128) * (w_b as u128) <= 0xffff_ffff_ffff_ffffu128 * 0xffff_ffff_ffff_ffffu128)
                by (nonlinear_arith);
            assert((v_b as u128) * (w_a as u128) <= 0xffff_ffff_ffff_ffffu128 * 0xffff_ffff_ffff_ffffu128)
                by (nonlinear_arith);
        }
        (v_a as u128) * (w_b as u128) < (v_b as u128) * (w_a as u128)
    }
}

/// Picks an outcome of a random event from the seed's value for each outcome (given in
/// the order of the outcomes): the first outcome with the least value per weight. An
/// outcome's value decides nothing about which of the others is picked.
pub fn choose_by_values(distribution: &Distribution, values: &Vec<u64>) -> (choice: i32)
    requires
        distribution.0@.len() > 0,
        values@.len() == distribution.0@.len(),
    ensures
        exists|m: int| is_first_min(distribution.0@, values@, m) && choice == distribution.0@[m].1,
{
    let entries = &distribution.0;
    let mut best: usize = 0;
    let mut i: usize = 1;
    while i < entries.len()
        invariant
            entries@ == distribution.0@,
            values@.len() == entries@.len(),
            1 <= i <= entries@.len(),
            is_first_min(entries@.subrange(0, i as int), values@.subrange(0, i as int), best as int),
        decreases entries@.len() - i,
    {
        let ghost prefix = entries@.subrange(0, i as int);
        let ghost pvalues = values@.subrange(0, i as int);
        let ghost next = entries@.subrange(0, i + 1);
        let ghost nvalues = values@.subrange(0, i + 1);
        if ranks_before_exec(entries[i].0, values[i], entries[best].0, values[best]) {
            proof {
                assert forall|j: int| 0 <= j < i implies ranks_before(
                    next[i as int].0,
                    nvalues[i as int],
                    #[trigger] next[j].0,
                    nvalues[j],
                ) by {
                    assert(next[j] == prefix[j] && nvalues[j] == pvalues[j]);
                    if j == best {
                    } else if j < best {
                        lemma_ranks_before_mixed(
                            entries@[i as int].0, values@[i as int], entries@[best as int].0,
                            values@[best as int], entries@[j].0, values@[j],
                        );
                        assert(ranks_before(prefix[best as int].0, pvalues[best as int], prefix[j].0, pvalues[j]));
                        lemma_ranks_before_asymmetric(
                            entries@[best as int].0, values@[best as int], entries@[j].0, values@[j],
                        );
                    } else {
                        assert(!ranks_before(prefix[j].0, pvalues[j], prefix[best as int].0, pvalues[best as int]));
                        lemma_ranks_before_mixed(
                            entries@[i as int].0, values@[i as int], entries@[best as int].0,
                            values@[best as int], entries@[j].0, values@[j],
                        );
                    }
                }
            }
            best = i;
        } else {
            proof {
                assert forall|j: int| 0 <= j < best implies ranks_before(
                    next[best as int].0,
                    nvalues[best as int],
                    #[trigger] next[j].0,
                    nvalues[j],
                ) by {
                    assert(next[j] == prefix[j] && nvalues[j] == pvalues[j]);
                }
                assert forall|j: int| best < j < i + 1 implies !ranks_before(
                    #[trigger] next[j].0,
                    nvalues[j],
                    next[best as int].0,
                    nvalues[best as int],
                ) by {
                    if j < i {
                        assert(next[j] == prefix[j] && nvalues[j] == pvalues[j]);
                    }
                }
            }
        }
        i = i + 1;
    }
    assert(entries@.subrange(0, entries@.len() as int) =~= entries@);
    assert(values@.subrange(0, values@.len() as int) =~= values@);
    entries[best].1
}

/// Something that gives a value for each possible outcome of a random event of a game.
/// A view may change as it answers (it may count the questions it was asked).
pub trait SeedView<G: GameState>: Sized {
    /// The value the view, as it stands, gives the outcome `choice` of the random event
    /// `fork_type` in `state`.
    spec fn spec_gen(&self, state: G, fork_type: G::RandomForkType, choice: G::RandomChoice) -> u64;

    /// The view after it gave that value.
    spec fn spec_after_gen(&self, state: G, fork_type: G::RandomForkType, choice: G::RandomChoice) -> Self;

    /// Gives the value of the outcome `choice` of the random event `fork_type` in `state`.
    fn gen(&mut self, state: &G, fork_type: &G::RandomForkType, choice: &G::RandomChoice) -> (value: u64)
        ensures
            value == old(self).spec_gen(*state, *fork_type, *choice),
            *final(self) == old(self).spec_after_gen(*state, *fork_type, *choice),
    ;
}

/// The seed after it was asked, in order, for the first `k` of `options`.
pub open spec fn seed_after<S: SeedView<CombatState>>(
    seed: S,
    state: CombatState,
    action: DynAction,
    options: Seq<(u64, i32)>,
    k: nat,
) -> S
    decreases k,
{
    if k == 0 {
        seed
    } else {
        seed_after(seed, state, action, options, (k - 1) as nat).spec_after_gen(
            state,
            action,
            options[k - 1].1,
        )
    }
}

/// The values the seed gives the outcomes `options`, asked once each, in order.
pub open spec fn seed_values<S: SeedView<CombatState>>(
    seed: S,
    state: CombatState,
    action: DynAction,
    options: Seq<(u64, i32)>,
) -> Seq<u64> {
    Seq::new(
        options.len(),
        |k: int| seed_after(seed, state, action, options, k as nat).spec_gen(state, action, options[k].1),
    )
}

/// The outcome picked from `entries` by `values`: the first that no other ranks before.
pub open spec fn spec_pick(entries: Seq<(u64, i32)>, values: Seq<u64>) -> i32 {
    entries[choose|m: int| is_first_min(entries, values, m)].1
}

/// Picks an outcome of a random action of a combat with a seed: the seed is asked for a
/// value for every outcome, once each, in order (so the presence of an outcome changes
/// neither how often the seed is asked for the others nor, when it is not picked, which
/// one is; see `lemma_seed_pick_ignores_unpicked_outcomes`), and the outcome is picked
/// from the values (see `choose_by_values`).
pub fn choose_choice<S: SeedView<CombatState>>(
    state: &CombatState,
    action: &DynAction,
    distribution: &Distribution,
    seed: &mut S,
) -> (choice: i32)
    requires
        distribution.0@.len() > 0,
    ensures
        *final(seed) == seed_after(*old(seed), *state, *action, distribution.0@, distribution.0@.len()),
        exists|m: int|
            is_first_min(
                distribution.0@,
                seed_values(*old(seed), *state, *action, distribution.0@),
                m,
            ),
        choice == spec_pick(distribution.0@, seed_values(*old(seed), *state, *action, distribution.0@)),
{
    let ghost start = *seed;
    let ghost options = distribution.0@;
    let mut values: Vec<u64> = Vec::new();
    let mut k: usize = 0;
    while k < distribution.0.len()
        invariant
            k <= distribution.0@.len(),
            options == distribution.0@,
            values@.len() == k,
            *seed == seed_after(start, *state, *action, options, k as nat),
            forall|j: int|
                0 <= j < k ==> #[trigger] values@[j] == seed_after(start, *state, *action, options, j as nat).spec_gen(
                    *state,
                    *action,
                    options[j].1,
                ),
        decreases distribution.0@.len() - k,
    {
        let option = distribution.0[k].1;
        let value = seed.gen(state, action, &option);
        values.push(value);
        k = k + 1;
    }
    let choice = choose_by_values(distribution, &values);
    proof {
        assert(values@ =~= seed_values(start, *state, *action, options));
        let m = choose|m: int| is_first_min(distribution.0@, values@, m) && choice == distribution.0@[m].1;
        let n = choose|n: int| is_first_min(options, values@, n);
        lemma_first_min_unique(options, values@, m, n);
    }
    choice
}

/// A seed's pick for a random action does not depend on an outcome it does not pick: with
/// that outcome taken away, a seed that gives the other outcomes the values the first
/// seed gave them picks the same outcome.
pub proof fn lemma_seed_pick_ignores_unpicked<S: SeedView<CombatState>>(
    first: S,
    second: S,
    state: CombatState,
    action: DynAction,
    options: Seq<(u64, i32)>,
    k: int,
)
    requires
        0 <= k < options.len(),
        options[k].1 != spec_pick(options, seed_values(first, state, action, options)),
        exists|m: int| is_first_min(options, seed_values(first, state, action, options), m),
        seed_values(second, state, action, options.remove(k)) == seed_values(first, state, action, options).remove(k),
    ensures
        spec_pick(options.remove(k), seed_values(second, state, action, options.remove(k)))
            == spec_pick(options, seed_values(first, state, action, options)),
{
    let values = seed_values(first, state, action, options);
    let m = choose|m: int| is_first_min(options, values, m);
    assert(k != m);
    lemma_unpicked_outcome_irrelevant(options, values, m, k);
    let m2 = if k < m { m - 1 } else { m };
    let n = choose|n: int| is_first_min(options.remove(k), values.remove(k), n);
    lemma_first_min_unique(options.remove(k), values.remove(k), m2, n);
}

/// The items of `items` whose places `keep` marks, in order.
pub open spec fn kept<A>(items: Seq<A>, keep: Seq<bool>) -> Seq<A>
    decreases items.len(),
{
    if items.len() == 0 {
        seq![]
    } else {
        let rest = kept(items.drop_last(), keep.drop_last());
        if keep.last() {
            rest.push(items.last())
        } else {
            rest
        }
    }
}

proof fn lemma_kept_all<A>(items: Seq<A>, keep: Seq<bool>)
    requires
        keep.len() == items.len(),
        forall|i: int| 0 <= i < keep.len() ==> keep[i],
    ensures
        kept(items, keep) == items,
    decreases items.len(),
{
    if items.len() > 0 {
        lemma_kept_all(items.drop_last(), keep.drop_last());
        assert(items.drop_last().push(items.last()) =~= items);
    }
}

proof fn lemma_kept_remove<A>(items: Seq<A>, keep: Seq<bool>, i: int)
    requires
        keep.len() == items.len(),
        0 <= i < items.len(),
        !keep[i],
    ensures
        kept(items, keep) == kept(items.remove(i), keep.remove(i)),
    decreases items.len(),
{
    let n = items.len();
    if i == n - 1 {
        assert(items.remove(i) =~= items.drop_last());
        assert(keep.remove(i) =~= keep.drop_last());
    } else {
        lemma_kept_remove(items.drop_last(), keep.drop_last(), i);
        assert(items.remove(i).drop_last() =~= items.drop_last().remove(i));
        assert(keep.remove(i).drop_last() =~= keep.drop_last().remove(i));
        assert(items.remove(i).last() == items.last());
        assert(keep.remove(i).last() == keep.last());
    }
}

/// Keeping the picked outcome and any others, with their values, leaves the same outcome
/// picked.
proof fn lemma_first_min_kept(entries: Seq<(u64, i32)>, values: Seq<u64>, keep: Seq<bool>, m: int)
    requires
        values.len() == entries.len(),
        keep.len() == entries.len(),
        is_first_min(entries, values, m),
        keep[m],
    ensures
        exists|m2: int|
            is_first_min(kept(entries, keep), kept(values, keep), m2) && kept(entries, keep)[m2]
                == entries[m],
    decreases entries.len(),
{
    if forall|i: int| 0 <= i < keep.len() ==> keep[i] {
        lemma_kept_all(entries, keep);
        lemma_kept_all(values, keep);
    } else {
        let i = choose|i: int| 0 <= i < keep.len() && !keep[i];
        lemma_unpicked_outcome_irrelevant(entries, values, m, i);
        let m1 = if i < m { m - 1 } else { m };
        assert(keep.remove(i)[m1] == keep[m]);
        lemma_first_min_kept(entries.remove(i), values.remove(i), keep.remove(i), m1);
        lemma_kept_remove(entries, keep, i);
        lemma_kept_remove(values, keep, i);
    }
}

/// A seed's pick for a random action does not depend on the outcomes it does not pick:
/// with any of them taken away, a seed that gives the outcomes kept the values the first
/// seed gave them picks the same outcome.
pub proof fn lemma_seed_pick_ignores_unpicked_outcomes<S: SeedView<CombatState>>(
    first: S,
    second: S,
    state: CombatState,
    action: DynAction,
    options: Seq<(u64, i32)>,
    keep: Seq<bool>,
)
    requires
        keep.len() == options.len(),
        exists|m: int| is_first_min(options, seed_values(first, state, action, options), m),
        forall|i: int|
            0 <= i < options.len() && !keep[i] ==> #[trigger] options[i].1 != spec_pick(
                options,
                seed_values(first, state, action, options),
            ),
        seed_values(second, state, action, kept(options, keep)) == kept(
            seed_values(first, state, action, options),
            keep,
        ),
    ensures
        spec_pick(kept(options, keep), seed_values(second, state, action, kept(options, keep)))
            == spec_pick(options, seed_values(first, state, action, options)),
{
    let values = seed_values(first, state, action, options);
    let m = choose|m: int| is_first_min(options, values, m);
    if !keep[m] {
        assert(options[m].1 != spec_pick(options, values));
    }
    lemma_first_min_kept(options, values, keep, m);
    let m2 = choose|m2: int|
        is_first_min(kept(options, keep), kept(values, keep), m2) && kept(options, keep)[m2] == options[m];
    let n = choose|n: int| is_first_min(kept(options, keep), kept(values, keep), n);
    lemma_first_min_unique(kept(options, keep), kept(values, keep), m2, n);
}

/// At most one outcome is the first that nothing ranks before.
pub proof fn lemma_first_min_unique(entries: Seq<(u64, i32)>, values: Seq<u64>, m: int, n: int)
    requires
        is_first_min(entries, values, m),
        is_first_min(entries, values, n),
    ensures
        m == n,
{
    if m < n {
        assert(ranks_before(entries[n].0, values[n], entries[m].0, values[m]));
    } else if n < m {
        assert(ranks_before(entries[m].0, values[m], entries[n].0, values[n]));
    }
}

/// The presence or absence of an outcome that is not picked has no effect on which
/// outcome is picked: taking it away, with its value, leaves the same outcome picked.
pub proof fn lemma_unpicked_outcome_irrelevant(entries: Seq<(u64, i32)>, values: Seq<u64>, m: int, k: int)
    requires
        values.len() == entries.len(),
        is_first_min(entries, values, m),
        0 <= k < entries.len(),
        k != m,
    ensures
        is_first_min(
            entries.remove(k),
            values.remove(k),
            if k < m { m - 1 } else { m },
        ),
        entries.remove(k)[if k < m { m - 1 } else { m }] == entries[m],
{
    let e = entries.remove(k);
    let v = values.remove(k);
    let m2 = if k < m { m - 1 } else { m };
    assert(e[m2] == entries[m] && v[m2] == values[m]);
    assert forall|j: int| 0 <= j < m2 implies ranks_before(e[m2].0, v[m2], #[trigger] e[j].0, v[j]) by {
        let oj = if j < k { j } else { j + 1 };
        assert(e[j] == entries[oj] && v[j] == values[oj]);
    }
    assert forall|j: int| m2 < j < e.len() implies !ranks_before(#[trigger] e[j].0, v[j], e[m2].0, v[m2]) by {
        let oj = if j < k { j } else { j + 1 };
        assert(e[j] == entries[oj] && v[j] == values[oj]);
    }
}

/// A game whose random events the seeds answer: each random event is forked by an
/// action and each outcome is a choice.
pub trait GameState {
    type RandomForkType;
    type RandomChoice;
}

/// Names the lineage a random outcome belongs to: outcomes of one lineage share their
/// random values across playouts of one seed.
pub trait ChoiceLineageIdentity<G: GameState>: Sized {
    /// Whether the outcome can be named (an outcome that picks an item names one that exists).
    spec fn identity_defined(state: &G, fork_type: &G::RandomForkType, choice: &G::RandomChoice) -> bool;

    fn lineage_identity(state: &G, fork_type: &G::RandomForkType, choice: &G::RandomChoice) -> Self
        requires
            Self::identity_defined(state, fork_type, choice),
    ;
}

/// One value per lineage.
pub trait ChoiceLineages: Sized {
    type LineageIdentity;
    type Lineage;

    /// Whether the lineages can hold a value for this identity.
    spec fn holds_identity(&self, identity: Self::LineageIdentity) -> bool;

    /// The value of a lineage, created when first asked for.
    fn get_mut(&mut self, identity: Self::LineageIdentity) -> &mut Self::Lineage
        requires
            old(self).holds_identity(identity),
    ;
}

/// A way of naming lineages.
pub trait ChoiceLineagesKind {
    type LineageIdentity;
}

/// Makes seeds.
pub trait SeedGenerator<S> {
    fn make_seed(&mut self) -> S;
}

/// A single lineage holding every outcome.
#[derive(Clone, Debug, Default)]
pub struct TrivialChoiceLineages<T>(pub T);

/// Lineages of which there is only one.
pub struct TrivialChoiceLineagesKind;

impl<T> ChoiceLineages for TrivialChoiceLineages<T> {
    type LineageIdentity = ();
    type Lineage = T;

    open spec fn holds_identity(&self, identity: ()) -> bool {
        true
    }

    fn get_mut(&mut self, identity: ()) -> (lineage: &mut T)
        ensures
            *lineage == old(self).0,
            final(self).0 == *final(lineage),
    {
        &mut self.0
    }
}

impl ChoiceLineagesKind for TrivialChoiceLineagesKind {
    type LineageIdentity = ();
}

/// Playing with no seed: only random events with a single outcome can be resolved.
#[derive(Clone, Debug)]
pub struct NoRandomness;

} // verus!
