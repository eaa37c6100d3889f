//! What playing a card would do, as the strategies weigh it, and playing combats out
//! with a strategy and a seed.
use vstd::prelude::*;

use crate::actions::{AttackDamageRandomEnemyAction, DamageAction, DamageAllEnemiesAction, DynAction};
use crate::simulation::{
    owner_amount_in_range, spec_damage_output, spec_target_amount, CreatureIndex,
};
use crate::simulation_state::cards::{
    card_behavior_actions, spec_block_total, spec_card_actions, spec_card_hits_target,
    spec_power_monsters,
};
use crate::simulation_state::{
    alike_combat, copy_list, lemma_same_combat_refl, lemma_same_combat_wf, same_combat, same_monster, CombatState, PowerId, SingleCard,
};
use crate::runner::{
    can_apply, choice_steps, engine_step, lemma_legal_choices_applicable, lemma_listed_outcomes_allowed,
    runner_budget, spec_executable, spec_random_options,
    lemma_same_combat_applicable, resolution_steps, spec_applicable, spec_can_apply,
    spec_outcome_allowed, spec_stopped, Determinism,
};
use crate::seed_system::{choose_choice, is_first_min, seed_after, seed_values, spec_pick, SeedView};
use crate::simulation::{
    all_gone, lemma_legal_choices_shape, spec_combat_over, spec_legal_choices, HARD_ACTION_LIMIT,
    MAX_LEGAL_CHOICES,
};
use std::collections::VecDeque;

verus! {

/// The block a card would give and the damage it would deal each monster.
#[derive(Clone, Debug)]
pub struct CardPlayStats {
    pub block_amount: i32,
    /// Damage per monster, by monster index, summed exactly.
    pub damage: Vec<i128>,
}

impl Default for CardPlayStats {
    /// No block and no damage, for choices that play no card.
    fn default() -> (stats: CardPlayStats)
        ensures
            stats.block_amount == 0,
            stats.damage@.len() == 0,
    {
        CardPlayStats { block_amount: 0, damage: Vec::new() }
    }
}

/// The damage one action would deal monster `index`: a hit on it, or a hit on every
/// monster after its own powers (only for exact damage in the range the powers produce).
/// A random attack would add each present monster its share of the hit, but no card
/// makes one (see `lemma_cards_make_no_random_attack`), so card plays never count one.
pub open spec fn spec_action_damage_to(state: CombatState, action: DynAction, index: int) -> int {
    match action {
        DynAction::DamageAction(DamageAction { target, info }) => if target
            == CreatureIndex::Monster(index as usize) {
            info.output as int
        } else {
            0
        },
        DynAction::DamageAllEnemiesAction(DamageAllEnemiesAction { info }) => if owner_amount_in_range(
            info.intermediate,
        ) {
            spec_damage_output(
                spec_target_amount(
                    state,
                    info.damage_type,
                    info.intermediate.pair(),
                    CreatureIndex::Monster(index as usize),
                ),
            ) as int
        } else {
            0
        },
        _ => 0,
    }
}

/// No card makes a random attack, so the share of a random attack that each monster would
/// take never enters a card's damage.
pub proof fn lemma_cards_make_no_random_attack(state: CombatState, card: SingleCard, target: usize)
    ensures
        forall|i: int|
            0 <= i < spec_card_actions(state, card, target).len() ==> !(#[trigger] spec_card_actions(
                state,
                card,
                target,
            )[i] is AttackDamageRandomEnemyAction),
{
    assert forall|i: int| 0 <= i < spec_card_actions(state, card, target).len() implies !(
    #[trigger] spec_card_actions(state, card, target)[i] is AttackDamageRandomEnemyAction) by {
        let actions = spec_card_actions(state, card, target);
        if card.card_id == crate::simulation_state::CardId::Thunderclap {
            if i > 0 {
                assert(actions[i] == spec_power_monsters(state, PowerId::Vulnerable, 1i32)[i - 1]);
            }
        }
    }
}

/// The damage a list of actions would deal monster `index`, summed exactly.
pub open spec fn spec_damage_to(state: CombatState, actions: Seq<DynAction>, index: int) -> int
    decreases actions.len(),
{
    if actions.len() == 0 {
        0
    } else {
        spec_damage_to(state, actions.drop_last(), index) + spec_action_damage_to(
            state,
            actions.last(),
            index,
        )
    }
}

proof fn lemma_damage_to_bound(state: CombatState, actions: Seq<DynAction>, index: int)
    ensures
        -(actions.len() * 0x8000_0000) <= spec_damage_to(state, actions, index) <= actions.len()
            * 0x8000_0000,
    decreases actions.len(),
{
    if actions.len() > 0 {
        lemma_damage_to_bound(state, actions.drop_last(), index);
    }
}

/// Adds the damage one action would deal each monster.
fn add_action_damage(
    state: &CombatState,
    damage: &mut Vec<i128>,
    action: DynAction,
    Ghost(count): Ghost<int>,
)
    requires
        state.wf(),
        old(damage)@.len() == state.monsters@.len(),
        0 <= count <= 0xffff_ffff_ffff_ffff,
        forall|k: int|
            0 <= k < old(damage)@.len() ==> -(count * 0x8000_0000) <= #[trigger] old(damage)@[k]
                <= count * 0x8000_0000,
    ensures
        final(damage)@.len() == old(damage)@.len(),
        forall|k: int|
            0 <= k < old(damage)@.len() ==> #[trigger] final(damage)@[k] == old(damage)@[k]
                + spec_action_damage_to(*state, action, k),
{
    assert(count * 0x8000_0000 <= 0xffff_ffff_ffff_ffff * 0x8000_0000) by (nonlinear_arith)
        requires
            0 <= count <= 0xffff_ffff_ffff_ffff,
    ;
    let ghost start = damage@;
    let mut j: usize = 0;
    while j < damage.len()
        invariant
            j <= damage@.len(),
            state.wf(),
            damage@.len() == start.len(),
            start.len() == state.monsters@.len(),
            count * 0x8000_0000 <= 0xffff_ffff_ffff_ffff * 0x8000_0000,
            forall|k: int|
                0 <= k < start.len() ==> -(count * 0x8000_0000) <= #[trigger] start[k] <= count
                    * 0x8000_0000,
            forall|k: int|
                0 <= k < j ==> #[trigger] damage@[k] == start[k] + spec_action_damage_to(
                    *state,
                    action,
                    k,
                ),
            forall|k: int| j <= k < damage@.len() ==> #[trigger] damage@[k] == start[k],
        decreases damage@.len() - j,
    {
        let extra: i128 = match action {
            DynAction::DamageAction(a) => {
                if a.target == CreatureIndex::Monster(j) {
                    a.info.output as i128
                } else {
                    0
                }
            },
            DynAction::DamageAllEnemiesAction(a) => {
                if a.info.intermediate_in_range() {
                    a.info.apply_target_powers(state, CreatureIndex::Monster(j)).output as i128
                } else {
                    0
                }
            },
            _ => 0,
        };
        let total = damage[j] + extra;
        damage.set(j, total);
        j = j + 1;
    }
}

/// What playing `card` at `target` would do: the block of its block actions (summed
/// like `i32`, wrapping) and, for each monster, the damage its actions would deal it.
pub fn card_play_stats(state: &CombatState, card: &SingleCard, target: usize) -> (stats:
    CardPlayStats)
    requires
        state.wf(),
        spec_card_hits_target(card.card_id) ==> target < state.monsters@.len(),
    ensures
        stats.block_amount == spec_block_total(spec_card_actions(*state, *card, target)),
        stats.damage@.len() == state.monsters@.len(),
        forall|m: int|
            0 <= m < state.monsters@.len() ==> #[trigger] stats.damage@[m] == spec_damage_to(
                *state,
                spec_card_actions(*state, *card, target),
                m,
            ),
{
    let actions = card_behavior_actions(state, card, target);
    let mut block: i32 = 0;
    let mut damage: Vec<i128> = Vec::new();
    let mut m: usize = 0;
    while m < state.monsters.len()
        invariant
            m <= state.monsters@.len(),
            damage@.len() == m,
            forall|j: int| 0 <= j < m ==> #[trigger] damage@[j] == 0,
        decreases state.monsters@.len() - m,
    {
        damage.push(0);
        m = m + 1;
    }
    let mut i: usize = 0;
    while i < actions.len()
        invariant
            i <= actions@.len(),
            state.wf(),
            actions@ == spec_card_actions(*state, *card, target),
            block == spec_block_total(actions@.subrange(0, i as int)),
            damage@.len() == state.monsters@.len(),
            forall|j: int|
                0 <= j < state.monsters@.len() ==> #[trigger] damage@[j] == spec_damage_to(
                    *state,
                    actions@.subrange(0, i as int),
                    j,
                ),
        decreases actions@.len() - i,
    {
        proof {
            assert(actions@.subrange(0, i + 1).drop_last() =~= actions@.subrange(0, i as int));
            assert forall|k: int| 0 <= k < damage@.len() implies -(i * 0x8000_0000) <= #[trigger] damage@[k]
                <= i * 0x8000_0000 by {
                lemma_damage_to_bound(*state, actions@.subrange(0, i as int), k);
            }
        }
        let action = actions[i];
        match action {
            DynAction::GainBlockAction(a) => {
                block = block.wrapping_add(a.amount);
            },
            _ => {},
        }
        add_action_damage(state, &mut damage, action, Ghost(i as int));
        i = i + 1;
    }
    proof {
        assert(actions@.subrange(0, actions@.len() as int) =~= actions@);
    }
    CardPlayStats { block_amount: block, damage }
}


/// Picks the player's next choices in a combat.
pub trait Strategy {
    /// Whether `choices` is an answer the strategy may give when asked in `state`.
    spec fn spec_answers(&self, state: CombatState, choices: Vec<DynAction>) -> bool;

    /// The strategy's next choices in `state`, to be applied in order.
    fn choose_choice(&self, state: &CombatState) -> (choices: Vec<DynAction>)
        ensures
            self.spec_answers(*state, choices),
    ;
}

/// The strategy, asked in `state`, may answer with nothing that can be applied there at
/// once: no choice, or a first choice that cannot be applied now (something is queued, or
/// the runner cannot apply it).
pub open spec fn strategy_stuck<T: Strategy>(strategy: T, state: CombatState) -> bool {
    exists|answer: Vec<DynAction>|
        #[trigger] strategy.spec_answers(state, answer) && (answer@.len() == 0 || !(calm(state)
            && spec_can_apply(state, answer@[0])))
}

/// The random events resolved along `states`, the `k`-th through the two states of
/// `mids` at its place, with the outcome `values[k]`, which the action then on top of the
/// stack could take.
pub open spec fn resolution_path(states: Seq<CombatState>, mids: Seq<(CombatState, CombatState)>, values: Seq<i32>) -> bool {
    &&& states.len() == mids.len() + 1
    &&& values.len() == mids.len()
    &&& forall|k: int|
        0 <= k < mids.len() ==> #[trigger] resolution_steps(states[k], mids[k].0, mids[k].1, states[k + 1], values[k])
            && spec_outcome_allowed(states[k], states[k].stale_subaction_stack@.last(), values[k])
}

/// The choices applied along `states`, the `k`-th through the two states of `mids` at its
/// place, each applicable when it was applied.
pub open spec fn choice_path(states: Seq<CombatState>, mids: Seq<(CombatState, CombatState)>, choices: Seq<DynAction>) -> bool {
    &&& states.len() == choices.len() + 1
    &&& mids.len() == choices.len()
    &&& forall|k: int| 0 <= k < choices.len() ==> #[trigger] choice_made_at(states, mids, choices, k)
}

/// The `k`-th choice of a path could be applied where it was made, and took the path
/// from its `k`-th state to the next.
pub open spec fn choice_made_at(
    states: Seq<CombatState>,
    mids: Seq<(CombatState, CombatState)>,
    choices: Seq<DynAction>,
    k: int,
) -> bool {
    &&& spec_applicable(states[k], choices[k])
    &&& choice_steps(states[k], mids[k].0, mids[k].1, states[k + 1], choices[k])
}

/// Play from `pre` ended at `post`: the combat is still well formed, no action count or
/// monster was lost, and the runner has nothing it can do.
pub open spec fn played(pre: CombatState, post: CombatState) -> bool {
    &&& post.wf()
    &&& post.num_actions >= pre.num_actions
    &&& post.monsters@.len() >= pre.monsters@.len()
    &&& spec_stopped(post)
}

/// The action on top of the stack lists more outcomes than an `i32` can number.
pub open spec fn too_many_outcomes(state: CombatState) -> bool {
    spec_random_options(state, state.stale_subaction_stack@.last()) matches Some(options)
        && options.len() > 0x8000_0000
}

/// No random event waits that a seed could settle: the combat is over, something waits on
/// the fresh queue, nothing is on the stack, or the action on top cannot run, leaves
/// nothing to chance, or has no outcome (or more than an `i32` can number).
pub open spec fn no_random_event_waiting(state: CombatState) -> bool {
    ||| spec_combat_over(state)
    ||| state.fresh_subaction_queue@.len() > 0
    ||| state.stale_subaction_stack@.len() == 0
    ||| !spec_executable(state, state.stale_subaction_stack@.last())
    ||| spec_random_options(state, state.stale_subaction_stack@.last()) is None
    ||| spec_random_options(state, state.stale_subaction_stack@.last())->0.len() == 0
    ||| too_many_outcomes(state)
}

/// The `k`-th random event along `states` got the seed's pick: the seed as it then stood,
/// `seeds[k]`, was asked about every outcome of the action on top, once each, in order
/// (leaving it as `seeds[k + 1]`), and `values[k]` is the outcome it picked.
pub open spec fn seed_pick_at<S: SeedView<CombatState>>(
    states: Seq<CombatState>,
    values: Seq<i32>,
    seeds: Seq<S>,
    k: int,
) -> bool {
    let top = states[k].stale_subaction_stack@.last();
    let options = spec_random_options(states[k], top)->0;
    &&& values[k] == spec_pick(options, seed_values(seeds[k], states[k], top, options))
    &&& seeds[k + 1] == seed_after(seeds[k], states[k], top, options, options.len())
}

/// Every random event along `states` got the seed's pick.
pub open spec fn seed_picks<S: SeedView<CombatState>>(states: Seq<CombatState>, values: Seq<i32>, seeds: Seq<S>) -> bool {
    &&& seeds.len() == values.len() + 1
    &&& forall|k: int| 0 <= k < values.len() ==> #[trigger] seed_pick_at(states, values, seeds, k)
}

/// Gives each random event the runner stopped at the outcome the seed picks (see
/// `choose_choice`), until the runner stops at something else: at the end no random event
/// waits that the seed could settle.
pub fn resolve_random_events<S: SeedView<CombatState>>(state: &mut CombatState, seed: &mut S)
    requires
        old(state).wf(),
    ensures
        engine_step(*old(state), *final(state)),
        spec_stopped(*old(state)) ==> spec_stopped(*final(state)),
        no_random_event_waiting(*final(state)),
        exists|states: Seq<CombatState>, mids: Seq<(CombatState, CombatState)>, values: Seq<i32>, seeds: Seq<S>|
            #[trigger] resolution_path(states, mids, values) && states[0] == *old(state) && same_combat(
                states.last(),
                *final(state),
            ) && #[trigger] seed_picks(states, values, seeds) && seeds[0] == *old(seed) && (*final(seed)
                == seeds.last() || too_many_outcomes(*final(state))),
{
    let ghost mut states: Seq<CombatState> = seq![*state];
    let ghost mut mids: Seq<(CombatState, CombatState)> = seq![];
    let ghost mut values: Seq<i32> = seq![];
    let ghost mut seeds: Seq<S> = seq![*seed];
    loop
        invariant_except_break
            states.last() == *state,
            seeds.last() == *seed,
        invariant
            old(state).wf(),
            engine_step(*old(state), *state),
            spec_stopped(*old(state)) ==> spec_stopped(*state),
            resolution_path(states, mids, values),
            states[0] == *old(state),
            seed_picks(states, values, seeds),
            seeds[0] == *old(seed),
        ensures
            engine_step(*old(state), *state),
            spec_stopped(*old(state)) ==> spec_stopped(*state),
            resolution_path(states, mids, values),
            states[0] == *old(state),
            same_combat(states.last(), *state),
            seed_picks(states, values, seeds),
            seeds[0] == *old(seed),
            *seed == seeds.last() || too_many_outcomes(*state),
            no_random_event_waiting(*state),
        decreases runner_budget(*state),
    {
        proof {
            lemma_same_combat_refl(*state);
        }
        if state.combat_over() || state.fresh_subaction_queue.len() > 0 || state.stale_subaction_stack.len() == 0 {
            break;
        }
        let top = state.stale_subaction_stack[state.stale_subaction_stack.len() - 1];
        if !top.executable(state) {
            break;
        }
        let value = match top.determinism(state) {
            Determinism::Random(d) => {
                if d.0.len() == 0 {
                    break;
                }
                let ghost seed_before = *seed;
                let picked = choose_choice(state, &top, &d, seed);
                proof {
                    let options = d.0@;
                    let vals = seed_values(seed_before, *state, top, options);
                    let m = choose|m: int| is_first_min(options, vals, m);
                    if options.len() <= 0x8000_0000 {
                        lemma_listed_outcomes_allowed(*state, top, m);
                    }
                }
                picked
            },
            _ => {
                break;
            },
        };
        let ghost before = *state;
        let ghost seed_now = *seed;
        if !state.resolve_random(value) {
            break;
        }
        proof {
            let (taken, ran) = choose|taken: CombatState, ran: CombatState|
                #[trigger] resolution_steps(before, taken, ran, *state, value);
            let old_states = states;
            let old_mids = mids;
            let old_values = values;
            let old_seeds = seeds;
            states = states.push(*state);
            mids = mids.push((taken, ran));
            values = values.push(value);
            seeds = seeds.push(seed_now);
            assert(states[old_mids.len() as int] == before);
            assert forall|k: int| 0 <= k < mids.len() implies #[trigger] resolution_steps(
                states[k],
                mids[k].0,
                mids[k].1,
                states[k + 1],
                values[k],
            ) && spec_outcome_allowed(states[k], states[k].stale_subaction_stack@.last(), values[k]) by {
                if k < old_mids.len() {
                    assert(states[k] == old_states[k] && states[k + 1] == old_states[k + 1]);
                    assert(mids[k] == old_mids[k] && values[k] == old_values[k]);
                } else {
                    assert(states[k] == before && states[k + 1] == *state);
                    assert(mids[k] == (taken, ran) && values[k] == value);
                }
            }
            assert forall|k: int| 0 <= k < values.len() implies #[trigger] seed_pick_at(states, values, seeds, k) by {
                if k < old_values.len() {
                    assert(seed_pick_at(old_states, old_values, old_seeds, k));
                    assert(states[k] == old_states[k] && values[k] == old_values[k] && seeds[k] == old_seeds[k]
                        && seeds[k + 1] == old_seeds[k + 1]);
                } else {
                    assert(states[k] == before && values[k] == value && seeds[k] == old_seeds.last()
                        && seeds[k + 1] == seed_now);
                }
            }
        }
    }
}

/// Runs the queued actions and the random events, then lets the strategy choose until
/// the combat is over (or, with `until_third_turn`, the third turn has begun). A choice is
/// applied as a choice (see `apply_choice`) when `as_choices`, else handed to the runner
/// (see `action_now`) and run. Play stops early when the strategy offers no choice, or
/// one that cannot be applied now.
fn play_while<S: SeedView<CombatState>, T: Strategy>(
    state: &mut CombatState,
    seed: &mut S,
    strategy: &T,
    until_third_turn: bool,
    as_choices: bool,
)
    requires
        old(state).wf(),
    ensures
        played(*old(state), *final(state)),
        spec_combat_over(*final(state)) || (until_third_turn && final(state).turn_number >= 3)
            || strategy_stuck(*strategy, *final(state)),
{
    state.run_until_unable();
    resolve_random_events(state, seed);
    loop
        invariant
            played(*old(state), *state),
        ensures
            played(*old(state), *state),
            spec_combat_over(*state) || (until_third_turn && state.turn_number >= 3)
                || strategy_stuck(*strategy, *state),
        decreases runner_budget(*state),
    {
        if state.combat_over() || (until_third_turn && state.turn_number >= 3) {
            break;
        }
        let choices = strategy.choose_choice(state);
        let ghost asked = *state;
        let start = state.num_actions;
        let mut k: usize = 0;
        while k < choices.len()
            invariant
                played(*old(state), *state),
                start <= state.num_actions,
                k > 0 ==> start < state.num_actions,
                k <= choices@.len(),
                k == 0 ==> *state == asked,
            ensures
                played(*old(state), *state),
                start <= state.num_actions,
                k > 0 ==> start < state.num_actions,
                k == 0 ==> *state == asked && (choices@.len() == 0 || !(calm(*state) && spec_can_apply(
                    *state,
                    choices@[0],
                ))),
            decreases choices@.len() - k,
        {
            let choice = choices[k];
            if state.fresh_subaction_queue.len() == 0 && state.stale_subaction_stack.len() == 0
                && state.actions.len() == 0 && can_apply(state, &choice) {
                if as_choices {
                    state.apply_choice(choice);
                } else {
                    state.action_now(choice);
                    state.run_until_unable();
                }
                resolve_random_events(state, seed);
                k = k + 1;
            } else {
                break;
            }
        }
        if k == 0 {
            assert(strategy.spec_answers(asked, choices));
            assert(*state == asked);
            assert(strategy_stuck(*strategy, *state));
            break;
        }
    }
}

/// Plays a combat out: runs what is queued, then applies the strategy's choices (each
/// counted as a choice), the seed deciding every random event, until the combat is over;
/// play stops early when the strategy offers no choice, or one that cannot be applied now.
pub fn play_out<S: SeedView<CombatState>, T: Strategy>(state: &mut CombatState, seed: &mut S, strategy: &T)
    requires
        old(state).wf(),
    ensures
        played(*old(state), *final(state)),
        spec_combat_over(*final(state)) || strategy_stuck(*strategy, *final(state)),
{
    play_while(state, seed, strategy, false, true);
}

/// Plays the first turns of a combat: like `play_out`, but the strategy's choices are
/// handed to the runner as actions, and play stops once the third turn has begun.
pub fn play_some<S: SeedView<CombatState>, T: Strategy>(state: &mut CombatState, seed: &mut S, strategy: &T)
    requires
        old(state).wf(),
    ensures
        played(*old(state), *final(state)),
        spec_combat_over(*final(state)) || final(state).turn_number >= 3 || strategy_stuck(
            *strategy,
            *final(state),
        ),
{
    play_while(state, seed, strategy, true, false);
}

/// A path of choices grows by one applicable choice and the steps it took.
proof fn lemma_choice_path_push(
    states: Seq<CombatState>,
    mids: Seq<(CombatState, CombatState)>,
    choices: Seq<DynAction>,
    next: CombatState,
    mid: (CombatState, CombatState),
    choice: DynAction,
)
    requires
        choice_path(states, mids, choices),
        spec_applicable(states.last(), choice),
        choice_steps(states.last(), mid.0, mid.1, next, choice),
    ensures
        choice_path(states.push(next), mids.push(mid), choices.push(choice)),
{
    let s2 = states.push(next);
    let m2 = mids.push(mid);
    let c2 = choices.push(choice);
    assert forall|k: int| 0 <= k < c2.len() implies #[trigger] choice_made_at(s2, m2, c2, k) by {
        if k < choices.len() {
            assert(s2[k] == states[k] && s2[k + 1] == states[k + 1] && m2[k] == mids[k] && c2[k] == choices[k]);
            assert(choice_made_at(states, mids, choices, k));
        } else {
            assert(s2[k] == states.last() && s2[k + 1] == next && m2[k] == mid && c2[k] == choice);
        }
    }
}

/// The choices the strategy makes, on a copy of the combat with no randomness, while the
/// next step is the player's: they are applied one by one, each applicable when applied;
/// it stops early when the strategy offers no choice, or one that cannot be applied now.
pub fn starting_choices_made_by_strategy<T: Strategy>(state: &CombatState, strategy: &T) -> (choices: Vec<DynAction>)
    requires
        state.wf(),
    ensures
        exists|states: Seq<CombatState>, mids: Seq<(CombatState, CombatState)>|
            #[trigger] choice_path(states, mids, choices@) && same_combat(*state, states[0]) && (
            spec_combat_over(states.last()) || states.last().stale_subaction_stack@.len() > 0
                || strategy_stuck(*strategy, states.last())),
{
    let mut current = state.duplicate();
    proof {
        lemma_same_combat_wf(*state, current);
    }
    let ghost first = current;
    let ghost mut states: Seq<CombatState> = seq![current];
    let ghost mut mids: Seq<(CombatState, CombatState)> = seq![];
    let mut result: Vec<DynAction> = Vec::new();
    while current.choice_next()
        invariant
            current.wf(),
            choice_path(states, mids, result@),
            states[0] == first,
            same_combat(*state, first),
            states.last() == current,
        ensures
            choice_path(states, mids, result@),
            states[0] == first,
            states.last() == current,
            spec_combat_over(current) || current.stale_subaction_stack@.len() > 0 || strategy_stuck(
                *strategy,
                current,
            ),
        decreases runner_budget(current),
    {
        let choices = strategy.choose_choice(&current);
        let ghost asked = current;
        let start = current.num_actions;
        let mut k: usize = 0;
        while k < choices.len()
            invariant
                current.wf(),
                choice_path(states, mids, result@),
                states[0] == first,
                states.last() == current,
                start <= current.num_actions,
                k > 0 ==> start < current.num_actions,
                k <= choices@.len(),
                k == 0 ==> current == asked,
            ensures
                current.wf(),
                choice_path(states, mids, result@),
                states[0] == first,
                states.last() == current,
                start <= current.num_actions,
                k > 0 ==> start < current.num_actions,
                k == 0 ==> current == asked && (choices@.len() == 0 || !(calm(current) && spec_can_apply(
                    current,
                    choices@[0],
                ))),
            decreases choices@.len() - k,
        {
            let choice = choices[k];
            if current.fresh_subaction_queue.len() == 0 && current.stale_subaction_stack.len() == 0
                && current.actions.len() == 0 && can_apply(&current, &choice) {
                let ghost before = current;
                let ghost old_result = result@;
                assert(spec_can_apply(before, choice));
                current.apply_choice(choice);
                let ghost (chosen, applied) = choose|chosen: CombatState, applied: CombatState|
                    #[trigger] choice_steps(before, chosen, applied, current, choice);
                proof {
                    lemma_choice_path_push(states, mids, old_result, current, (chosen, applied), choice);
                    states = states.push(current);
                    mids = mids.push((chosen, applied));
                }
                result.push(choice);
                assert(result@ =~= old_result.push(choice));
                k = k + 1;
            } else {
                break;
            }
        }
        if k == 0 {
            assert(strategy.spec_answers(asked, choices));
            assert(strategy_stuck(*strategy, current));
            break;
        }
    }
    result
}


/// Nothing is queued in the combat.
pub open spec fn calm(state: CombatState) -> bool {
    &&& state.fresh_subaction_queue@.len() == 0
    &&& state.stale_subaction_stack@.len() == 0
    &&& state.actions@.len() == 0
}

/// The `k`-th step of a path of legal choices: the choice is legal where it is made, and
/// applying it to a copy of that combat reached the next combat of the path.
pub open spec fn starting_step(
    states: Seq<CombatState>,
    copies: Seq<CombatState>,
    mids: Seq<(CombatState, CombatState)>,
    choices: Seq<DynAction>,
    k: int,
) -> bool {
    &&& spec_legal_choices(states[k]).contains(choices[k])
    &&& same_combat(states[k], copies[k])
    &&& spec_applicable(copies[k], choices[k])
    &&& choice_steps(copies[k], mids[k].0, mids[k].1, states[k + 1], choices[k])
}

/// The combats `states` follow each other by the legal `choices`.
pub open spec fn starting_path(
    states: Seq<CombatState>,
    copies: Seq<CombatState>,
    mids: Seq<(CombatState, CombatState)>,
    choices: Seq<DynAction>,
) -> bool {
    &&& states.len() == choices.len() + 1
    &&& copies.len() == choices.len()
    &&& mids.len() == choices.len()
    &&& forall|k: int| 0 <= k < choices.len() ==> #[trigger] starting_step(states, copies, mids, choices, k)
}

/// Making the legal `choices` one after the other from `start` leads to `end`.
pub open spec fn reached_by(start: CombatState, end: CombatState, choices: Seq<DynAction>) -> bool {
    exists|states: Seq<CombatState>, copies: Seq<CombatState>, mids: Seq<(CombatState, CombatState)>|
        #[trigger] starting_path(states, copies, mids, choices) && states[0] == start && states.last()
            == end
}

proof fn lemma_reached_start(start: CombatState)
    ensures
        reached_by(start, start, seq![]),
{
    let states = seq![start];
    let copies: Seq<CombatState> = seq![];
    let mids: Seq<(CombatState, CombatState)> = seq![];
    assert(starting_path(states, copies, mids, seq![]));
}

proof fn lemma_reached_extend(
    start: CombatState,
    parent: CombatState,
    history: Seq<DynAction>,
    copy: CombatState,
    mid: (CombatState, CombatState),
    child: CombatState,
    choice: DynAction,
)
    requires
        reached_by(start, parent, history),
        spec_legal_choices(parent).contains(choice),
        same_combat(parent, copy),
        spec_applicable(copy, choice),
        choice_steps(copy, mid.0, mid.1, child, choice),
    ensures
        reached_by(start, child, history.push(choice)),
{
    let (states, copies, mids) = choose|
        states: Seq<CombatState>,
        copies: Seq<CombatState>,
        mids: Seq<(CombatState, CombatState)>,
    | #[trigger] starting_path(states, copies, mids, history) && states[0] == start && states.last()
        == parent;
    let s2 = states.push(child);
    let c2 = copies.push(copy);
    let m2 = mids.push(mid);
    let h2 = history.push(choice);
    assert forall|k: int| 0 <= k < h2.len() implies #[trigger] starting_step(s2, c2, m2, h2, k) by {
        if k < history.len() {
            assert(starting_step(states, copies, mids, history, k));
            assert(s2[k] == states[k] && s2[k + 1] == states[k + 1] && c2[k] == copies[k] && m2[k]
                == mids[k] && h2[k] == history[k]);
        } else {
            assert(s2[k] == parent && s2[k + 1] == child && c2[k] == copy && m2[k] == mid && h2[k]
                == choice);
        }
    }
    assert(starting_path(s2, c2, m2, h2) && s2[0] == start && s2.last() == child);
}

/// The actions a combat may still run before the hard limit.
spec fn actions_left(state: CombatState) -> nat {
    if state.num_actions < HARD_ACTION_LIMIT {
        (HARD_ACTION_LIMIT - state.num_actions) as nat
    } else {
        0
    }
}

/// One more than the most legal choices (`MAX_LEGAL_CHOICES`), to the power `e`.
spec fn branch_power(e: nat) -> int
    decreases e,
{
    if e == 0 {
        1
    } else {
        72 * branch_power((e - 1) as nat)
    }
}

proof fn lemma_branch_power_grows(e1: nat, e2: nat)
    requires
        e1 <= e2,
    ensures
        1 <= branch_power(e1) <= branch_power(e2),
    decreases e2,
{
    if e2 > 0 {
        if e1 == e2 {
            lemma_branch_power_grows((e1 - 1) as nat, (e2 - 1) as nat);
        } else {
            lemma_branch_power_grows(e1, (e2 - 1) as nat);
        }
    }
}

/// What is left to search: every combat in the frontier weighs the branching bound to the
/// power of its actions left, more than all the combats one choice away from it together.
spec fn frontier_weight(frontier: Seq<(CombatState, Vec<DynAction>)>) -> int
    decreases frontier.len(),
{
    if frontier.len() == 0 {
        0
    } else {
        frontier_weight(frontier.drop_last()) + branch_power(actions_left(frontier.last().0))
    }
}

proof fn lemma_frontier_weight_nonnegative(frontier: Seq<(CombatState, Vec<DynAction>)>)
    ensures
        frontier_weight(frontier) >= 0,
    decreases frontier.len(),
{
    if frontier.len() > 0 {
        lemma_frontier_weight_nonnegative(frontier.drop_last());
        lemma_branch_power_grows(0, actions_left(frontier.last().0));
    }
}

proof fn lemma_frontier_weight_front(frontier: Seq<(CombatState, Vec<DynAction>)>)
    requires
        frontier.len() > 0,
    ensures
        frontier_weight(frontier) == branch_power(actions_left(frontier[0].0)) + frontier_weight(
            frontier.subrange(1, frontier.len() as int),
        ),
        frontier_weight(frontier.subrange(1, frontier.len() as int)) >= 0,
    decreases frontier.len(),
{
    let rest = frontier.subrange(1, frontier.len() as int);
    if frontier.len() == 1 {
        assert(rest =~= Seq::<(CombatState, Vec<DynAction>)>::empty());
        assert(frontier.drop_last() =~= Seq::<(CombatState, Vec<DynAction>)>::empty());
    } else {
        lemma_frontier_weight_front(frontier.drop_last());
        lemma_branch_power_grows(0, actions_left(frontier.last().0));
        assert(frontier.drop_last().subrange(1, frontier.len() - 1) =~= rest.drop_last());
        assert(rest.last() == frontier.last());
        assert(frontier.drop_last()[0] == frontier[0]);
    }
}

/// A combat waiting in the frontier: well formed, calm, not over, and reached from the
/// start by its history.
pub open spec fn waiting_point(start: CombatState, entry: (CombatState, Vec<DynAction>)) -> bool {
    &&& entry.0.wf()
    &&& calm(entry.0)
    &&& !spec_combat_over(entry.0)
    &&& reached_by(start, entry.0, entry.1@)
}

/// The combat has run more actions than each of `others`.
pub open spec fn above_all(state: CombatState, others: Seq<CombatState>) -> bool {
    forall|j: int| 0 <= j < others.len() ==> #[trigger] others[j].num_actions < state.num_actions
}

/// A starting point found: reached from the start by a history of at least one choice,
/// where the runner stopped.
pub open spec fn found_point(start: CombatState, entry: (CombatState, Vec<DynAction>)) -> bool {
    &&& entry.1@.len() > 0
    &&& reached_by(start, entry.0, entry.1@)
    &&& spec_stopped(entry.0)
}

/// Where a breadth-first search of starting points stands: the combats still to expand,
/// each with the choices that lead to it, the results so far, and the combats expanded.
pub type SearchStage = (
    Seq<(CombatState, Vec<DynAction>)>,
    Seq<(CombatState, Vec<DynAction>)>,
    Seq<CombatState>,
);

/// `child` is where applying `choice` to a copy of `parent` leads.
pub open spec fn child_by(parent: CombatState, choice: DynAction, child: CombatState) -> bool {
    exists|copy: CombatState, mid: (CombatState, CombatState)|
        same_combat(parent, copy) && spec_applicable(copy, choice) && #[trigger] choice_steps(
            copy,
            mid.0,
            mid.1,
            child,
            choice,
        )
}

/// A combat found with `history` joins the combats still to expand when it is calm and
/// not over and the results and the combats still to expand number fewer than
/// `max_results`; otherwise it joins the results.
pub open spec fn placed(
    before: SearchStage,
    after: SearchStage,
    found: CombatState,
    history: Seq<DynAction>,
    max_results: int,
) -> bool {
    &&& after.2 == before.2
    &&& if before.1.len() < max_results && before.0.len() < max_results - before.1.len()
        && !spec_combat_over(found) && found.stale_subaction_stack@.len() == 0 {
        &&& after.1 == before.1
        &&& after.0.len() == before.0.len() + 1
        &&& after.0.drop_last() == before.0
        &&& after.0.last().0 == found
        &&& after.0.last().1@ == history
    } else {
        &&& after.0 == before.0
        &&& after.1.len() == before.1.len() + 1
        &&& after.1.drop_last() == before.1
        &&& after.1.last().0 == found
        &&& after.1.last().1@ == history
    }
}

/// The `k`-th legal choice of `parent` led to `children[k]`, which was placed, taking the
/// search from `stages[k]` to `stages[k + 1]`.
pub open spec fn expansion_step(
    stages: Seq<SearchStage>,
    children: Seq<CombatState>,
    parent: CombatState,
    history: Seq<DynAction>,
    max_results: int,
    k: int,
) -> bool {
    let choice = spec_legal_choices(parent)[k];
    &&& child_by(parent, choice, children[k])
    &&& placed(stages[k], stages[k + 1], children[k], history.push(choice), max_results)
}

/// Expanding `parent`, reached by `history`: each legal choice in turn, from `stages[0]`.
pub open spec fn expansion(
    stages: Seq<SearchStage>,
    children: Seq<CombatState>,
    parent: CombatState,
    history: Seq<DynAction>,
    max_results: int,
) -> bool {
    &&& stages.len() == spec_legal_choices(parent).len() + 1
    &&& children.len() == spec_legal_choices(parent).len()
    &&& forall|k: int|
        0 <= k < children.len() ==> #[trigger] expansion_step(stages, children, parent, history, max_results, k)
}

/// One round of the search: the first combat waiting is taken; when a combat alike to it
/// was already expanded it is dropped, else it is expanded and counted as expanded.
pub open spec fn search_round(before: SearchStage, after: SearchStage, max_results: int) -> bool {
    &&& before.0.len() > 0
    &&& {
        let entry = before.0[0];
        let taken: SearchStage = (before.0.drop_first(), before.1, before.2);
        if exists|j: int| 0 <= j < before.2.len() && alike_combat(#[trigger] before.2[j], entry.0) {
            after == taken
        } else {
            exists|stages: Seq<SearchStage>, children: Seq<CombatState>|
                #[trigger] expansion(stages, children, entry.0, entry.1@, max_results) && stages[0] == taken
                    && after == (stages.last().0, stages.last().1, stages.last().2.push(entry.0))
        }
    }
}

/// The search went round by round along `rounds`.
pub open spec fn search_run(rounds: Seq<SearchStage>, max_results: int) -> bool {
    &&& rounds.len() > 0
    &&& forall|k: int|
        0 <= k < rounds.len() - 1 ==> #[trigger] search_round(rounds[k], rounds[k + 1], max_results)
}

/// Searches the choices from a calm combat breadth first, each calm combat expanded once
/// (combats alike but for the order of the cards in a pile counting as one), and collects
/// where they lead: a combat that is over, or waits on a random event, or any combat once
/// the results and the combats still to expand number `max_results`. Each result comes
/// with the choices that lead to it. A combat that is already over is its own only result.
pub fn collect_starting_points(state: CombatState, max_results: usize) -> (results: Vec<
    (CombatState, Vec<DynAction>),
>)
    requires
        state.wf(),
        calm(state),
    ensures
        spec_combat_over(state) ==> results@.len() == 1 && results@[0].0 == state && results@[0].1@.len()
            == 0,
        !spec_combat_over(state) ==> results@.len() > 0,
        !spec_combat_over(state) ==> forall|i: int|
            0 <= i < results@.len() ==> #[trigger] found_point(state, results@[i]),
        !spec_combat_over(state) ==> exists|rounds: Seq<SearchStage>|
            #[trigger] search_run(rounds, max_results as int) && rounds[0].0.len() == 1 && rounds[0].0[0].0
                == state && rounds[0].0[0].1@.len() == 0 && rounds[0].1.len() == 0 && rounds[0].2.len() == 0
                && rounds.last().0.len() == 0 && rounds.last().1 == results@,
{
    if state.combat_over() {
        let mut results: Vec<(CombatState, Vec<DynAction>)> = Vec::new();
        results.push((state, Vec::new()));
        return results;
    }
    let ghost start = state;
    let mut frontier: VecDeque<(CombatState, Vec<DynAction>)> = VecDeque::new();
    let mut results: Vec<(CombatState, Vec<DynAction>)> = Vec::new();
    let mut discovered: Vec<CombatState> = Vec::new();
    let no_history: Vec<DynAction> = Vec::new();
    proof {
        lemma_reached_start(start);
        assert(no_history@ =~= seq![]);
    }
    frontier.push_back((state, no_history));
    assert(above_all(frontier@[0].0, discovered@));
    let ghost first_stage: SearchStage = (frontier@, results@, discovered@);
    let ghost mut rounds: Seq<SearchStage> = seq![first_stage];
    loop
        invariant
            !spec_combat_over(start),
            search_run(rounds, max_results as int),
            rounds[0] == first_stage,
            first_stage.0.len() == 1 && first_stage.0[0].0 == start && first_stage.0[0].1@.len() == 0
                && first_stage.1.len() == 0 && first_stage.2.len() == 0,
            rounds.last() == (frontier@, results@, discovered@),
            forall|i: int| 0 <= i < frontier@.len() ==> #[trigger] waiting_point(start, frontier@[i]),
            forall|i: int| 0 <= i < results@.len() ==> #[trigger] found_point(start, results@[i]),
            forall|i: int| 0 <= i < discovered@.len() ==> calm(#[trigger] discovered@[i]),
            results@.len() > 0 || exists|i: int|
                0 <= i < frontier@.len() && #[trigger] above_all(frontier@[i].0, discovered@),
        ensures
            results@.len() > 0,
            search_run(rounds, max_results as int),
            rounds[0] == first_stage,
            rounds.last().0.len() == 0,
            rounds.last().1 == results@,
        decreases frontier_weight(frontier@),
    {
        let ghost before = frontier@;
        let ghost stage: SearchStage = (frontier@, results@, discovered@);
        let entry = frontier.pop_front();
        if entry.is_none() {
            assert(before.len() == 0);
            break;
        }
        let (current, history) = entry.unwrap();
        assert(current == before[0].0 && history == before[0].1);
        let ghost taken: SearchStage = (frontier@, results@, discovered@);
        assert(taken.0 =~= stage.0.drop_first());
        let ghost rest_weight = frontier_weight(frontier@);
        proof {
            lemma_frontier_weight_front(before);
            assert(waiting_point(start, before[0]));
            assert forall|i: int| 0 <= i < frontier@.len() implies #[trigger] waiting_point(
                start,
                frontier@[i],
            ) by {
                assert(frontier@[i] == before[i + 1]);
                assert(waiting_point(start, before[i + 1]));
            }
        }
        let ghost kept = results@.len() > 0 || exists|i: int|
            0 <= i < frontier@.len() && #[trigger] above_all(frontier@[i].0, discovered@.push(current));
        proof {
            if !kept {
                let i = choose|i: int| 0 <= i < before.len() && #[trigger] above_all(before[i].0, discovered@);
                if i > 0 {
                    assert(frontier@[i - 1] == before[i]);
                    if before[i].0.num_actions > current.num_actions {
                        assert(above_all(frontier@[i - 1].0, discovered@.push(current)));
                    }
                }
                assert(above_all(current, discovered@));
            }
        }
        let mut seen = false;
        let mut d: usize = 0;
        while d < discovered.len()
            invariant
                d <= discovered@.len(),
                calm(current),
                forall|i: int| 0 <= i < discovered@.len() ==> calm(#[trigger] discovered@[i]),
                seen == exists|j: int| 0 <= j < d && alike_combat(#[trigger] discovered@[j], current),
            decreases discovered@.len() - d,
        {
            if discovered[d].same_calm_combat(&current) {
                seen = true;
            }
            d = d + 1;
        }
        if seen {
            proof {
                assert(search_round(stage, (frontier@, results@, discovered@), max_results as int));
                let old_rounds = rounds;
                rounds = rounds.push((frontier@, results@, discovered@));
                assert forall|r: int| 0 <= r < rounds.len() - 1 implies #[trigger] search_round(
                    rounds[r],
                    rounds[r + 1],
                    max_results as int,
                ) by {
                    if r < old_rounds.len() - 1 {
                        assert(rounds[r] == old_rounds[r] && rounds[r + 1] == old_rounds[r + 1]);
                    }
                }
                lemma_branch_power_grows(0, actions_left(current));
                if results@.len() == 0 {
                    let j = choose|j: int| 0 <= j < d && alike_combat(#[trigger] discovered@[j], current);
                    let i = choose|i: int| 0 <= i < before.len() && #[trigger] above_all(before[i].0, discovered@);
                    if i == 0 {
                        assert(discovered@[j].num_actions < before[0].0.num_actions);
                    }
                    assert(frontier@[i - 1] == before[i]);
                    assert(above_all(frontier@[i - 1].0, discovered@));
                }
            }
        } else {
            let choices = current.legal_choices();
            let ghost unit = branch_power((actions_left(current) - 1) as nat);
            proof {
                lemma_legal_choices_shape(current);
                assert(!all_gone(current.monsters@));
                lemma_legal_choices_applicable(current);
                lemma_branch_power_grows((actions_left(current) - 1) as nat, (actions_left(current) - 1) as nat);
            }
            let ghost mut stages: Seq<SearchStage> = seq![taken];
            let ghost mut children: Seq<CombatState> = seq![];
            let mut k: usize = 0;
            while k < choices.len()
                invariant
                    stages.len() == k + 1,
                    children.len() == k,
                    stages[0] == taken,
                    stages.last() == (frontier@, results@, discovered@),
                    forall|j: int|
                        0 <= j < k ==> #[trigger] expansion_step(
                            stages,
                            children,
                            current,
                            history@,
                            max_results as int,
                            j,
                        ),
                    !spec_combat_over(start),
                    current.wf(),
                    calm(current),
                    !spec_combat_over(current),
                    reached_by(start, current, history@),
                    choices@ == spec_legal_choices(current),
                    choices@.len() <= MAX_LEGAL_CHOICES,
                    forall|j: int|
                        0 <= j < choices@.len() ==> (#[trigger] choices@[j] is EndTurn || choices@[j] is PlayCard),
                    forall|j: int| 0 <= j < choices@.len() ==> spec_applicable(current, #[trigger] choices@[j]),
                    k <= choices@.len(),
                    unit == branch_power((actions_left(current) - 1) as nat),
                    unit >= 1,
                    frontier_weight(frontier@) <= rest_weight + k * unit,
                    forall|i: int| 0 <= i < frontier@.len() ==> #[trigger] waiting_point(start, frontier@[i]),
                    forall|i: int| 0 <= i < results@.len() ==> #[trigger] found_point(start, results@[i]),
                    forall|i: int| 0 <= i < discovered@.len() ==> calm(#[trigger] discovered@[i]),
                    !kept ==> above_all(current, discovered@),
                    (kept || k > 0) ==> (results@.len() > 0 || exists|i: int|
                        0 <= i < frontier@.len() && #[trigger] above_all(frontier@[i].0, discovered@.push(current))),
                decreases choices@.len() - k,
            {
                let choice = choices[k];
                let mut next = current.duplicate();
                let ghost copy = next;
                proof {
                    lemma_same_combat_wf(current, next);
                    assert(spec_applicable(current, choices@[k as int]));
                    lemma_same_combat_applicable(current, next, choice);
                }
                next.apply_choice(choice);
                let mut next_history = copy_list(&history);
                next_history.push(choice);
                proof {
                    let (chosen, applied) = choose|chosen: CombatState, applied: CombatState|
                        #[trigger] choice_steps(copy, chosen, applied, next, choice);
                    assert(spec_legal_choices(current)[k as int] == choice);
                    lemma_reached_extend(start, current, history@, copy, (chosen, applied), next, choice);
                    assert(next_history@ =~= history@.push(choice));
                    lemma_branch_power_grows(actions_left(next), (actions_left(current) - 1) as nat);
                    assert((k + 1) * unit == k * unit + unit) by (nonlinear_arith);
                }
                let ghost old_stage: SearchStage = (frontier@, results@, discovered@);
                proof {
                    let (chosen, applied) = choose|chosen: CombatState, applied: CombatState|
                        #[trigger] choice_steps(copy, chosen, applied, next, choice);
                    assert(choice_steps(copy, (chosen, applied).0, (chosen, applied).1, next, choice));
                    assert(child_by(current, choice, next));
                }
                if results.len() < max_results && frontier.len() < max_results - results.len()
                    && !next.combat_over() && next.stale_subaction_stack.len() == 0 {
                    let ghost old_frontier = frontier@;
                    frontier.push_back((next, next_history));
                    proof {
                        assert(frontier@.drop_last() =~= old_frontier);
                        assert(frontier@.last().0 == next);
                        if results@.len() == 0 {
                            if kept || k > 0 {
                                let i = choose|i: int|
                                    0 <= i < old_frontier.len() && #[trigger] above_all(old_frontier[i].0, discovered@.push(current));
                                assert(frontier@[i] == old_frontier[i]);
                                assert(above_all(frontier@[i].0, discovered@.push(current)));
                            } else {
                                let last = frontier@.len() - 1;
                                assert(frontier@[last].0 == next);
                                assert(above_all(frontier@[last].0, discovered@.push(current)));
                            }
                        }
                        assert forall|i: int| 0 <= i < frontier@.len() implies #[trigger] waiting_point(
                            start,
                            frontier@[i],
                        ) by {
                            if i < old_frontier.len() {
                                assert(frontier@[i] == old_frontier[i]);
                            }
                        }
                    }
                } else {
                    let ghost old_results = results@;
                    results.push((next, next_history));
                    proof {
                        assert(results@.drop_last() =~= old_results);
                        assert(results@.last().0 == next);
                        assert forall|i: int| 0 <= i < results@.len() implies #[trigger] found_point(
                            start,
                            results@[i],
                        ) by {
                            if i < old_results.len() {
                                assert(results@[i] == old_results[i]);
                            }
                        }
                    }
                }
                proof {
                    let new_stage: SearchStage = (frontier@, results@, discovered@);
                    assert(placed(old_stage, new_stage, next, history@.push(choice), max_results as int));
                    let old_stages = stages;
                    let old_children = children;
                    stages = stages.push(new_stage);
                    children = children.push(next);
                    assert forall|j: int| 0 <= j < k + 1 implies #[trigger] expansion_step(
                        stages,
                        children,
                        current,
                        history@,
                        max_results as int,
                        j,
                    ) by {
                        if j < k {
                            assert(expansion_step(old_stages, old_children, current, history@, max_results as int, j));
                            assert(stages[j] == old_stages[j] && stages[j + 1] == old_stages[j + 1]
                                && children[j] == old_children[j]);
                        } else {
                            assert(stages[j] == old_stage && stages[j + 1] == new_stage && children[j] == next);
                            assert(spec_legal_choices(current)[j] == choice);
                        }
                    }
                }
                k = k + 1;
            }
            proof {
                assert(k * unit <= 71 * unit) by (nonlinear_arith)
                    requires
                        k <= 71,
                        unit >= 0,
                ;
                assert(branch_power(actions_left(current)) == 72 * unit);
            }
            let ghost old_discovered = discovered@;
            discovered.push(current);
            proof {
                assert(discovered@ =~= old_discovered.push(current));
                let new_stage: SearchStage = (frontier@, results@, discovered@);
                assert(expansion(stages, children, current, history@, max_results as int));
                assert(new_stage == (stages.last().0, stages.last().1, stages.last().2.push(current)));
                assert(search_round(stage, new_stage, max_results as int));
                let old_rounds = rounds;
                rounds = rounds.push(new_stage);
                assert forall|r: int| 0 <= r < rounds.len() - 1 implies #[trigger] search_round(
                    rounds[r],
                    rounds[r + 1],
                    max_results as int,
                ) by {
                    if r < old_rounds.len() - 1 {
                        assert(rounds[r] == old_rounds[r] && rounds[r + 1] == old_rounds[r + 1]);
                    }
                }
            }
        }
        proof {
            lemma_frontier_weight_nonnegative(frontier@);
        }
    }
    results
}

} // verus!
