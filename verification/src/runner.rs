//! The engine that runs a combat's actions: which actions are random, which can run,
//! and the runner that applies choices and works through the queues. Random actions
//! with more than one outcome wait on the stack until an outcome is supplied.
use vstd::prelude::*;

use crate::action_effects::{
    damage, discard_new_card, draw_card_at, end_monsters_turns_effects, end_turn_cards, escape,
    find_card, finish_playing_card, gain_block, gain_energy, holds_card, initialize_innate_damage,
    play_card_from_hand, prepare_draw, reduce_power_action, remove_specific_power, apply_power,
    choose_intent, split_monster, start_creature_turn, upgrade_hand, upgrade_hand_card,
    same_cards, same_creatures, same_counters, spec_block_gained, spec_card_discarded,
    spec_card_drawn, spec_card_put_away, spec_damage_dealt, spec_energy_gained, spec_escaped,
    spec_hand_card_upgraded, spec_hand_upgraded, spec_innate_damage_set, spec_intent_chosen,
    spec_monster_split, spec_power_application, spec_power_reduced, spec_power_removed,
    spec_card_played, spec_draw_prepared, spec_hand_put_away, spec_monsters_turns_ended,
    spec_turn_started, same_queues,
};
use crate::actions::{
    all_hooks_ran, creature_hooks_ran,
    action_bottom, all_creatures_power_hooks, creature_power_hooks, lemma_hook_frame_wf,
    monster_frame, ApplyPowerAction, ArmamentsAction, AttackDamageRandomEnemyAction,
    ChooseMonsterIntent, DamageAction, DamageAllEnemiesAction, DiscardNewCard, DoMonsterIntent,
    DrawCardRandom, DrawCards, DynAction, EndMonstersTurns, EscapeAction, FinishMonsterTurn,
    FinishPlayingCard, GainBlockAction, GainBlockRandomMonsterAction, GainEnergyAction,
    InitializeMonsterInnateDamageAmount, PlayCard, PowerHook, ReducePowerAction,
    RemoveSpecificPowerAction, SplitAction, StartMonsterTurn,
};
use crate::seed_system::{has_value, Distribution, WEIGHT_ONE};
use vstd::wrapping::i32_specs;
use crate::simulation::{
    owner_amount_in_range, spec_combat_over, spec_damage_output, spec_target_amount, CreatureIndex,
    DamageInfoAllPowers, DamageInfoOwnerPowers, HARD_ACTION_LIMIT,
};
use crate::simulation_state::monsters::{
    intent_choice_distribution, intent_effect_actions, spec_behavior_known, spec_intent_actions,
    spec_intent_choice_distribution, spec_intent_valid, ByrdIntent, Intent,
};
use crate::simulation_state::powers::unique_power_ids;
use crate::simulation::{card_choices, hand_choices, spec_legal_choices, target_choices};
use crate::simulation_state::{
    same_combat, CombatState, Monster, MonsterId, SingleCard, MAX_HAND_SIZE, MAX_MONSTERS,
};

verus! {

/// How an action's outcome is decided.
#[derive(Clone, Debug)]
pub enum Determinism {
    /// The player decides.
    Choice,
    /// Chance decides, with these weights.
    Random(Distribution),
    /// Nothing is left to decide.
    Deterministic,
}

/// Equal weights on the indices `0..n`.
pub open spec fn uniform_indices(n: nat) -> Seq<(u64, i32)> {
    Seq::new(n, |i: int| (WEIGHT_ONE, i as i32))
}

/// Equal weights on the values `low..high` (none when `high <= low`).
pub open spec fn uniform_values(low: i32, high: i32) -> Seq<(u64, i32)> {
    Seq::new(
        if high > low {
            (high - low) as nat
        } else {
            0
        },
        |i: int| (WEIGHT_ONE, (low + i) as i32),
    )
}

/// Equal weights on the indices of the first `k` monsters that are still present,
/// leaving out the index `skip`.
pub open spec fn monster_options(monsters: Seq<Monster>, k: int, skip: int) -> Seq<(u64, i32)>
    decreases k,
{
    if k <= 0 {
        seq![]
    } else {
        let rest = monster_options(monsters, k - 1, skip);
        if !monsters[k - 1].gone && k - 1 != skip {
            rest.push((WEIGHT_ONE, (k - 1) as i32))
        } else {
            rest
        }
    }
}

/// The outcomes of a random action, or none for an action with nothing left to chance:
/// the next intent of a monster (as its species chooses), the monster a random attack
/// hits, the card drawn, the card Armaments upgrades, a monster's rolled damage, and the
/// other monster that gains block (the monster itself when no other is present).
pub open spec fn spec_random_options(state: CombatState, action: DynAction) -> Option<
    Seq<(u64, i32)>,
> {
    match action {
        DynAction::ChooseMonsterIntent(ChooseMonsterIntent(i)) => spec_intent_choice_distribution(
            state,
            i as int,
        ),
        DynAction::AttackDamageRandomEnemyAction(_) => Some(
            monster_options(state.monsters@, state.monsters@.len() as int, -1),
        ),
        DynAction::DrawCardRandom(_) => Some(uniform_indices(state.draw_pile@.len())),
        DynAction::ArmamentsAction(ArmamentsAction { upgraded }) => if upgraded {
            None
        } else {
            Some(uniform_indices(state.hand@.len()))
        },
        DynAction::InitializeMonsterInnateDamageAmount(a) => Some(
            uniform_values(a.range.0, a.range.1),
        ),
        DynAction::GainBlockRandomMonsterAction(a) => {
            let others = monster_options(
                state.monsters@,
                state.monsters@.len() as int,
                a.source as int,
            );
            Some(
                if others.len() == 0 {
                    seq![(WEIGHT_ONE, a.source as i32)]
                } else {
                    others
                },
            )
        },
        _ => None,
    }
}

/// Whether running the action is within what the simulator models: the card is in
/// hand and the target exists; a monster acting on its intent, or choosing one, is of a
/// species whose behaviour is known; creatures named exist; a hand has room for a drawn
/// card; a split has room for two more monsters; an attack's exact damage is within the
/// range the powers produce.
pub open spec fn spec_executable(state: CombatState, action: DynAction) -> bool {
    let monsters = state.monsters@;
    match action {
        DynAction::PlayCard(PlayCard { card, target }) => holds_card(state.hand@, card) && target
            < monsters.len(),
        DynAction::FinishPlayingCard(_) => state.card_in_play is Some,
        DynAction::DoMonsterIntent(DoMonsterIntent(i)) => i < monsters.len() && !monsters[i as int].gone
            ==> spec_intent_valid(monsters[i as int]),
        DynAction::ChooseMonsterIntent(ChooseMonsterIntent(i)) => i < monsters.len()
            && spec_behavior_known(monsters[i as int].monster_id),
        DynAction::DamageAction(DamageAction { target, .. }) => state.valid_creature_index(target),
        DynAction::DamageAllEnemiesAction(DamageAllEnemiesAction { info }) => owner_amount_in_range(
            info.intermediate,
        ),
        DynAction::AttackDamageRandomEnemyAction(AttackDamageRandomEnemyAction { info }) =>
            owner_amount_in_range(info.intermediate),
        DynAction::DrawCardRandom(_) => state.hand@.len() < MAX_HAND_SIZE,
        DynAction::ApplyPowerAction(ApplyPowerAction { target, .. }) => state.valid_creature_index(
            target,
        ),
        DynAction::ReducePowerAction(ReducePowerAction { target, .. }) => state.valid_creature_index(
            target,
        ),
        DynAction::RemoveSpecificPowerAction(RemoveSpecificPowerAction { target, .. }) =>
            state.valid_creature_index(target),
        DynAction::GainBlockAction(GainBlockAction { creature_index, .. }) =>
            state.valid_creature_index(creature_index),
        DynAction::InitializeMonsterInnateDamageAmount(a) => a.monster_index < monsters.len(),
        DynAction::GainBlockRandomMonsterAction(a) => a.source < monsters.len() || monster_options(
            monsters,
            monsters.len() as int,
            a.source as int,
        ).len() > 0,
        DynAction::SplitAction(SplitAction(i, _)) => i < monsters.len() && monsters.len() + 2
            <= MAX_MONSTERS,
        DynAction::EscapeAction(EscapeAction(i)) => i < monsters.len(),
        _ => true,
    }
}

/// Whether the runner can apply the action on its own: it is executable and nothing
/// is left to chance, or chance has a single outcome.
pub open spec fn spec_applicable(state: CombatState, action: DynAction) -> bool {
    &&& spec_executable(state, action)
    &&& match spec_random_options(state, action) {
        None => true,
        Some(options) => options.len() == 1,
    }
}

/// Whether the runner applies the action now: the combat is not over and the action
/// is applicable.
pub open spec fn spec_can_apply(state: CombatState, action: DynAction) -> bool {
    !spec_combat_over(state) && spec_applicable(state, action)
}

/// Whether `value` is an outcome the random action can take: one of its options, and for
/// outcomes that name a card or a monster, one that exists.
pub open spec fn spec_outcome_allowed(state: CombatState, action: DynAction, value: i32) -> bool {
    match action {
        DynAction::ChooseMonsterIntent(_) => match spec_random_options(state, action) {
            Some(options) => has_value(options, value),
            None => false,
        },
        DynAction::AttackDamageRandomEnemyAction(_) => 0 <= value < state.monsters@.len()
            && !state.monsters@[value as int].gone,
        DynAction::DrawCardRandom(_) => 0 <= value < state.draw_pile@.len(),
        DynAction::ArmamentsAction(ArmamentsAction { upgraded }) => !upgraded && 0 <= value
            < state.hand@.len(),
        DynAction::InitializeMonsterInnateDamageAmount(a) => a.range.0 <= value < a.range.1,
        DynAction::GainBlockRandomMonsterAction(_) => match spec_random_options(state, action) {
            Some(options) => has_value(options, value) && 0 <= value < state.monsters@.len(),
            None => false,
        },
        _ => false,
    }
}

/// What the monster options hold: present monsters below `k`, other than `skip`.
pub proof fn lemma_monster_options(monsters: Seq<Monster>, k: int, skip: int)
    requires
        k <= monsters.len(),
        monsters.len() <= MAX_MONSTERS,
    ensures
        forall|j: int|
            0 <= j < monster_options(monsters, k, skip).len() ==> {
                let v = #[trigger] monster_options(monsters, k, skip)[j].1;
                &&& 0 <= v < k
                &&& !monsters[v as int].gone
                &&& v != skip
            },
        (exists|m: int| 0 <= m < k && !monsters[m].gone && m != skip) ==> monster_options(
            monsters,
            k,
            skip,
        ).len() > 0,
    decreases k,
{
    if k > 0 {
        lemma_monster_options(monsters, k - 1, skip);
        let rest = monster_options(monsters, k - 1, skip);
        let all = monster_options(monsters, k, skip);
        assert forall|j: int| 0 <= j < all.len() implies {
            let v = #[trigger] all[j].1;
            &&& 0 <= v < k
            &&& !monsters[v as int].gone
            &&& v != skip
        } by {
            if j < rest.len() {
                assert(all[j] == rest[j]);
            }
        }
        if exists|m: int| 0 <= m < k && !monsters[m].gone && m != skip {
            let m = choose|m: int| 0 <= m < k && !monsters[m].gone && m != skip;
            if m < k - 1 {
                assert(0 <= m < k - 1 && !monsters[m].gone && m != skip);
            }
        }
    }
}

fn monster_options_exec(monsters: &Vec<Monster>, skip: usize, skips: bool) -> (options: Vec<
    (u64, i32),
>)
    requires
        monsters@.len() <= MAX_MONSTERS,
    ensures
        options@ == monster_options(
            monsters@,
            monsters@.len() as int,
            if skips {
                skip as int
            } else {
                -1
            },
        ),
{
    let ghost s: int = if skips {
        skip as int
    } else {
        -1
    };
    let mut options: Vec<(u64, i32)> = Vec::new();
    let mut i: usize = 0;
    while i < monsters.len()
        invariant
            i <= monsters@.len(),
            monsters@.len() <= MAX_MONSTERS,
            s == if skips {
                skip as int
            } else {
                -1
            },
            options@ == monster_options(monsters@, i as int, s),
        decreases monsters@.len() - i,
    {
        if !monsters[i].gone && !(skips && i == skip) {
            options.push((WEIGHT_ONE, i as i32));
        }
        i = i + 1;
    }
    options
}

fn uniform_indices_exec(n: usize) -> (options: Vec<(u64, i32)>)
    ensures
        options@ == uniform_indices(n as nat),
{
    let mut options: Vec<(u64, i32)> = Vec::new();
    let mut i: usize = 0;
    while i < n
        invariant
            i <= n,
            options@ == uniform_indices(i as nat),
        decreases n - i,
    {
        #[verifier::truncate]
        let v = i as i32;
        options.push((WEIGHT_ONE, v));
        i = i + 1;
        assert(options@ =~= uniform_indices(i as nat));
    }
    options
}

fn uniform_values_exec(low: i32, high: i32) -> (options: Vec<(u64, i32)>)
    ensures
        options@ == uniform_values(low, high),
{
    let mut options: Vec<(u64, i32)> = Vec::new();
    let mut v: i32 = low;
    while v < high
        invariant
            low <= v <= high || (v == low && high <= low),
            options@ == uniform_values(low, v),
        decreases high - v,
    {
        options.push((WEIGHT_ONE, v));
        v = v + 1;
        assert(options@ =~= uniform_values(low, v));
    }
    options
}

impl DynAction {
    /// How this action's outcome is decided in `state`: at random, for the random
    /// actions (see `spec_random_options`), else deterministically.
    pub fn determinism(&self, state: &CombatState) -> (d: Determinism)
        requires
            state.wf(),
            spec_executable(*state, *self),
        ensures
            match d {
                Determinism::Deterministic => spec_random_options(*state, *self) is None,
                Determinism::Random(distribution) => spec_random_options(*state, *self) == Some(
                    distribution.0@,
                ),
                Determinism::Choice => false,
            },
    {
        match self {
            DynAction::ChooseMonsterIntent(ChooseMonsterIntent(i)) => {
                match intent_choice_distribution(state, *i) {
                    Some(d) => Determinism::Random(d),
                    None => Determinism::Deterministic,
                }
            },
            DynAction::AttackDamageRandomEnemyAction(_) => Determinism::Random(
                Distribution(monster_options_exec(&state.monsters, 0, false)),
            ),
            DynAction::DrawCardRandom(_) => Determinism::Random(
                Distribution(uniform_indices_exec(state.draw_pile.len())),
            ),
            DynAction::ArmamentsAction(a) => {
                if a.upgraded {
                    Determinism::Deterministic
                } else {
                    Determinism::Random(Distribution(uniform_indices_exec(state.hand.len())))
                }
            },
            DynAction::InitializeMonsterInnateDamageAmount(a) => Determinism::Random(
                Distribution(uniform_values_exec(a.range.0, a.range.1)),
            ),
            DynAction::GainBlockRandomMonsterAction(a) => {
                let others = monster_options_exec(&state.monsters, a.source, true);
                if others.len() == 0 {
                    #[verifier::truncate]
                    let source = a.source as i32;
                    let mut only: Vec<(u64, i32)> = Vec::new();
                    only.push((WEIGHT_ONE, source));
                    assert(only@ =~= seq![(WEIGHT_ONE, a.source as i32)]);
                    Determinism::Random(Distribution(only))
                } else {
                    Determinism::Random(Distribution(others))
                }
            },
            _ => Determinism::Deterministic,
        }
    }
}


/// Whether a monster's current intent is one its species has (exec).
fn intent_valid(monster: &Monster) -> (valid: bool)
    ensures
        valid == spec_intent_valid(*monster),
{
    if monster.move_history.len() == 0 {
        return false;
    }
    match monster.monster_id {
        MonsterId::Byrd => ByrdIntent::from_id(monster.intent()).is_some(),
        _ => false,
    }
}

impl DynAction {
    /// Whether running this action is within what the simulator models (see `spec_executable`).
    pub fn executable(&self, state: &CombatState) -> (executable: bool)
        requires
            state.wf(),
        ensures
            executable == spec_executable(*state, *self),
    {
        let len = state.monsters.len();
        match self {
            DynAction::PlayCard(p) => find_card(&state.hand, p.card).is_some() && p.target < len,
            DynAction::FinishPlayingCard(_) => state.card_in_play.is_some(),
            DynAction::DoMonsterIntent(DoMonsterIntent(i)) => {
                if *i < len && !state.monsters[*i].gone {
                    intent_valid(&state.monsters[*i])
                } else {
                    true
                }
            },
            DynAction::ChooseMonsterIntent(ChooseMonsterIntent(i)) => *i < len
                && state.monsters[*i].monster_id.behavior_known(),
            DynAction::DamageAction(a) => state.valid_index(a.target),
            DynAction::DamageAllEnemiesAction(a) => a.info.intermediate_in_range(),
            DynAction::AttackDamageRandomEnemyAction(a) => a.info.intermediate_in_range(),
            DynAction::DrawCardRandom(_) => state.hand.len() < MAX_HAND_SIZE,
            DynAction::ApplyPowerAction(a) => state.valid_index(a.target),
            DynAction::ReducePowerAction(a) => state.valid_index(a.target),
            DynAction::RemoveSpecificPowerAction(a) => state.valid_index(a.target),
            DynAction::GainBlockAction(a) => state.valid_index(a.creature_index),
            DynAction::InitializeMonsterInnateDamageAmount(a) => a.monster_index < len,
            DynAction::GainBlockRandomMonsterAction(a) => a.source < len || monster_options_exec(
                &state.monsters,
                a.source,
                true,
            ).len() > 0,
            DynAction::SplitAction(SplitAction(i, _)) => *i < len && len + 2 <= MAX_MONSTERS,
            DynAction::EscapeAction(EscapeAction(i)) => *i < len,
            _ => true,
        }
    }
}

impl CombatState {
    /// Whether `index` names the player or an existing monster (exec).
    pub fn valid_index(&self, index: CreatureIndex) -> (valid: bool)
        ensures
            valid == self.valid_creature_index(index),
    {
        match index {
            CreatureIndex::Player => true,
            CreatureIndex::Monster(i) => i < self.monsters.len(),
        }
    }
}

impl DamageInfoOwnerPowers {
    /// Whether the exact intermediate damage lies in the range the powers produce.
    pub fn intermediate_in_range(&self) -> (in_range: bool)
        ensures
            in_range == owner_amount_in_range(self.intermediate),
    {
        let a = self.intermediate;
        1 <= a.denominator && a.denominator <= 64 && -(0x8_0000_0000i128 * a.denominator)
            <= a.numerator && a.numerator <= 0x8_0000_0000i128 * a.denominator
    }
}

/// Whether the runner applies the action now (see `spec_can_apply`).
pub fn can_apply(state: &CombatState, action: &DynAction) -> (can: bool)
    requires
        state.wf(),
    ensures
        can == spec_can_apply(*state, *action),
{
    if state.combat_over() || !action.executable(state) {
        return false;
    }
    match action.determinism(state) {
        Determinism::Deterministic => true,
        Determinism::Random(d) => d.0.len() == 1,
        Determinism::Choice => false,
    }
}

/// What every step of the engine keeps: the combat stays well formed, the action count
/// never falls, no monster leaves the list, and the choice count is untouched.
pub open spec fn engine_step(a: CombatState, b: CombatState) -> bool {
    &&& b.wf()
    &&& a.num_actions <= b.num_actions
    &&& a.monsters@.len() <= b.monsters@.len()
    &&& b.num_choices == a.num_choices
}

/// A combat stays well formed when the creatures' power lists and the number of
/// monsters are unchanged and the hand and the action count stay within bounds.
pub proof fn lemma_wf_same_powers(a: CombatState, b: CombatState)
    requires
        a.wf(),
        b.hand@.len() <= MAX_HAND_SIZE,
        0 <= b.num_actions,
        b.player.creature.powers@ == a.player.creature.powers@,
        b.monsters@.len() == a.monsters@.len(),
        forall|i: int|
            0 <= i < a.monsters@.len() ==> (#[trigger] b.monsters@[i]).creature.powers@
                == a.monsters@[i].creature.powers@,
    ensures
        b.wf(),
{
    assert forall|i: int| 0 <= i < b.monsters@.len() implies unique_power_ids(
        #[trigger] b.monsters@[i].creature.powers@,
    ) by {
        assert(unique_power_ids(a.monsters@[i].creature.powers@));
    }
}

/// A single outcome of a random action is one it can take.
pub proof fn lemma_single_outcome_allowed(state: CombatState, action: DynAction)
    requires
        state.wf(),
        spec_executable(state, action),
        spec_random_options(state, action) matches Some(o) && o.len() == 1,
    ensures
        spec_outcome_allowed(state, action, spec_random_options(state, action)->0[0].1),
{
    let o = spec_random_options(state, action)->0;
    let len = state.monsters@.len() as int;
    match action {
        DynAction::ChooseMonsterIntent(_) => {
            assert(o[0].1 == o[0].1);
        },
        DynAction::AttackDamageRandomEnemyAction(_) => {
            lemma_monster_options(state.monsters@, len, -1);
            assert(o[0].1 == monster_options(state.monsters@, len, -1)[0].1);
        },
        DynAction::GainBlockRandomMonsterAction(a) => {
            lemma_monster_options(state.monsters@, len, a.source as int);
            let others = monster_options(state.monsters@, len, a.source as int);
            if others.len() > 0 {
                assert(o[0].1 == others[0].1);
            }
            assert(o[0].1 == o[0].1);
        },
        _ => {},
    }
}

/// Every outcome a random action lists is one it can take (the place of an outcome that
/// names a card fitting an `i32`).
pub proof fn lemma_listed_outcomes_allowed(state: CombatState, action: DynAction, k: int)
    requires
        state.wf(),
        spec_executable(state, action),
        spec_random_options(state, action) matches Some(o) && 0 <= k < o.len(),
        k <= i32::MAX,
    ensures
        spec_outcome_allowed(state, action, spec_random_options(state, action)->0[k].1),
{
    let o = spec_random_options(state, action)->0;
    let len = state.monsters@.len() as int;
    match action {
        DynAction::ChooseMonsterIntent(_) => {
            assert(0 <= k < o.len() && o[k].1 == o[k].1);
            assert(has_value(o, o[k].1));
        },
        DynAction::AttackDamageRandomEnemyAction(_) => {
            lemma_monster_options(state.monsters@, len, -1);
            assert(o[k].1 == monster_options(state.monsters@, len, -1)[k].1);
        },
        DynAction::GainBlockRandomMonsterAction(a) => {
            lemma_monster_options(state.monsters@, len, a.source as int);
            let others = monster_options(state.monsters@, len, a.source as int);
            if others.len() > 0 {
                assert(o[k].1 == others[k].1);
            }
            assert(o[k].1 == o[k].1);
        },
        _ => {
            assert((k as i32) == k);
        },
    }
}

/// What running an action that leaves nothing to chance does to the combat, for the
/// actions that do their work themselves. An action that runs other actions through the
/// runner (playing a card, ending a turn, the monsters' turn steps, drawing cards,
/// damage to all enemies) is described only by `engine_step`; this is then `true`.
pub open spec fn spec_action_effect(pre: CombatState, post: CombatState, action: DynAction) -> bool {
    match action {
        DynAction::FinishPlayingCard(_) => spec_card_put_away(pre, post),
        DynAction::DamageAction(a) => spec_damage_dealt(pre, post, a.target, a.info),
        DynAction::ApplyPowerAction(a) => spec_power_application(pre, post, a.target, a.power_id, a.amount),
        DynAction::ReducePowerAction(a) => spec_power_reduced(pre, post, a.target, a.power_id, a.amount),
        DynAction::RemoveSpecificPowerAction(a) => spec_power_removed(pre, post, a.target, a.power_id),
        DynAction::DiscardNewCard(DiscardNewCard(card)) => spec_card_discarded(pre, post, card),
        DynAction::GainBlockAction(a) => spec_block_gained(pre, post, a.creature_index, a.amount),
        DynAction::GainEnergyAction(GainEnergyAction(amount)) => spec_energy_gained(pre, post, amount),
        DynAction::ArmamentsAction(_) => spec_hand_upgraded(pre, post),
        DynAction::SplitAction(SplitAction(i, ids)) => spec_monster_split(pre, post, i, ids),
        DynAction::EscapeAction(EscapeAction(i)) => spec_escaped(pre, post, i),
        DynAction::ChooseMonsterIntent(_) | DynAction::AttackDamageRandomEnemyAction(_)
        | DynAction::DrawCardRandom(_) | DynAction::InitializeMonsterInnateDamageAmount(_)
        | DynAction::GainBlockRandomMonsterAction(_) => post == pre,
        _ => true,
    }
}

/// What running a random action with the outcome `value` does to the combat. A random
/// attack runs its damage through the runner and is described only by `engine_step`;
/// this is then `true`.
pub open spec fn spec_random_effect(pre: CombatState, post: CombatState, action: DynAction, value: i32) -> bool {
    match action {
        DynAction::ChooseMonsterIntent(ChooseMonsterIntent(i)) => spec_intent_chosen(pre, post, i, value),
        DynAction::DrawCardRandom(_) => spec_card_drawn(pre, post, value as usize),
        DynAction::ArmamentsAction(_) => spec_hand_card_upgraded(pre, post, value as usize),
        DynAction::InitializeMonsterInnateDamageAmount(a) => spec_innate_damage_set(
            pre,
            post,
            a.monster_index,
            value,
        ),
        DynAction::GainBlockRandomMonsterAction(a) => spec_block_gained(
            pre,
            post,
            CreatureIndex::Monster(value as usize),
            a.amount,
        ),
        DynAction::AttackDamageRandomEnemyAction(_) => true,
        _ => post == pre,
    }
}

/// What handing `action` to the runner does: with nothing waiting on the fresh queue and
/// the action applicable now, it is counted and run (see `spec_action_effect` and
/// `spec_random_effect`); otherwise it waits at the end of the fresh queue and nothing
/// else changes.
pub open spec fn spec_now(pre: CombatState, post: CombatState, action: DynAction) -> bool {
    if pre.fresh_subaction_queue@.len() == 0 && spec_can_apply(pre, action) {
        &&& post.num_actions > pre.num_actions
        &&& match spec_random_options(pre, action) {
            None => spec_action_effect(counted(pre), post, action),
            Some(options) => spec_random_effect(counted(pre), post, action, options[0].1),
        }
    } else {
        &&& post.fresh_subaction_queue@ == pre.fresh_subaction_queue@.push(action)
        &&& post.stale_subaction_stack@ == pre.stale_subaction_stack@
        &&& post.actions@ == pre.actions@
        &&& same_cards(pre, post)
        &&& same_creatures(pre, post)
        &&& same_counters(pre, post)
    }
}

/// `post` is `pre` with `action` queued at the back of the main queue.
pub open spec fn queued_at_back(pre: CombatState, post: CombatState, action: DynAction) -> bool {
    &&& post.actions@ == pre.actions@.push(action)
    &&& post.fresh_subaction_queue@ == pre.fresh_subaction_queue@
    &&& post.stale_subaction_stack@ == pre.stale_subaction_stack@
    &&& same_cards(pre, post)
    &&& same_creatures(pre, post)
    &&& same_counters(pre, post)
}

/// Damage of `info` after the powers of `target` have modified it.
pub open spec fn spec_hit(state: CombatState, info: DamageInfoOwnerPowers, target: CreatureIndex) -> DamageInfoAllPowers {
    DamageInfoAllPowers {
        damage_type: info.damage_type,
        owner: info.owner,
        base: info.base,
        output: spec_damage_output(spec_target_amount(state, info.damage_type, info.intermediate.pair(), target)),
    }
}

/// Playing `card` at `target`: every creature's card-played hooks ran (reaching
/// `hooked`), the card was played from the hand (reaching `played`), and putting it
/// away was handed to the runner.
pub open spec fn card_play_steps(
    pre: CombatState,
    hooked: CombatState,
    played: CombatState,
    post: CombatState,
    card: SingleCard,
    target: usize,
) -> bool {
    &&& all_hooks_ran(pre, hooked, PowerHook::OnUseCard(card))
    &&& spec_card_played(hooked, played, card, target)
    &&& spec_now(played, post, DynAction::FinishPlayingCard(FinishPlayingCard))
}

/// Ending the player's turn: the player's end-of-turn hooks ran (reaching `hooked`),
/// the hand was put away (reaching `put_away`), and the start of the monsters' turns was
/// handed to the runner.
pub open spec fn turn_end_steps(pre: CombatState, hooked: CombatState, put_away: CombatState, post: CombatState) -> bool {
    &&& creature_hooks_ran(pre, hooked, CreatureIndex::Player, PowerHook::AtEndOfTurn)
    &&& spec_hand_put_away(hooked, put_away)
    &&& spec_now(put_away, post, DynAction::StartMonsterTurn(StartMonsterTurn(0)))
}

/// The start of monster `i`'s turn: a present monster's turn started (reaching
/// `started`), then, unless that ended the combat, the next monster's was handed to the
/// runner.
pub open spec fn monster_turn_start_steps(pre: CombatState, started: CombatState, post: CombatState, i: usize) -> bool {
    &&& if pre.monsters@[i as int].gone {
        started == pre
    } else {
        spec_turn_started(pre, started, CreatureIndex::Monster(i))
    }
    &&& if spec_combat_over(started) {
        post == started
    } else {
        spec_now(started, post, DynAction::StartMonsterTurn(StartMonsterTurn((i + 1) as usize)))
    }
}

/// Monster `i` acting: a present monster's intent queued its effects at the back
/// (reaching `acted`), then, unless the combat is over, the next monster's action was
/// handed to the runner.
pub open spec fn monster_intent_steps(pre: CombatState, acted: CombatState, post: CombatState, i: usize) -> bool {
    &&& if pre.monsters@[i as int].gone {
        acted == pre
    } else {
        &&& acted.actions@ == pre.actions@ + spec_intent_actions(pre, i)
        &&& acted.fresh_subaction_queue@ == pre.fresh_subaction_queue@
        &&& acted.stale_subaction_stack@ == pre.stale_subaction_stack@
        &&& same_cards(pre, acted)
        &&& same_creatures(pre, acted)
        &&& same_counters(pre, acted)
    }
    &&& if spec_combat_over(acted) {
        post == acted
    } else {
        spec_now(acted, post, DynAction::DoMonsterIntent(DoMonsterIntent((i + 1) as usize)))
    }
}

/// Finishing monster `i`'s turn: a present monster's next intent was handed to the
/// runner (reaching `chosen`), then, unless the combat is over, finishing the next
/// monster's turn was queued at the back.
pub open spec fn monster_turn_finish_steps(pre: CombatState, chosen: CombatState, post: CombatState, i: usize) -> bool {
    &&& if pre.monsters@[i as int].gone {
        chosen == pre
    } else {
        spec_now(pre, chosen, DynAction::ChooseMonsterIntent(ChooseMonsterIntent(i)))
    }
    &&& if spec_combat_over(chosen) {
        post == chosen
    } else {
        queued_at_back(chosen, post, DynAction::FinishMonsterTurn(FinishMonsterTurn((i + 1) as usize)))
    }
}

/// Drawing `count` cards when a card can be drawn: after the checks (reaching
/// `prepared`), one random card is handed to the runner (reaching `first`), then the
/// remaining `count - 1`.
pub open spec fn draw_steps(pre: CombatState, prepared: CombatState, first: CombatState, post: CombatState, count: i32) -> bool {
    &&& spec_draw_prepared(pre, prepared, count, true)
    &&& spec_now(prepared, first, DynAction::DrawCardRandom(DrawCardRandom))
    &&& spec_now(first, post, DynAction::DrawCards(DrawCards((count - 1) as i32)))
}

/// Damage to all enemies from monster `i` on, up to `count`: each monster still present
/// when its turn comes is handed a hit of `info` after its own powers, in order.
pub open spec fn damage_all_from(pre: CombatState, post: CombatState, info: DamageInfoOwnerPowers, i: int, count: int) -> bool
    decreases count - i,
{
    if i >= count {
        post == pre
    } else if pre.monsters@[i].gone {
        damage_all_from(pre, post, info, i + 1, count)
    } else {
        exists|mid: CombatState|
            #[trigger] spec_now(
                pre,
                mid,
                DynAction::DamageAction(
                    DamageAction {
                        target: CreatureIndex::Monster(i as usize),
                        info: spec_hit(pre, info, CreatureIndex::Monster(i as usize)),
                    },
                ),
            ) && damage_all_from(mid, post, info, i + 1, count)
    }
}

/// What running an action that runs further actions through the runner does: its own
/// steps, ending with what it hands to the runner (see the `..._steps` predicates).
/// Any other action is described by `spec_action_effect`; this is then `true`.
pub open spec fn spec_composite_steps(pre: CombatState, post: CombatState, action: DynAction) -> bool {
    match action {
        DynAction::PlayCard(p) => exists|hooked: CombatState, played: CombatState|
            #[trigger] card_play_steps(pre, hooked, played, post, p.card, p.target),
        DynAction::EndTurn(_) => exists|hooked: CombatState, put_away: CombatState|
            #[trigger] turn_end_steps(pre, hooked, put_away, post),
        DynAction::StartMonsterTurn(StartMonsterTurn(i)) => if i < pre.monsters@.len() {
            exists|started: CombatState| #[trigger] monster_turn_start_steps(pre, started, post, i)
        } else {
            spec_now(pre, post, DynAction::DoMonsterIntent(DoMonsterIntent(0)))
        },
        DynAction::DoMonsterIntent(DoMonsterIntent(i)) => if i < pre.monsters@.len() {
            exists|acted: CombatState| #[trigger] monster_intent_steps(pre, acted, post, i)
        } else {
            queued_at_back(pre, post, DynAction::FinishMonsterTurn(FinishMonsterTurn(0)))
        },
        DynAction::FinishMonsterTurn(FinishMonsterTurn(i)) => if i < pre.monsters@.len() {
            exists|chosen: CombatState| #[trigger] monster_turn_finish_steps(pre, chosen, post, i)
        } else {
            spec_now(pre, post, DynAction::EndMonstersTurns(EndMonstersTurns))
        },
        DynAction::EndMonstersTurns(_) => exists|ended: CombatState|
            spec_monsters_turns_ended(pre, ended) && #[trigger] spec_now(ended, post, DynAction::DrawCards(DrawCards(5))),
        DynAction::DamageAllEnemiesAction(a) => damage_all_from(pre, post, a.info, 0, pre.monsters@.len() as int),
        DynAction::DrawCards(DrawCards(count)) => spec_draw_prepared(pre, post, count, false) || exists|
            prepared: CombatState,
            first: CombatState,
        | #[trigger] draw_steps(pre, prepared, first, post, count),
        _ => true,
    }
}

/// Running `action` by the runner's own rules: it is counted, then run by what it is
/// (see `spec_action_effect` and `spec_composite_steps`), a random one with its single
/// outcome (see `spec_random_effect`).
pub open spec fn spec_applied(pre: CombatState, post: CombatState, action: DynAction) -> bool {
    &&& engine_step(pre, post)
    &&& post.num_actions > pre.num_actions
    &&& match spec_random_options(pre, action) {
        None => spec_action_effect(counted(pre), post, action) && spec_composite_steps(counted(pre), post, action),
        Some(options) => spec_random_effect(counted(pre), post, action, options[0].1),
    }
}

/// `post` is `pre` with the three queues replaced: only the queues may differ.
pub open spec fn queues_only(pre: CombatState, post: CombatState) -> bool {
    &&& same_cards(pre, post)
    &&& same_creatures(pre, post)
    &&& same_counters(pre, post)
}

/// The fresh queue moved onto the stack, its first action ending up on top.
pub open spec fn flushed(pre: CombatState, post: CombatState) -> bool {
    &&& post.stale_subaction_stack@ == pre.stale_subaction_stack@ + pre.fresh_subaction_queue@.reverse()
    &&& post.fresh_subaction_queue@.len() == 0
    &&& post.actions@ == pre.actions@
    &&& queues_only(pre, post)
}

/// One round of the runner that goes on, from `pre` to `post`: the combat is not over,
/// the fresh queue is moved onto the stack (reaching `moved`), and the action taken off
/// the top of the stack, if there is one, is applied, as it can be; otherwise the next
/// action taken off the main queue is handed to the runner (`taken` is the state after
/// the taking).
pub open spec fn runner_round(pre: CombatState, moved: CombatState, taken: CombatState, post: CombatState) -> bool {
    &&& !spec_combat_over(pre)
    &&& flushed(pre, moved)
    &&& queues_only(moved, taken)
    &&& taken.fresh_subaction_queue@.len() == 0
    &&& if moved.stale_subaction_stack@.len() > 0 {
        let top = moved.stale_subaction_stack@.last();
        &&& taken.stale_subaction_stack@ == moved.stale_subaction_stack@.drop_last()
        &&& taken.actions@ == moved.actions@
        &&& spec_can_apply(taken, top)
        &&& spec_applied(taken, post, top)
    } else {
        let next = moved.actions@[0];
        &&& moved.actions@.len() > 0
        &&& taken.stale_subaction_stack@.len() == 0
        &&& taken.actions@ == moved.actions@.drop_first()
        &&& engine_step(taken, post)
        &&& spec_now(taken, post, next)
        &&& spec_can_apply(taken, next) && spec_random_options(taken, next) is None ==> spec_composite_steps(
            counted(taken),
            post,
            next,
        )
    }
}

/// The last round of the runner: the combat is over and nothing happens, or the fresh
/// queue is moved onto the stack and then the action on top cannot be applied, or there
/// is no action left anywhere.
pub open spec fn runner_stop(pre: CombatState, post: CombatState) -> bool {
    if spec_combat_over(pre) {
        post == pre
    } else {
        &&& flushed(pre, post)
        &&& if post.stale_subaction_stack@.len() > 0 {
            !spec_can_apply(post, post.stale_subaction_stack@.last())
        } else {
            post.actions@.len() == 0
        }
    }
}

/// The runner went through the states `states`, each round through the two states of
/// `mids` at its place, and then stopped at `post`.
pub open spec fn runner_trace(states: Seq<CombatState>, mids: Seq<(CombatState, CombatState)>, post: CombatState) -> bool {
    &&& states.len() == mids.len() + 1
    &&& forall|k: int|
        0 <= k < mids.len() ==> #[trigger] runner_round(states[k], mids[k].0, mids[k].1, states[k + 1])
    &&& runner_stop(states.last(), post)
}

/// Running the runner from `pre` until it cannot go on ends at `post`.
pub open spec fn spec_ran(pre: CombatState, post: CombatState) -> bool {
    exists|states: Seq<CombatState>, mids: Seq<(CombatState, CombatState)>|
        #[trigger] runner_trace(states, mids, post) && states[0] == pre
}

/// Applying the player's `choice`: the choice is counted (reaching `chosen`), applied by
/// the runner's own rules (reaching `applied`), and the runner runs until it cannot go on.
pub open spec fn choice_steps(pre: CombatState, chosen: CombatState, applied: CombatState, post: CombatState, choice: DynAction) -> bool {
    &&& chosen.num_choices == i32_specs::wrapping_add(pre.num_choices, 1)
    &&& chosen.num_actions == pre.num_actions
    &&& chosen.turn_number == pre.turn_number
    &&& chosen.turn_has_ended == pre.turn_has_ended
    &&& chosen.num_reshuffles == pre.num_reshuffles
    &&& same_cards(pre, chosen)
    &&& same_creatures(pre, chosen)
    &&& same_queues(pre, chosen)
    &&& spec_applied(chosen, applied, choice)
    &&& spec_ran(applied, post)
}

/// Giving the random action on top of the stack the outcome `value`: the action is taken
/// off the stack and counted (reaching `taken`), run with that outcome (reaching `ran`),
/// and the runner runs until it cannot go on.
pub open spec fn resolution_steps(pre: CombatState, taken: CombatState, ran: CombatState, post: CombatState, value: i32) -> bool {
    let top = pre.stale_subaction_stack@.last();
    &&& taken.stale_subaction_stack@ == pre.stale_subaction_stack@.drop_last()
    &&& taken.fresh_subaction_queue@ == pre.fresh_subaction_queue@
    &&& taken.actions@ == pre.actions@
    &&& taken.num_actions == pre.num_actions + 1
    &&& taken.num_choices == pre.num_choices
    &&& taken.turn_number == pre.turn_number
    &&& taken.turn_has_ended == pre.turn_has_ended
    &&& taken.num_reshuffles == pre.num_reshuffles
    &&& same_cards(pre, taken)
    &&& same_creatures(pre, taken)
    &&& engine_step(taken, ran)
    &&& spec_random_effect(taken, ran, top, value)
    &&& spec_ran(ran, post)
}

/// The actions a combat may still run before the hard limit.
pub open spec fn runner_budget(state: CombatState) -> nat {
    if state.num_actions < HARD_ACTION_LIMIT {
        (HARD_ACTION_LIMIT - state.num_actions) as nat
    } else {
        0
    }
}

/// The combat with one more action counted.
pub open spec fn counted(state: CombatState) -> CombatState {
    CombatState { num_actions: (state.num_actions + 1) as i32, ..state }
}

impl CombatState {
    /// Applies an action now if the fresh queue is empty and the runner can apply it;
    /// otherwise queues it on the fresh queue.
    pub fn action_now(&mut self, action: DynAction)
        requires
            old(self).wf(),
        ensures
            engine_step(*old(self), *final(self)),
            spec_now(*old(self), *final(self), action),
            old(self).fresh_subaction_queue@.len() == 0 && spec_can_apply(*old(self), action) && spec_random_options(
                *old(self),
                action,
            ) is None ==> spec_composite_steps(counted(*old(self)), *final(self), action),
        decreases runner_budget(*old(self)), 2int,
    {
        if self.fresh_subaction_queue.len() == 0 && can_apply(self, &action) {
            self.apply_impl(action);
        } else {
            self.fresh_subaction_queue.push(action);
            proof {
                lemma_wf_same_powers(*old(self), *self);
            }
        }
    }

    /// Counts the action and runs it: a deterministic one directly, a random one with
    /// its single outcome.
    pub fn apply_impl(&mut self, action: DynAction)
        requires
            old(self).wf(),
            old(self).num_actions < i32::MAX,
            spec_applicable(*old(self), action),
        ensures
            spec_applied(*old(self), *final(self), action),
        decreases runner_budget(counted(*old(self))) + 1, 1int,
    {
        self.num_actions = self.num_actions + 1;
        proof {
            lemma_wf_same_powers(*old(self), *self);
        }
        match action.determinism(self) {
            Determinism::Deterministic => {
                self.execute(action);
            },
            Determinism::Random(d) => {
                proof {
                    lemma_single_outcome_allowed(*self, action);
                }
                let value = d.0[0].1;
                self.execute_random(action, value);
            },
            Determinism::Choice => {},
        }
    }

    /// Runs an action that has nothing left to chance.
    pub fn execute(&mut self, action: DynAction)
        requires
            old(self).wf(),
            spec_executable(*old(self), action),
            spec_random_options(*old(self), action) is None,
        ensures
            engine_step(*old(self), *final(self)),
            spec_action_effect(*old(self), *final(self), action),
            spec_composite_steps(*old(self), *final(self), action),
        decreases runner_budget(*old(self)), 6int,
    {
        let ghost s0 = *self;
        match action {
            DynAction::PlayCard(p) => self.play_card_action(p.card, p.target),
            DynAction::FinishPlayingCard(_) => {
                finish_playing_card(self);
                proof {
                    lemma_wf_same_powers(s0, *self);
                }
            },
            DynAction::EndTurn(_) => self.end_turn_action(),
            DynAction::StartMonsterTurn(StartMonsterTurn(i)) => self.start_monster_turn_action(i),
            DynAction::DoMonsterIntent(DoMonsterIntent(i)) => self.do_monster_intent_action(i),
            DynAction::FinishMonsterTurn(FinishMonsterTurn(i)) => self.finish_monster_turn_action(i),
            DynAction::ChooseMonsterIntent(_) => {},
            DynAction::EndMonstersTurns(_) => self.end_monsters_turns_action(),
            DynAction::DamageAction(a) => damage(self, a.target, a.info),
            DynAction::DamageAllEnemiesAction(a) => self.damage_all_enemies_action(a.info),
            DynAction::AttackDamageRandomEnemyAction(_) => {},
            DynAction::DrawCardRandom(_) => {},
            DynAction::DrawCards(DrawCards(n)) => self.draw_cards_action(n),
            DynAction::ApplyPowerAction(a) => apply_power(self, a.target, a.power_id, a.amount),
            DynAction::ReducePowerAction(a) => reduce_power_action(
                self,
                a.target,
                a.power_id,
                a.amount,
            ),
            DynAction::RemoveSpecificPowerAction(a) => remove_specific_power(
                self,
                a.target,
                a.power_id,
            ),
            DynAction::DiscardNewCard(DiscardNewCard(card)) => {
                discard_new_card(self, card);
                proof {
                    lemma_wf_same_powers(s0, *self);
                }
            },
            DynAction::GainBlockAction(a) => {
                gain_block(self, a.creature_index, a.amount);
                proof {
                    lemma_wf_same_powers(s0, *self);
                }
            },
            DynAction::GainEnergyAction(GainEnergyAction(amount)) => {
                gain_energy(self, amount);
                proof {
                    lemma_wf_same_powers(s0, *self);
                }
            },
            DynAction::ArmamentsAction(_) => {
                upgrade_hand(self);
                proof {
                    lemma_wf_same_powers(s0, *self);
                }
            },
            DynAction::InitializeMonsterInnateDamageAmount(_) => {},
            DynAction::GainBlockRandomMonsterAction(_) => {},
            DynAction::SplitAction(SplitAction(i, ids)) => {
                split_monster(self, i, ids);
                proof {
                    assert forall|j: int| 0 <= j < self.monsters@.len() implies unique_power_ids(
                        #[trigger] self.monsters@[j].creature.powers@,
                    ) by {
                        if j < s0.monsters@.len() && j != i {
                            assert(unique_power_ids(s0.monsters@[j].creature.powers@));
                        }
                        if j == i {
                            assert(unique_power_ids(s0.monsters@[j].creature.powers@));
                        }
                        if j >= s0.monsters@.len() {
                            assert(self.monsters@[s0.monsters@.len() + (j - s0.monsters@.len())]
                                == self.monsters@[j]);
                        }
                    }
                }
            },
            DynAction::EscapeAction(EscapeAction(i)) => {
                escape(self, i);
                proof {
                    lemma_wf_same_powers(s0, *self);
                }
            },
        }
    }

    /// Runs a random action with the outcome `value`.
    pub fn execute_random(&mut self, action: DynAction, value: i32)
        requires
            old(self).wf(),
            spec_executable(*old(self), action),
            spec_random_options(*old(self), action) is Some,
            spec_outcome_allowed(*old(self), action, value),
        ensures
            engine_step(*old(self), *final(self)),
            spec_random_effect(*old(self), *final(self), action, value),
        decreases runner_budget(*old(self)), 6int,
    {
        let ghost s0 = *self;
        match action {
            DynAction::ChooseMonsterIntent(ChooseMonsterIntent(i)) => {
                choose_intent(self, i, value);
                proof {
                    lemma_wf_same_powers(s0, *self);
                }
            },
            DynAction::AttackDamageRandomEnemyAction(a) => {
                self.attack_random_enemy_action(a.info, value as usize);
            },
            DynAction::DrawCardRandom(_) => {
                draw_card_at(self, value as usize);
                proof {
                    lemma_wf_same_powers(s0, *self);
                }
            },
            DynAction::ArmamentsAction(_) => {
                upgrade_hand_card(self, value as usize);
                proof {
                    lemma_wf_same_powers(s0, *self);
                }
            },
            DynAction::InitializeMonsterInnateDamageAmount(a) => {
                initialize_innate_damage(self, a.monster_index, value);
                proof {
                    lemma_wf_same_powers(s0, *self);
                }
            },
            DynAction::GainBlockRandomMonsterAction(a) => {
                gain_block(self, CreatureIndex::Monster(value as usize), a.amount);
                proof {
                    lemma_wf_same_powers(s0, *self);
                }
            },
            _ => {},
        }
    }

    /// Playing a card: every creature's card-played hooks run, the card is played from
    /// the hand (see `play_card_from_hand`), and it is put away at once when nothing waits.
    pub fn play_card_action(&mut self, card: SingleCard, target: usize)
        requires
            old(self).wf(),
            holds_card(old(self).hand@, card),
            target < old(self).monsters@.len(),
        ensures
            engine_step(*old(self), *final(self)),
            exists|hooked: CombatState, played: CombatState|
                #[trigger] card_play_steps(*old(self), hooked, played, *final(self), card, target),
        decreases runner_budget(*old(self)), 5int,
    {
        let ghost s0 = *self;
        all_creatures_power_hooks(self, PowerHook::OnUseCard(card));
        let ghost s1 = *self;
        proof {
            lemma_hook_frame_wf(s0, *self);
        }
        play_card_from_hand(self, card, target);
        let ghost s2 = *self;
        self.action_now(DynAction::FinishPlayingCard(FinishPlayingCard));
        proof {
            assert(card_play_steps(s0, s1, s2, *self, card, target));
        }
    }

    /// Ending the player's turn: the player's end-of-turn hooks run, the hand is put
    /// away (see `end_turn_cards`), and the monsters' turns start.
    pub fn end_turn_action(&mut self)
        requires
            old(self).wf(),
        ensures
            engine_step(*old(self), *final(self)),
            exists|hooked: CombatState, put_away: CombatState|
                #[trigger] turn_end_steps(*old(self), hooked, put_away, *final(self)),
        decreases runner_budget(*old(self)), 5int,
    {
        let ghost s0 = *self;
        creature_power_hooks(self, CreatureIndex::Player, PowerHook::AtEndOfTurn);
        let ghost s1 = *self;
        proof {
            lemma_hook_frame_wf(s0, s1);
        }
        end_turn_cards(self);
        let ghost s2 = *self;
        proof {
            lemma_wf_same_powers(s1, *self);
        }
        self.action_now(DynAction::StartMonsterTurn(StartMonsterTurn(0)));
        proof {
            assert(turn_end_steps(s0, s1, s2, *self));
        }
    }

    /// The start of monster `i`'s turn and of each later one while the combat goes on;
    /// past the last monster, the monsters act.
    pub fn start_monster_turn_action(&mut self, i: usize)
        requires
            old(self).wf(),
        ensures
            engine_step(*old(self), *final(self)),
            if i < old(self).monsters@.len() {
                exists|started: CombatState| #[trigger] monster_turn_start_steps(*old(self), started, *final(self), i)
            } else {
                spec_now(*old(self), *final(self), DynAction::DoMonsterIntent(DoMonsterIntent(0)))
            },
        decreases runner_budget(*old(self)), 5int,
    {
        if i < self.monsters.len() {
            let ghost s0 = *self;
            if !self.monsters[i].gone {
                start_creature_turn(self, CreatureIndex::Monster(i));
            }
            let ghost s1 = *self;
            if !self.combat_over() {
                self.action_now(DynAction::StartMonsterTurn(StartMonsterTurn(i + 1)));
            }
            proof {
                assert(monster_turn_start_steps(s0, s1, *self, i));
            }
        } else {
            self.action_now(DynAction::DoMonsterIntent(DoMonsterIntent(0)));
        }
    }

    /// Monster `i` acts on its intent (its effects are queued at the back), then the
    /// next monster while the combat goes on; past the last monster, the end of the
    /// monsters' turns is queued at the back.
    pub fn do_monster_intent_action(&mut self, i: usize)
        requires
            old(self).wf(),
            spec_executable(*old(self), DynAction::DoMonsterIntent(DoMonsterIntent(i))),
        ensures
            engine_step(*old(self), *final(self)),
            if i < old(self).monsters@.len() {
                exists|acted: CombatState| #[trigger] monster_intent_steps(*old(self), acted, *final(self), i)
            } else {
                queued_at_back(*old(self), *final(self), DynAction::FinishMonsterTurn(FinishMonsterTurn(0)))
            },
        decreases runner_budget(*old(self)), 5int,
    {
        let ghost s0 = *self;
        if i < self.monsters.len() {
            if !self.monsters[i].gone {
                let effects = intent_effect_actions(self, i);
                let mut k: usize = 0;
                while k < effects.len()
                    invariant
                        k <= effects@.len(),
                        s0.wf(),
                        engine_step(s0, *self),
                        self.num_actions == s0.num_actions,
                        self.monsters@.len() == s0.monsters@.len(),
                        self.player.creature.powers@ == s0.player.creature.powers@,
                        forall|j: int|
                            0 <= j < s0.monsters@.len() ==> (#[trigger] self.monsters@[j]).creature.powers@
                                == s0.monsters@[j].creature.powers@,
                        self.hand@ == s0.hand@,
                        effects@ == spec_intent_actions(s0, i),
                        self.actions@ == s0.actions@ + effects@.subrange(0, k as int),
                        self.fresh_subaction_queue@ == s0.fresh_subaction_queue@,
                        self.stale_subaction_stack@ == s0.stale_subaction_stack@,
                        same_cards(s0, *self),
                        same_creatures(s0, *self),
                        same_counters(s0, *self),
                    decreases effects@.len() - k,
                {
                    action_bottom(self, effects[k]);
                    proof {
                        lemma_wf_same_powers(s0, *self);
                        assert(effects@.subrange(0, k + 1) =~= effects@.subrange(0, k as int).push(effects@[k as int]));
                    }
                    k = k + 1;
                }
                proof {
                    assert(effects@.subrange(0, effects@.len() as int) =~= effects@);
                }
            }
            let ghost s1 = *self;
            if !self.combat_over() {
                self.action_now(DynAction::DoMonsterIntent(DoMonsterIntent(i + 1)));
            }
            proof {
                assert(monster_intent_steps(s0, s1, *self, i));
            }
        } else {
            action_bottom(self, DynAction::FinishMonsterTurn(FinishMonsterTurn(0)));
            proof {
                lemma_wf_same_powers(s0, *self);
            }
        }
    }

    /// Monster `i`, if present, chooses its next intent, then the next monster's turn
    /// is finished from the back of the queue while the combat goes on; past the last
    /// monster, the monsters' turns end.
    pub fn finish_monster_turn_action(&mut self, i: usize)
        requires
            old(self).wf(),
        ensures
            engine_step(*old(self), *final(self)),
            if i < old(self).monsters@.len() {
                exists|chosen: CombatState| #[trigger] monster_turn_finish_steps(*old(self), chosen, *final(self), i)
            } else {
                spec_now(*old(self), *final(self), DynAction::EndMonstersTurns(EndMonstersTurns))
            },
        decreases runner_budget(*old(self)), 5int,
    {
        if i < self.monsters.len() {
            let ghost s0 = *self;
            if !self.monsters[i].gone {
                self.action_now(DynAction::ChooseMonsterIntent(ChooseMonsterIntent(i)));
            }
            let ghost s1 = *self;
            if !self.combat_over() {
                action_bottom(self, DynAction::FinishMonsterTurn(FinishMonsterTurn(i + 1)));
                proof {
                    lemma_wf_same_powers(s1, *self);
                }
            }
            proof {
                assert(monster_turn_finish_steps(s0, s1, *self, i));
            }
        } else {
            self.action_now(DynAction::EndMonstersTurns(EndMonstersTurns));
        }
    }

    /// The end of the monsters' turns (see `end_monsters_turns_effects`), then the
    /// player draws five cards.
    pub fn end_monsters_turns_action(&mut self)
        requires
            old(self).wf(),
        ensures
            engine_step(*old(self), *final(self)),
            exists|ended: CombatState|
                spec_monsters_turns_ended(*old(self), ended) && #[trigger] spec_now(
                    ended,
                    *final(self),
                    DynAction::DrawCards(DrawCards(5)),
                ),
        decreases runner_budget(*old(self)), 5int,
    {
        end_monsters_turns_effects(self);
        let ghost s1 = *self;
        self.action_now(DynAction::DrawCards(DrawCards(5)));
        proof {
            assert(spec_monsters_turns_ended(*old(self), s1) && spec_now(s1, *self, DynAction::DrawCards(DrawCards(5))));
        }
    }

    /// Drawing `count` cards: after the checks (see `prepare_draw`), one random card is
    /// drawn and then the remaining `count - 1`.
    pub fn draw_cards_action(&mut self, count: i32)
        requires
            old(self).wf(),
        ensures
            engine_step(*old(self), *final(self)),
            spec_draw_prepared(*old(self), *final(self), count, false) || exists|
                prepared: CombatState,
                first: CombatState,
            | #[trigger] draw_steps(*old(self), prepared, first, *final(self), count),
        decreases runner_budget(*old(self)), 5int,
    {
        let ghost s0 = *self;
        if prepare_draw(self, count) {
            let ghost s1 = *self;
            proof {
                lemma_wf_same_powers(s0, *self);
            }
            self.action_now(DynAction::DrawCardRandom(DrawCardRandom));
            let ghost s2 = *self;
            self.action_now(DynAction::DrawCards(DrawCards(count - 1)));
            proof {
                assert(draw_steps(s0, s1, s2, *self, count));
            }
        } else {
            proof {
                lemma_wf_same_powers(s0, *self);
            }
        }
    }

    /// Damage to every monster still present, each hit after that monster's powers.
    pub fn damage_all_enemies_action(&mut self, info: DamageInfoOwnerPowers)
        requires
            old(self).wf(),
            owner_amount_in_range(info.intermediate),
        ensures
            engine_step(*old(self), *final(self)),
            damage_all_from(*old(self), *final(self), info, 0, old(self).monsters@.len() as int),
        decreases runner_budget(*old(self)), 5int,
    {
        let count = self.monsters.len();
        let mut i: usize = 0;
        while i < count
            invariant
                i <= count,
                count <= self.monsters@.len(),
                count == old(self).monsters@.len(),
                owner_amount_in_range(info.intermediate),
                engine_step(*old(self), *self),
                forall|t: CombatState|
                    #[trigger] damage_all_from(*self, t, info, i as int, count as int) ==> damage_all_from(
                        *old(self),
                        t,
                        info,
                        0,
                        count as int,
                    ),
            decreases count - i,
        {
            let ghost before = *self;
            if !self.monsters[i].gone {
                let target = CreatureIndex::Monster(i);
                let hit = info.apply_target_powers(self, target);
                self.action_now(DynAction::DamageAction(DamageAction { target, info: hit }));
                proof {
                    assert forall|t: CombatState| #[trigger] damage_all_from(*self, t, info, i + 1, count as int)
                        implies damage_all_from(*old(self), t, info, 0, count as int) by {
                        assert(damage_all_from(before, t, info, i as int, count as int));
                    }
                }
            } else {
                proof {
                    assert forall|t: CombatState| #[trigger] damage_all_from(*self, t, info, i + 1, count as int)
                        implies damage_all_from(*old(self), t, info, 0, count as int) by {
                        assert(damage_all_from(before, t, info, i as int, count as int));
                    }
                }
            }
            i = i + 1;
        }
        proof {
            assert(damage_all_from(*self, *self, info, count as int, count as int));
        }
    }

    /// A random attack that hit monster `index`, after that monster's powers.
    pub fn attack_random_enemy_action(&mut self, info: DamageInfoOwnerPowers, index: usize)
        requires
            old(self).wf(),
            owner_amount_in_range(info.intermediate),
            index < old(self).monsters@.len(),
        ensures
            engine_step(*old(self), *final(self)),
            spec_now(
                *old(self),
                *final(self),
                DynAction::DamageAction(
                    DamageAction {
                        target: CreatureIndex::Monster(index),
                        info: spec_hit(*old(self), info, CreatureIndex::Monster(index)),
                    },
                ),
            ),
        decreases runner_budget(*old(self)), 5int,
    {
        let target = CreatureIndex::Monster(index);
        let hit = info.apply_target_powers(self, target);
        self.action_now(DynAction::DamageAction(DamageAction { target, info: hit }));
    }
}


/// Whether an action can run, and how chance decides it, depend on the cards, the
/// creatures and the card in play only, not on the queues or the counters.
pub proof fn lemma_queues_irrelevant(a: CombatState, b: CombatState, action: DynAction)
    requires
        b.hand@ == a.hand@,
        b.draw_pile@ == a.draw_pile@,
        b.card_in_play == a.card_in_play,
        b.player == a.player,
        b.monsters@ == a.monsters@,
    ensures
        spec_executable(b, action) == spec_executable(a, action),
        spec_random_options(b, action) == spec_random_options(a, action),
        spec_applicable(b, action) == spec_applicable(a, action),
        forall|v: i32| spec_outcome_allowed(b, action, v) == spec_outcome_allowed(a, action, v),
        b.num_actions == a.num_actions ==> spec_can_apply(b, action) == spec_can_apply(a, action),
{
}

/// The runner has nothing it can do: the combat is over, or nothing waits on the fresh
/// queue and either the action on top of the stack cannot be applied or no action waits
/// at all.
pub open spec fn spec_stopped(state: CombatState) -> bool {
    ||| spec_combat_over(state)
    ||| {
        &&& state.fresh_subaction_queue@.len() == 0
        &&& if state.stale_subaction_stack@.len() > 0 {
            !spec_can_apply(state, state.stale_subaction_stack@.last())
        } else {
            state.actions@.len() == 0
        }
    }
}

impl CombatState {
    /// Runs queued actions until the combat is over or the runner cannot go on: each
    /// round moves the fresh queue onto the stack, then applies the stack's top action if
    /// it can (stopping if not), or else takes the next action of the main queue.
    pub fn run_until_unable(&mut self)
        requires
            old(self).wf(),
        ensures
            engine_step(*old(self), *final(self)),
            spec_stopped(*final(self)),
            spec_ran(*old(self), *final(self)),
    {
        let ghost mut states: Seq<CombatState> = seq![*self];
        let ghost mut mids: Seq<(CombatState, CombatState)> = seq![];
        loop
            invariant_except_break
                states.last() == *self,
            invariant
                engine_step(*old(self), *self),
                states.len() == mids.len() + 1,
                states[0] == *old(self),
                forall|k: int|
                    0 <= k < mids.len() ==> #[trigger] runner_round(states[k], mids[k].0, mids[k].1, states[k + 1]),
            ensures
                engine_step(*old(self), *self),
                spec_stopped(*self),
                runner_trace(states, mids, *self),
                states[0] == *old(self),
            decreases runner_budget(*self), 2 * self.actions@.len()
                + self.fresh_subaction_queue@.len() + self.stale_subaction_stack@.len(),
        {
            if self.combat_over() {
                break;
            }
            let ghost s0 = *self;
            while self.fresh_subaction_queue.len() > 0
                invariant
                    engine_step(*old(self), *self),
                    self.fresh_subaction_queue@.len() + self.stale_subaction_stack@.len()
                        == s0.fresh_subaction_queue@.len() + s0.stale_subaction_stack@.len(),
                    self.actions@ == s0.actions@,
                    same_cards(s0, *self),
                    same_creatures(s0, *self),
                    same_counters(s0, *self),
                    !spec_combat_over(*self),
                    self.fresh_subaction_queue@.len() <= s0.fresh_subaction_queue@.len(),
                    self.fresh_subaction_queue@ == s0.fresh_subaction_queue@.subrange(
                        0,
                        self.fresh_subaction_queue@.len() as int,
                    ),
                    self.stale_subaction_stack@ == s0.stale_subaction_stack@ + s0.fresh_subaction_queue@.subrange(
                        self.fresh_subaction_queue@.len() as int,
                        s0.fresh_subaction_queue@.len() as int,
                    ).reverse(),
                decreases self.fresh_subaction_queue@.len(),
            {
                let ghost f = self.fresh_subaction_queue@;
                let ghost st = self.stale_subaction_stack@;
                let action = self.fresh_subaction_queue.pop().unwrap();
                self.stale_subaction_stack.push(action);
                proof {
                    lemma_wf_same_powers(s0, *self);
                    let n = f.len() as int;
                    let all = s0.fresh_subaction_queue@;
                    let big = all.len() as int;
                    assert(self.fresh_subaction_queue@ =~= all.subrange(0, n - 1));
                    assert(all.subrange(n - 1, big).reverse() =~= all.subrange(n, big).reverse().push(all[n - 1]));
                    assert(self.stale_subaction_stack@ =~= s0.stale_subaction_stack@ + all.subrange(n - 1, big).reverse());
                }
            }
            let ghost s1 = *self;
            proof {
                assert(s0.fresh_subaction_queue@.subrange(0, s0.fresh_subaction_queue@.len() as int)
                    =~= s0.fresh_subaction_queue@);
                assert(flushed(s0, s1));
            }
            match self.stale_subaction_stack.pop() {
                Some(action) => {
                    let ghost taken = *self;
                    proof {
                        lemma_wf_same_powers(s1, *self);
                    }
                    if can_apply(self, &action) {
                        self.apply_impl(action);
                        proof {
                            assert(runner_round(s0, s1, taken, *self));
                            let old_states = states;
                            let old_mids = mids;
                            mids = mids.push((s1, taken));
                            states = states.push(*self);
                            assert forall|k: int| 0 <= k < mids.len() implies #[trigger] runner_round(
                                states[k],
                                mids[k].0,
                                mids[k].1,
                                states[k + 1],
                            ) by {
                                if k < old_mids.len() {
                                    assert(states[k] == old_states[k] && states[k + 1] == old_states[k + 1]);
                                    assert(mids[k] == old_mids[k]);
                                }
                            }
                        }
                    } else {
                        let ghost s2 = *self;
                        self.stale_subaction_stack.push(action);
                        proof {
                            lemma_wf_same_powers(s2, *self);
                            lemma_queues_irrelevant(s2, *self, action);
                            assert(self.stale_subaction_stack@ =~= s1.stale_subaction_stack@);
                            assert(runner_stop(s0, *self));
                        }
                        break;
                    }
                },
                None => {
                    match self.actions.pop_front() {
                        Some(action) => {
                            let ghost taken = *self;
                            proof {
                                lemma_wf_same_powers(s1, *self);
                            }
                            self.action_now(action);
                            proof {
                                assert(runner_round(s0, s1, taken, *self));
                                let old_states = states;
                                let old_mids = mids;
                                mids = mids.push((s1, taken));
                                states = states.push(*self);
                                assert forall|k: int| 0 <= k < mids.len() implies #[trigger] runner_round(
                                    states[k],
                                    mids[k].0,
                                    mids[k].1,
                                    states[k + 1],
                                ) by {
                                    if k < old_mids.len() {
                                        assert(states[k] == old_states[k] && states[k + 1] == old_states[k + 1]);
                                        assert(mids[k] == old_mids[k]);
                                    }
                                }
                            }
                        },
                        None => {
                            proof {
                                assert(runner_stop(s0, *self));
                            }
                            break;
                        },
                    }
                },
            }
        }
        proof {
            assert(runner_trace(states, mids, *self) && states[0] == *old(self));
        }
    }

    /// Applies a choice of the player to a combat whose queues are empty, even one that is
    /// over: the choice is counted and applied, then the runner goes on until it cannot
    /// (at once, in a combat that is over).
    pub fn apply_choice(&mut self, choice: DynAction)
        requires
            old(self).wf(),
            old(self).fresh_subaction_queue@.len() == 0,
            old(self).stale_subaction_stack@.len() == 0,
            old(self).actions@.len() == 0,
            old(self).num_actions < i32::MAX,
            spec_applicable(*old(self), choice),
        ensures
            final(self).wf(),
            final(self).num_actions > old(self).num_actions,
            final(self).monsters@.len() >= old(self).monsters@.len(),
            final(self).num_choices == i32_specs::wrapping_add(old(self).num_choices, 1),
            spec_stopped(*final(self)),
            exists|chosen: CombatState, applied: CombatState|
                #[trigger] choice_steps(*old(self), chosen, applied, *final(self), choice),
    {
        let ghost s0 = *self;
        self.num_choices = self.num_choices.wrapping_add(1);
        let ghost s1 = *self;
        proof {
            lemma_wf_same_powers(s0, *self);
            lemma_queues_irrelevant(s0, *self, choice);
        }
        self.apply_impl(choice);
        let ghost s2 = *self;
        self.run_until_unable();
        proof {
            assert(choice_steps(s0, s1, s2, *self, choice));
        }
    }

    /// Gives the random action waiting on top of the stack the outcome `value`, then lets
    /// the runner go on until it cannot. Nothing happens, and the result is false, unless
    /// the combat goes on, nothing waits on the fresh queue, the action on top of the
    /// stack is executable and random, and `value` is an outcome it can take.
    pub fn resolve_random(&mut self, value: i32) -> (resolved: bool)
        requires
            old(self).wf(),
        ensures
            final(self).wf(),
            resolved == {
                &&& !spec_combat_over(*old(self))
                &&& old(self).fresh_subaction_queue@.len() == 0
                &&& old(self).stale_subaction_stack@.len() > 0
                &&& spec_executable(*old(self), old(self).stale_subaction_stack@.last())
                &&& spec_random_options(*old(self), old(self).stale_subaction_stack@.last()) is Some
                &&& spec_outcome_allowed(
                    *old(self),
                    old(self).stale_subaction_stack@.last(),
                    value,
                )
            },
            resolved ==> exists|taken: CombatState, ran: CombatState|
                #[trigger] resolution_steps(*old(self), taken, ran, *final(self), value),
            resolved ==> {
                &&& final(self).num_actions > old(self).num_actions
                &&& final(self).monsters@.len() >= old(self).monsters@.len()
                &&& final(self).num_choices == old(self).num_choices
                &&& spec_stopped(*final(self))
            },
            !resolved ==> {
                &&& same_cards(*old(self), *final(self))
                &&& same_creatures(*old(self), *final(self))
                &&& same_counters(*old(self), *final(self))
                &&& final(self).fresh_subaction_queue@ == old(self).fresh_subaction_queue@
                &&& final(self).stale_subaction_stack@ == old(self).stale_subaction_stack@
                &&& final(self).actions@ == old(self).actions@
            },
    {
        if self.combat_over() || self.fresh_subaction_queue.len() > 0
            || self.stale_subaction_stack.len() == 0 {
            return false;
        }
        let top = self.stale_subaction_stack[self.stale_subaction_stack.len() - 1];
        if !top.executable(self) {
            return false;
        }
        let allowed = match top.determinism(self) {
            Determinism::Random(d) => outcome_allowed(self, &top, &d, value),
            _ => false,
        };
        if !allowed {
            return false;
        }
        let ghost s0 = *self;
        self.stale_subaction_stack.pop();
        self.num_actions = self.num_actions + 1;
        let ghost s1 = *self;
        proof {
            lemma_wf_same_powers(s0, *self);
            lemma_queues_irrelevant(s0, *self, top);
        }
        self.execute_random(top, value);
        let ghost s2 = *self;
        self.run_until_unable();
        proof {
            assert(resolution_steps(s0, s1, s2, *self, value));
        }
        true
    }
}

/// Whether `value` is an outcome the random action can take, given its distribution.
fn outcome_allowed(state: &CombatState, action: &DynAction, d: &Distribution, value: i32) -> (allowed: bool)
    requires
        state.wf(),
        spec_random_options(*state, *action) == Some(d.0@),
    ensures
        allowed == spec_outcome_allowed(*state, *action, value),
{
    let mut listed = false;
    let mut i: usize = 0;
    while i < d.0.len()
        invariant
            i <= d.0@.len(),
            listed == exists|j: int| 0 <= j < i && #[trigger] d.0@[j].1 == value,
        decreases d.0@.len() - i,
    {
        if d.0[i].1 == value {
            listed = true;
        }
        i = i + 1;
    }
    let len = state.monsters.len();
    match action {
        DynAction::ChooseMonsterIntent(_) => listed,
        DynAction::AttackDamageRandomEnemyAction(_) => 0 <= value && (value as usize) < len
            && !state.monsters[value as usize].gone,
        DynAction::DrawCardRandom(_) => 0 <= value && (value as usize) < state.draw_pile.len(),
        DynAction::ArmamentsAction(a) => !a.upgraded && 0 <= value && (value as usize)
            < state.hand.len(),
        DynAction::InitializeMonsterInnateDamageAmount(a) => a.range.0 <= value && value
            < a.range.1,
        DynAction::GainBlockRandomMonsterAction(_) => listed && 0 <= value && (value as usize)
            < len,
        _ => false,
    }
}


proof fn lemma_target_choices(state: CombatState, card: SingleCard, k: int)
    requires
        0 <= k <= state.monsters@.len(),
        holds_card(state.hand@, card),
    ensures
        forall|j: int|
            0 <= j < target_choices(card, state.monsters@, k).len() ==> spec_applicable(
                state,
                #[trigger] target_choices(card, state.monsters@, k)[j],
            ),
    decreases k,
{
    if k > 0 {
        lemma_target_choices(state, card, k - 1);
        let rest = target_choices(card, state.monsters@, k - 1);
        let all = target_choices(card, state.monsters@, k);
        assert forall|j: int| 0 <= j < all.len() implies spec_applicable(state, #[trigger] all[j]) by {
            if j < rest.len() {
                assert(all[j] == rest[j]);
            }
        }
    }
}

proof fn lemma_hand_choices(state: CombatState, k: int)
    requires
        0 <= k <= state.hand@.len(),
        state.monsters@.len() > 0,
    ensures
        forall|j: int|
            0 <= j < hand_choices(state, k).len() ==> spec_applicable(
                state,
                #[trigger] hand_choices(state, k)[j],
            ),
    decreases k,
{
    if k > 0 {
        lemma_hand_choices(state, k - 1);
        let rest = hand_choices(state, k - 1);
        let these = card_choices(state, k - 1);
        let card = state.hand@[k - 1];
        assert(holds_card(state.hand@, card));
        lemma_target_choices(state, card, state.monsters@.len() as int);
        assert forall|j: int| 0 <= j < hand_choices(state, k).len() implies spec_applicable(
            state,
            #[trigger] hand_choices(state, k)[j],
        ) by {
            if j < rest.len() {
                assert(hand_choices(state, k)[j] == rest[j]);
            } else {
                assert(hand_choices(state, k)[j] == these[j - rest.len()]);
            }
        }
    }
}

/// Every legal choice can be applied: ending the turn always, and each card play names
/// a card in hand and an existing monster (the target of an untargeted card is 0, and
/// a combat that is not over has a monster).
pub proof fn lemma_legal_choices_applicable(state: CombatState)
    requires
        state.monsters@.len() > 0,
    ensures
        forall|j: int|
            0 <= j < spec_legal_choices(state).len() ==> spec_applicable(
                state,
                #[trigger] spec_legal_choices(state)[j],
            ),
{
    lemma_hand_choices(state, state.hand@.len() as int);
    let rest = hand_choices(state, state.hand@.len() as int);
    assert forall|j: int| 0 <= j < spec_legal_choices(state).len() implies spec_applicable(
        state,
        #[trigger] spec_legal_choices(state)[j],
    ) by {
        if j > 0 {
            assert(spec_legal_choices(state)[j] == rest[j - 1]);
        }
    }
}

/// Ending the turn or playing a card can be applied to a combat exactly when it can be
/// applied to a copy of it.
pub proof fn lemma_same_combat_applicable(a: CombatState, b: CombatState, action: DynAction)
    requires
        same_combat(a, b),
        action is EndTurn || action is PlayCard,
    ensures
        spec_applicable(a, action) == spec_applicable(b, action),
{
}

/// The runner leaves a combat that is over exactly as it is.
pub proof fn lemma_over_combat_left_alone(pre: CombatState, post: CombatState)
    requires
        spec_combat_over(pre),
        spec_ran(pre, post),
    ensures
        post == pre,
{
    let (states, mids) = choose|states: Seq<CombatState>, mids: Seq<(CombatState, CombatState)>|
        #[trigger] runner_trace(states, mids, post) && states[0] == pre;
    if mids.len() > 0 {
        assert(runner_round(states[0], mids[0].0, mids[0].1, states[1]));
    }
    assert(states.last() == pre);
}

/// A combat that is not over has a monster still present.
pub proof fn lemma_combat_going_has_monster(state: CombatState)
    requires
        !spec_combat_over(state),
    ensures
        state.monsters@.len() > 0,
{
}

} // verus!
