//! Indices of creatures, damage descriptions, and the queries the engine asks of a combat.
use vstd::prelude::*;
use vstd::wrapping::i32_specs;

use crate::actions::{DynAction, EndTurn, PlayCard};
use crate::simulation_state::cards::{card_info, spec_card_id_playable, spec_card_info};
use crate::simulation_state::powers::{
    apply_numeric_hooks_bounded, lemma_within_weaken, seen_power, spec_hook_fold, within, NumericHook,
};
use crate::simulation_state::{
    CardType, CombatState, Creature, IntentId, Monster, Power, PowerId, SingleCard, MAX_HAND_SIZE,
    MAX_MONSTERS,
};

verus! {

/// Combats stop being simulated after this many actions.
pub const HARD_ACTION_LIMIT: i32 = 10000;

/// The most choices a well-formed combat offers: ending the turn, and playing each card
/// of a full hand at each of the most monsters a combat holds.
pub const MAX_LEGAL_CHOICES: usize = 1 + MAX_HAND_SIZE * MAX_MONSTERS;

pub type MonsterIndex = usize;

/// Names the player or one monster of a combat.
#[derive(Clone, Copy, PartialEq, Eq, Hash, PartialOrd, Ord, Debug, Structural)]
pub enum CreatureIndex {
    Player,
    Monster(MonsterIndex),
}

#[derive(Clone, Copy, PartialEq, Eq, Hash, PartialOrd, Ord, Debug, Structural)]
pub enum DamageType {
    Normal,
    Thorns,
    HitpointLoss,
}

#[derive(Clone, Copy, PartialEq, Eq, Hash, PartialOrd, Ord, Debug, Structural)]
pub enum PowerType {
    Buff,
    Debuff,
    Relic,
}


/// An exact number part way through the power hooks: `numerator / denominator`.
/// The hooks add integers and multiply by 3/4, 2, 3/2 and 1/2, so every
/// intermediate damage or block value is such a fraction.
#[derive(Clone, Copy, PartialEq, Eq, Hash, Debug, Structural)]
pub struct Amount {
    pub numerator: i128,
    pub denominator: i128,
}

impl Amount {
    /// The fraction as a pair of mathematical integers.
    pub open spec fn pair(self) -> (int, int) {
        (self.numerator as int, self.denominator as int)
    }
}

/// Damage before any power has modified it.
#[derive(Clone, Copy, PartialEq, Eq, Hash, PartialOrd, Ord, Debug, Structural)]
pub struct DamageInfoNoPowers {
    pub damage_type: DamageType,
    pub owner: Option<CreatureIndex>,
    pub base: i32,
}

/// Damage after the attacker's powers have modified it.
#[derive(Clone, Copy, PartialEq, Eq, Hash, Debug, Structural)]
pub struct DamageInfoOwnerPowers {
    pub damage_type: DamageType,
    pub owner: Option<CreatureIndex>,
    pub base: i32,
    pub intermediate: Amount,
}

/// Damage after the attacker's and the target's powers have modified it.
#[derive(Clone, Copy, PartialEq, Eq, Hash, PartialOrd, Ord, Debug, Structural)]
pub struct DamageInfoAllPowers {
    pub damage_type: DamageType,
    pub owner: Option<CreatureIndex>,
    pub base: i32,
    pub output: i32,
}

impl DamageInfoNoPowers {
    /// Damage of `base` points from `source`.
    pub fn new(source: Option<CreatureIndex>, base: i32, damage_type: DamageType) -> (info:
        DamageInfoNoPowers)
        ensures
            info == (DamageInfoNoPowers { damage_type, owner: source, base }),
    {
        DamageInfoNoPowers { owner: source, base, damage_type }
    }

    /// The same damage with no power applied: the output is the base.
    pub fn ignore_powers(&self) -> (info: DamageInfoAllPowers)
        ensures
            info == (DamageInfoAllPowers {
                damage_type: self.damage_type,
                owner: self.owner,
                base: self.base,
                output: self.base,
            }),
    {
        DamageInfoAllPowers {
            owner: self.owner,
            base: self.base,
            damage_type: self.damage_type,
            output: self.base,
        }
    }
}


/// Intermediate damage as `apply_owner_powers` leaves it: a denominator of at most 64
/// and a value within 2^35 in absolute value.
pub open spec fn owner_amount_in_range(a: Amount) -> bool {
    1 <= a.denominator <= 64 && within(a.numerator as int, a.denominator as int, 0x8_0000_0000)
}

/// Damage after the attacker's Strength, Weak and Pen Nib (no owner: the base).
pub open spec fn spec_owner_amount(state: CombatState, info: DamageInfoNoPowers) -> (int, int) {
    match info.owner {
        Some(owner) => spec_hook_fold(
            NumericHook::DamageGive,
            state.creature(owner).powers@,
            info.damage_type,
            (info.base as int, 1),
        ),
        None => (info.base as int, 1),
    }
}

/// Damage after the target's Vulnerable and then its Flight.
pub open spec fn spec_target_amount(
    state: CombatState,
    damage_type: DamageType,
    a: (int, int),
    target: CreatureIndex,
) -> (int, int) {
    let powers = state.creature(target).powers@;
    spec_hook_fold(
        NumericHook::DamageFinalReceive,
        powers,
        damage_type,
        spec_hook_fold(NumericHook::DamageReceive, powers, damage_type, a),
    )
}

/// Final damage: the exact amount rounded toward zero, at least 0 and at most `i32::MAX`.
pub open spec fn spec_damage_output(a: (int, int)) -> i32 {
    if a.0 <= 0 {
        0
    } else if a.0 / a.1 > i32::MAX {
        i32::MAX
    } else {
        (a.0 / a.1) as i32
    }
}

/// An exact amount rounded toward zero and saturated to the `i32` range.
pub open spec fn spec_truncate(a: (int, int)) -> i32 {
    if a.0 >= 0 {
        if a.0 / a.1 > i32::MAX {
            i32::MAX
        } else {
            (a.0 / a.1) as i32
        }
    } else {
        let q = -((-a.0) / a.1);
        if q < i32::MIN {
            i32::MIN
        } else {
            q as i32
        }
    }
}

/// Block the player gains from a card's `amount`, after Dexterity and Frail.
pub open spec fn spec_player_block_amount(state: CombatState, amount: i32) -> i32 {
    spec_truncate(
        spec_hook_fold(
            NumericHook::ModifyBlock,
            state.player.creature.powers@,
            DamageType::Normal,
            (amount as int, 1),
        ),
    )
}

fn damage_output(a: Amount) -> (output: i32)
    requires
        a.denominator >= 1,
    ensures
        output == spec_damage_output(a.pair()),
{
    if a.numerator <= 0 {
        0
    } else {
        let q = a.numerator / a.denominator;
        if q > i32::MAX as i128 {
            i32::MAX
        } else {
            q as i32
        }
    }
}

fn truncate_amount(a: Amount) -> (output: i32)
    requires
        a.denominator >= 1,
        -0x1000_0000_0000_0000_0000 <= a.numerator <= 0x1000_0000_0000_0000_0000,
    ensures
        output == spec_truncate(a.pair()),
{
    if a.numerator >= 0 {
        let q = a.numerator / a.denominator;
        if q > i32::MAX as i128 {
            i32::MAX
        } else {
            q as i32
        }
    } else {
        let q = -((-a.numerator) / a.denominator);
        if q < i32::MIN as i128 {
            i32::MIN
        } else {
            q as i32
        }
    }
}

impl DamageInfoNoPowers {
    /// Applies the attacker's damage-giving powers (Strength, Weak, Pen Nib).
    pub fn apply_owner_powers(&self, state: &CombatState) -> (info: DamageInfoOwnerPowers)
        requires
            state.wf(),
            self.owner matches Some(owner) ==> state.valid_creature_index(owner),
        ensures
            info.damage_type == self.damage_type,
            info.owner == self.owner,
            info.base == self.base,
            info.intermediate.pair() == spec_owner_amount(*state, *self),
            owner_amount_in_range(info.intermediate),
    {
        let start = Amount { numerator: self.base as i128, denominator: 1 };
        let intermediate = match self.owner {
            Some(owner) => {
                let creature = state.get_creature(owner);
                proof {
                    state.lemma_wf_creature(owner);
                }
                apply_numeric_hooks_bounded(
                    NumericHook::DamageGive,
                    &creature.powers,
                    self.damage_type,
                    start,
                    Ghost(0x8000_0000),
                )
            },
            None => start,
        };
        proof {
            lemma_within_weaken(
                intermediate.numerator as int,
                intermediate.denominator as int,
                (0x8000_0000int + 0x1_0000_0000int) * 4,
                0x8_0000_0000,
            );
        }
        DamageInfoOwnerPowers {
            owner: self.owner,
            base: self.base,
            damage_type: self.damage_type,
            intermediate,
        }
    }

    /// Applies the attacker's and then the target's powers.
    pub fn apply_all_powers(&self, state: &CombatState, target: CreatureIndex) -> (info:
        DamageInfoAllPowers)
        requires
            state.wf(),
            self.owner matches Some(owner) ==> state.valid_creature_index(owner),
            state.valid_creature_index(target),
        ensures
            info == (DamageInfoAllPowers {
                damage_type: self.damage_type,
                owner: self.owner,
                base: self.base,
                output: spec_damage_output(
                    spec_target_amount(
                        *state,
                        self.damage_type,
                        spec_owner_amount(*state, *self),
                        target,
                    ),
                ),
            }),
    {
        self.apply_owner_powers(state).apply_target_powers(state, target)
    }
}

impl DamageInfoOwnerPowers {
    /// Applies the target's damage-receiving powers (Vulnerable, then Flight) and
    /// rounds: the output is the exact damage rounded toward zero, at least 0.
    pub fn apply_target_powers(&self, state: &CombatState, target: CreatureIndex) -> (info:
        DamageInfoAllPowers)
        requires
            state.wf(),
            state.valid_creature_index(target),
            owner_amount_in_range(self.intermediate),
        ensures
            info == (DamageInfoAllPowers {
                damage_type: self.damage_type,
                owner: self.owner,
                base: self.base,
                output: spec_damage_output(
                    spec_target_amount(*state, self.damage_type, self.intermediate.pair(), target),
                ),
            }),
    {
        let creature = state.get_creature(target);
        proof {
            state.lemma_wf_creature(target);
        }
        let received = apply_numeric_hooks_bounded(
            NumericHook::DamageReceive,
            &creature.powers,
            self.damage_type,
            self.intermediate,
            Ghost(0x8_0000_0000),
        );
        proof {
            lemma_within_weaken(
                received.numerator as int,
                received.denominator as int,
                (0x8_0000_0000int + 0x1_0000_0000int) * 4,
                0x40_0000_0000,
            );
        }
        let final_received = apply_numeric_hooks_bounded(
            NumericHook::DamageFinalReceive,
            &creature.powers,
            self.damage_type,
            received,
            Ghost(0x40_0000_0000),
        );
        DamageInfoAllPowers {
            owner: self.owner,
            base: self.base,
            damage_type: self.damage_type,
            output: damage_output(final_received),
        }
    }
}

impl CombatState {
    /// Every creature of a well-formed combat holds at most one power of each kind.
    pub proof fn lemma_wf_creature(&self, index: CreatureIndex)
        requires
            self.wf(),
            self.valid_creature_index(index),
        ensures
            crate::simulation_state::powers::unique_power_ids(self.creature(index).powers@),
    {
        match index {
            CreatureIndex::Player => {},
            CreatureIndex::Monster(i) => {
                assert(crate::simulation_state::powers::unique_power_ids(
                    self.monsters@[i as int].creature.powers@,
                ));
            },
        }
    }

    /// The block a card's `amount` gives the player, after Dexterity and Frail.
    pub fn player_block_amount(&self, amount: i32) -> (block: i32)
        requires
            self.wf(),
        ensures
            block == spec_player_block_amount(*self, amount),
    {
        let a = apply_numeric_hooks_bounded(
            NumericHook::ModifyBlock,
            &self.player.creature.powers,
            DamageType::Normal,
            Amount { numerator: amount as i128, denominator: 1 },
            Ghost(0x8000_0000),
        );
        proof {
            assert(within(a.numerator as int, a.denominator as int, (0x8000_0000int + 0x1_0000_0000int) * 4));
            assert(a.denominator <= 64);
            assert(-0x1000_0000_0000_0000_0000 <= a.numerator <= 0x1000_0000_0000_0000_0000) by (nonlinear_arith)
                requires
                    within(a.numerator as int, a.denominator as int, (0x8000_0000int + 0x1_0000_0000int) * 4),
                    1 <= a.denominator <= 64,
            ;
        }
        truncate_amount(a)
    }
}

/// Whether a list of powers holds one with the given id.
pub open spec fn spec_has_power(powers: Seq<Power>, id: PowerId) -> bool {
    seen_power(powers, powers.len() as int, id)
}

/// The summed amount of every power with the given id (sums wrap like `i32` addition).
pub open spec fn spec_power_amount(powers: Seq<Power>, id: PowerId) -> i32
    decreases powers.len(),
{
    if powers.len() == 0 {
        0
    } else {
        let previous = spec_power_amount(powers.drop_last(), id);
        if powers.last().power_id == id {
            i32_specs::wrapping_add(previous, powers.last().amount)
        } else {
            previous
        }
    }
}

impl Creature {
    /// Whether the creature has a power with this id.
    pub fn has_power(&self, power_id: PowerId) -> (has: bool)
        ensures
            has == spec_has_power(self.powers@, power_id),
    {
        let mut i: usize = 0;
        while i < self.powers.len()
            invariant
                i <= self.powers@.len(),
                !seen_power(self.powers@, i as int, power_id),
            decreases self.powers@.len() - i,
        {
            if self.powers[i].power_id == power_id {
                assert(self.powers@[i as int].power_id == power_id);
                return true;
            }
            i = i + 1;
        }
        false
    }

    /// The total amount of the creature's powers with this id.
    pub fn power_amount(&self, power_id: PowerId) -> (amount: i32)
        ensures
            amount == spec_power_amount(self.powers@, power_id),
    {
        let mut total: i32 = 0;
        let mut i: usize = 0;
        while i < self.powers.len()
            invariant
                i <= self.powers@.len(),
                total == spec_power_amount(self.powers@.subrange(0, i as int), power_id),
            decreases self.powers@.len() - i,
        {
            proof {
                assert(self.powers@.subrange(0, i + 1).drop_last() =~= self.powers@.subrange(0, i as int));
            }
            if self.powers[i].power_id == power_id {
                total = total.wrapping_add(self.powers[i].amount);
            }
            i = i + 1;
        }
        assert(self.powers@.subrange(0, self.powers@.len() as int) =~= self.powers@);
        total
    }
}

/// Whether every monster of a list has left the combat.
pub open spec fn all_gone(monsters: Seq<Monster>) -> bool {
    forall|i: int| 0 <= i < monsters.len() ==> #[trigger] monsters[i].gone
}

/// A combat is over once the player is dead, every monster is gone,
/// or the hard action limit is reached.
pub open spec fn spec_combat_over(state: CombatState) -> bool {
    state.player.creature.hitpoints <= 0 || all_gone(state.monsters@) || state.num_actions
        >= HARD_ACTION_LIMIT
}

/// Whether the player may play this card now: a playable cost the player can
/// afford, the card's own condition, and no Entangled player playing an attack.
pub open spec fn spec_card_playable(state: CombatState, card: SingleCard) -> bool {
    &&& card.cost >= -1
    &&& state.player.energy >= card.cost
    &&& spec_card_id_playable(card.card_id, state)
    &&& !(spec_card_info(card.card_id).card_type == CardType::Attack && spec_has_power(
        state.player.creature.powers@,
        PowerId::Entangled,
    ))
}

/// No earlier card of the hand equals the card at `i`.
pub open spec fn first_occurrence(hand: Seq<SingleCard>, i: int) -> bool {
    forall|j: int| 0 <= j < i ==> hand[j] != hand[i]
}

/// One choice of playing `card` at each of the first `k` monsters still present.
pub open spec fn target_choices(card: SingleCard, monsters: Seq<Monster>, k: int) -> Seq<DynAction>
    decreases k,
{
    if k <= 0 {
        seq![]
    } else {
        let rest = target_choices(card, monsters, k - 1);
        if !monsters[k - 1].gone {
            rest.push(DynAction::PlayCard(PlayCard { card, target: (k - 1) as usize }))
        } else {
            rest
        }
    }
}

/// The choices of playing the hand's card at `i`: none for a repeated or unplayable
/// card, one per present monster for a targeted card, else one with target 0.
pub open spec fn card_choices(state: CombatState, i: int) -> Seq<DynAction> {
    let card = state.hand@[i];
    if first_occurrence(state.hand@, i) && spec_card_playable(state, card) {
        if spec_card_info(card.card_id).has_target {
            target_choices(card, state.monsters@, state.monsters@.len() as int)
        } else {
            seq![DynAction::PlayCard(PlayCard { card, target: 0 })]
        }
    } else {
        seq![]
    }
}

/// The choices of playing one of the first `k` cards of the hand.
pub open spec fn hand_choices(state: CombatState, k: int) -> Seq<DynAction>
    decreases k,
{
    if k <= 0 {
        seq![]
    } else {
        hand_choices(state, k - 1) + card_choices(state, k - 1)
    }
}

/// Ending the turn, then every way to play a card.
pub open spec fn spec_legal_choices(state: CombatState) -> Seq<DynAction> {
    seq![DynAction::EndTurn(EndTurn)] + hand_choices(state, state.hand@.len() as int)
}

proof fn lemma_target_choices_shape(card: SingleCard, monsters: Seq<Monster>, k: int)
    requires
        0 <= k,
    ensures
        target_choices(card, monsters, k).len() <= k,
        forall|j: int|
            0 <= j < target_choices(card, monsters, k).len() ==> #[trigger] target_choices(
                card,
                monsters,
                k,
            )[j] is PlayCard,
    decreases k,
{
    if k > 0 {
        lemma_target_choices_shape(card, monsters, k - 1);
    }
}

proof fn lemma_hand_choices_shape(state: CombatState, k: int)
    requires
        0 <= k <= state.hand@.len(),
        state.monsters@.len() <= 7,
    ensures
        hand_choices(state, k).len() <= 7 * k,
        forall|j: int|
            0 <= j < hand_choices(state, k).len() ==> #[trigger] hand_choices(state, k)[j] is PlayCard,
    decreases k,
{
    if k > 0 {
        lemma_hand_choices_shape(state, k - 1);
        lemma_target_choices_shape(state.hand@[k - 1], state.monsters@, state.monsters@.len() as int);
        let rest = hand_choices(state, k - 1);
        let these = card_choices(state, k - 1);
        assert forall|j: int| 0 <= j < hand_choices(state, k).len() implies #[trigger] hand_choices(
            state,
            k,
        )[j] is PlayCard by {
            if j < rest.len() {
                assert(hand_choices(state, k)[j] == rest[j]);
            } else {
                assert(hand_choices(state, k)[j] == these[j - rest.len()]);
            }
        }
    }
}

proof fn lemma_target_choices_targets(card: SingleCard, monsters: Seq<Monster>, k: int)
    requires
        0 <= k <= monsters.len(),
    ensures
        forall|j: int|
            0 <= j < target_choices(card, monsters, k).len() ==> (#[trigger] target_choices(
                card,
                monsters,
                k,
            )[j] matches DynAction::PlayCard(p) && p.card == card && p.target < monsters.len()),
    decreases k,
{
    if k > 0 {
        lemma_target_choices_targets(card, monsters, k - 1);
        let rest = target_choices(card, monsters, k - 1);
        let all = target_choices(card, monsters, k);
        assert forall|j: int| 0 <= j < all.len() implies (#[trigger] all[j] matches DynAction::PlayCard(p)
            && p.card == card && p.target < monsters.len()) by {
            if j < rest.len() {
                assert(all[j] == rest[j]);
            }
        }
    }
}

proof fn lemma_hand_choices_targets(state: CombatState, k: int)
    requires
        0 <= k <= state.hand@.len(),
    ensures
        forall|j: int|
            0 <= j < hand_choices(state, k).len() ==> (#[trigger] hand_choices(state, k)[j] matches DynAction::PlayCard(p)
                && (exists|i: int| 0 <= i < k && state.hand@[i] == p.card && spec_card_playable(state, p.card))
                && (spec_card_info(p.card.card_id).has_target ==> p.target < state.monsters@.len())
                && (!spec_card_info(p.card.card_id).has_target ==> p.target == 0)),
    decreases k,
{
    if k > 0 {
        lemma_hand_choices_targets(state, k - 1);
        let card = state.hand@[k - 1];
        lemma_target_choices_targets(card, state.monsters@, state.monsters@.len() as int);
        let rest = hand_choices(state, k - 1);
        let these = card_choices(state, k - 1);
        assert forall|j: int| 0 <= j < hand_choices(state, k).len() implies (#[trigger] hand_choices(
            state,
            k,
        )[j] matches DynAction::PlayCard(p) && (exists|i: int|
            0 <= i < k && state.hand@[i] == p.card && spec_card_playable(state, p.card)) && (spec_card_info(
            p.card.card_id,
        ).has_target ==> p.target < state.monsters@.len()) && (!spec_card_info(p.card.card_id).has_target
            ==> p.target == 0)) by {
            if j < rest.len() {
                assert(hand_choices(state, k)[j] == rest[j]);
            } else {
                assert(hand_choices(state, k)[j] == these[j - rest.len()]);
                assert(state.hand@[k - 1] == card);
            }
        }
    }
}

/// Every card a legal choice plays is a playable card of the hand, aimed at a monster
/// there is when it takes a target, and at place 0 when it does not.
pub proof fn lemma_legal_choice_targets(state: CombatState)
    ensures
        forall|j: int|
            0 <= j < spec_legal_choices(state).len() ==> (#[trigger] spec_legal_choices(state)[j] matches DynAction::PlayCard(p)
                ==> (exists|i: int| 0 <= i < state.hand@.len() && state.hand@[i] == p.card && spec_card_playable(state, p.card))
                && (spec_card_info(p.card.card_id).has_target ==> p.target < state.monsters@.len())
                && (!spec_card_info(p.card.card_id).has_target ==> p.target == 0)),
{
    lemma_hand_choices_targets(state, state.hand@.len() as int);
    let rest = hand_choices(state, state.hand@.len() as int);
    assert forall|j: int| 0 <= j < spec_legal_choices(state).len() implies (#[trigger] spec_legal_choices(
        state,
    )[j] matches DynAction::PlayCard(p) ==> (exists|i: int|
        0 <= i < state.hand@.len() && state.hand@[i] == p.card && spec_card_playable(state, p.card)) && (
    spec_card_info(p.card.card_id).has_target ==> p.target < state.monsters@.len()) && (!spec_card_info(
        p.card.card_id,
    ).has_target ==> p.target == 0)) by {
        if j > 0 {
            assert(spec_legal_choices(state)[j] == rest[j - 1]);
        }
    }
}

/// A well-formed combat offers at most `MAX_LEGAL_CHOICES` choices, each ending the turn
/// or playing a card.
pub proof fn lemma_legal_choices_shape(state: CombatState)
    requires
        state.wf(),
    ensures
        spec_legal_choices(state).len() <= MAX_LEGAL_CHOICES,
        forall|j: int|
            0 <= j < spec_legal_choices(state).len() ==> (#[trigger] spec_legal_choices(state)[j] is EndTurn
                || spec_legal_choices(state)[j] is PlayCard),
{
    lemma_hand_choices_shape(state, state.hand@.len() as int);
    let rest = hand_choices(state, state.hand@.len() as int);
    assert forall|j: int| 0 <= j < spec_legal_choices(state).len() implies (
    #[trigger] spec_legal_choices(state)[j] is EndTurn || spec_legal_choices(state)[j] is PlayCard) by {
        if j > 0 {
            assert(spec_legal_choices(state)[j] == rest[j - 1]);
        }
    }
}

impl CombatState {
    /// Whether the combat is over.
    pub fn combat_over(&self) -> (over: bool)
        ensures
            over == spec_combat_over(*self),
    {
        if self.player.creature.hitpoints <= 0 {
            return true;
        }
        if self.num_actions >= HARD_ACTION_LIMIT {
            return true;
        }
        let mut i: usize = 0;
        while i < self.monsters.len()
            invariant
                i <= self.monsters@.len(),
                self.player.creature.hitpoints > 0,
                self.num_actions < HARD_ACTION_LIMIT,
                forall|j: int| 0 <= j < i ==> #[trigger] self.monsters@[j].gone,
            decreases self.monsters@.len() - i,
        {
            if !self.monsters[i].gone {
                assert(!all_gone(self.monsters@)) by {
                    assert(!self.monsters@[i as int].gone);
                }
                return false;
            }
            i = i + 1;
        }
        true
    }

    /// Whether the next step of the combat is a choice of the player.
    pub fn choice_next(&self) -> (next: bool)
        ensures
            next == (!spec_combat_over(*self) && self.stale_subaction_stack@.len() == 0),
    {
        !self.combat_over() && self.stale_subaction_stack.len() == 0
    }

    /// Whether the player may play this card now.
    pub fn card_playable(&self, card: &SingleCard) -> (playable: bool)
        ensures
            playable == spec_card_playable(*self, *card),
    {
        card.cost >= -1 && self.player.energy >= card.cost && card.card_id.playable(self) && !(
        card_info(card.card_id).card_type == CardType::Attack
            && self.player.creature.has_power(PowerId::Entangled))
    }

    /// Every choice open to the player: ending the turn first, then playing each
    /// distinct playable card of the hand, at each present monster if it takes a target.
    pub fn legal_choices(&self) -> (choices: Vec<DynAction>)
        ensures
            choices@ == spec_legal_choices(*self),
    {
        let mut result: Vec<DynAction> = Vec::new();
        result.push(DynAction::EndTurn(EndTurn));
        let mut index: usize = 0;
        while index < self.hand.len()
            invariant
                index <= self.hand@.len(),
                result@ == seq![DynAction::EndTurn(EndTurn)] + hand_choices(*self, index as int),
            decreases self.hand@.len() - index,
        {
            let card = self.hand[index];
            let mut earlier: usize = 0;
            let mut first = true;
            while earlier < index
                invariant
                    earlier <= index < self.hand@.len(),
                    card == self.hand@[index as int],
                    first == (forall|j: int| 0 <= j < earlier ==> self.hand@[j] != self.hand@[index as int]),
                decreases index - earlier,
            {
                if self.hand[earlier] == card {
                    first = false;
                }
                earlier = earlier + 1;
            }
            let ghost before = result@;
            if first && self.card_playable(&card) {
                if card_info(card.card_id).has_target {
                    let mut monster_index: usize = 0;
                    while monster_index < self.monsters.len()
                        invariant
                            monster_index <= self.monsters@.len(),
                            result@ == before + target_choices(card, self.monsters@, monster_index as int),
                        decreases self.monsters@.len() - monster_index,
                    {
                        if !self.monsters[monster_index].gone {
                            result.push(DynAction::PlayCard(PlayCard { card, target: monster_index }));
                        }
                        monster_index = monster_index + 1;
                    }
                } else {
                    result.push(DynAction::PlayCard(PlayCard { card, target: 0 }));
                }
            }
            assert(result@ =~= seq![DynAction::EndTurn(EndTurn)] + hand_choices(*self, index + 1));
            index = index + 1;
        }
        result
    }

    /// The creature that `index` names.
    pub fn get_creature(&self, index: CreatureIndex) -> (creature: &Creature)
        requires
            self.valid_creature_index(index),
        ensures
            *creature == self.creature(index),
    {
        match index {
            CreatureIndex::Player => &self.player.creature,
            CreatureIndex::Monster(i) => &self.monsters[i].creature,
        }
    }

    /// The creature that `index` names, to change in place: whatever is written through
    /// it becomes that creature, and nothing else of the combat changes.
    pub fn get_creature_mut(&mut self, index: CreatureIndex) -> (creature: &mut Creature)
        requires
            old(self).valid_creature_index(index),
        ensures
            *creature == old(self).creature(index),
            final(self).creature(index) == *final(creature),
            final(self).player.energy == old(self).player.energy,
            index != CreatureIndex::Player ==> final(self).player == old(self).player,
            final(self).monsters@.len() == old(self).monsters@.len(),
            forall|i: int|
                0 <= i < old(self).monsters@.len() && CreatureIndex::Monster(i as usize) != index
                    ==> #[trigger] final(self).monsters@[i] == old(self).monsters@[i],
            forall|i: int|
                0 <= i < old(self).monsters@.len() ==> (#[trigger] final(self).monsters@[i]).gone
                    == old(self).monsters@[i].gone && final(self).monsters@[i].monster_id
                    == old(self).monsters@[i].monster_id && final(self).monsters@[i].innate_damage_amount
                    == old(self).monsters@[i].innate_damage_amount && final(self).monsters@[i].ascension
                    == old(self).monsters@[i].ascension && final(self).monsters@[i].move_history
                    == old(self).monsters@[i].move_history,
            final(self).draw_pile == old(self).draw_pile,
            final(self).discard_pile == old(self).discard_pile,
            final(self).exhaust_pile == old(self).exhaust_pile,
            final(self).hand == old(self).hand,
            final(self).limbo == old(self).limbo,
            final(self).card_in_play == old(self).card_in_play,
            final(self).turn_number == old(self).turn_number,
            final(self).turn_has_ended == old(self).turn_has_ended,
            final(self).fresh_subaction_queue == old(self).fresh_subaction_queue,
            final(self).stale_subaction_stack == old(self).stale_subaction_stack,
            final(self).actions == old(self).actions,
            final(self).num_reshuffles == old(self).num_reshuffles,
            final(self).num_actions == old(self).num_actions,
            final(self).num_choices == old(self).num_choices,
    {
        match index {
            CreatureIndex::Player => &mut self.player.creature,
            CreatureIndex::Monster(i) => &mut self.monsters[i].creature,
        }
    }

    /// Heals a creature: hitpoints rise by `amount` (wrapping like `i32` addition)
    /// but not above the creature's maximum.
    pub fn heal(&mut self, creature_index: CreatureIndex, amount: i32)
        requires
            old(self).valid_creature_index(creature_index),
        ensures
            ({
                let before = old(self).creature(creature_index);
                let raised = i32_specs::wrapping_add(before.hitpoints, amount);
                final(self).creature(creature_index) == (Creature {
                    hitpoints: if raised < before.max_hitpoints { raised } else { before.max_hitpoints },
                    ..before
                })
            }),
            final(self).player.energy == old(self).player.energy,
            final(self).monsters@.len() == old(self).monsters@.len(),
            forall|i: int|
                0 <= i < old(self).monsters@.len() && CreatureIndex::Monster(i as usize) != creature_index
                    ==> #[trigger] final(self).monsters@[i] == old(self).monsters@[i],
            creature_index != CreatureIndex::Player ==> final(self).player == old(self).player,
            forall|i: int|
                0 <= i < old(self).monsters@.len() ==> (#[trigger] final(self).monsters@[i]).gone == old(self).monsters@[i].gone
                    && final(self).monsters@[i].monster_id == old(self).monsters@[i].monster_id
                    && final(self).monsters@[i].move_history == old(self).monsters@[i].move_history,
    {
        match creature_index {
            CreatureIndex::Player => {
                let raised = self.player.creature.hitpoints.wrapping_add(amount);
                let max = self.player.creature.max_hitpoints;
                self.player.creature.hitpoints = if raised < max { raised } else { max };
            },
            CreatureIndex::Monster(i) => {
                let raised = self.monsters[i].creature.hitpoints.wrapping_add(amount);
                let max = self.monsters[i].creature.max_hitpoints;
                self.monsters[i].creature.hitpoints = if raised < max { raised } else { max };
            },
        }
    }

    /// The intent a monster shows: the last entry of its move history.
    pub fn monster_intent(&self, monster_index: usize) -> (intent: IntentId)
        requires
            monster_index < self.monsters@.len(),
            self.monsters@[monster_index as int].move_history@.len() > 0,
        ensures
            intent == self.monsters@[monster_index as int].move_history@.last(),
    {
        self.monsters[monster_index].intent()
    }
}

impl Monster {
    /// The monster's current intent: the last entry of its move history.
    pub fn intent(&self) -> (intent: IntentId)
        requires
            self.move_history@.len() > 0,
        ensures
            intent == self.move_history@.last(),
    {
        self.move_history[self.move_history.len() - 1]
    }

    /// Records a new intent at the end of the move history.
    pub fn push_intent(&mut self, intent: IntentId)
        ensures
            final(self).move_history@ == old(self).move_history@.push(intent),
            final(self).monster_id == old(self).monster_id,
            final(self).innate_damage_amount == old(self).innate_damage_amount,
            final(self).ascension == old(self).ascension,
            final(self).creature == old(self).creature,
            final(self).gone == old(self).gone,
    {
        self.move_history.push(intent);
    }
}

} // verus!
