//! Properties of the simulator that hold for every input.
use vstd::prelude::*;

use crate::action_effects::{
    card_position, has_power_id, holds_card, power_index, spec_card_played, spec_power_reduced,
    priority_sorted, spec_damage_split, spec_hitpoints_after, upgraded, with_priority,
};
use crate::actions::{
    spec_hook_effect, ApplyPowerAction, ArmamentsAction, DamageAction, DamageAllEnemiesAction,
    DiscardNewCard, DrawCards, DynAction, GainBlockAction, GainEnergyAction, PowerHook,
    ReducePowerAction,
    RemoveSpecificPowerAction,
};
use crate::simulation::{
    spec_card_playable, spec_damage_output, spec_has_power, spec_owner_amount, spec_player_block_amount,
    spec_target_amount, DamageInfoNoPowers, spec_power_amount, CreatureIndex, DamageInfoAllPowers,
    DamageType,
};
use crate::simulation_state::cards::{spec_card_actions, spec_card_info};
use crate::seed_system::{has_value, merge_all, scale_entries, unique_values, WEIGHT_ONE};
use crate::simulation_state::monsters::{
    band_start, combine_bands, push_band, spec_byrd_bands, spec_did_repeats, spec_final_distribution,
    spec_intent_actions, spec_intent_choice_distribution, spec_single, spec_split, spec_with_max_repeats,
};
use crate::simulation_state::powers::{
    spec_hook_fold, spec_hook_step, spec_priority, spec_reduced_amount, spec_stacked_amount, unique_power_ids,
    NumericHook,
};
use crate::simulation_state::{
    CardId, CardInfo, CardType, CombatState, MonsterId, Power, PowerId, Rarity, SingleCard, UNPLAYABLE,
    X_COST,
};

verus! {

/// Damage is fully accounted for: on a creature with no negative hitpoints or block,
/// the block and hitpoints lost together equal the damage dealt (a negative output
/// counting as none), up to all the creature had; neither block nor hitpoints rise or
/// fall below 0.
pub proof fn lemma_damage_accounting(output: i32, block: i32, hitpoints: i32)
    requires
        block >= 0,
        hitpoints >= 0,
    ensures
        ({
            let (d, left) = spec_damage_split(output, block);
            let after = spec_hitpoints_after(hitpoints, d);
            let dealt: int = if output < 0 {
                0
            } else {
                output as int
            };
            &&& 0 <= left <= block
            &&& 0 <= after <= hitpoints
            &&& (block - left) + (hitpoints - after) == if dealt < block + hitpoints {
                dealt
            } else {
                block + hitpoints
            }
        }),
{
}

/// Upgrading a card twice is the same as upgrading it once.
pub proof fn lemma_upgrade_idempotent(card: SingleCard)
    ensures
        upgraded(upgraded(card)) == upgraded(card),
{
}

/// Strength and Dexterity stay within -999..=999 however much of them is stacked on.
pub proof fn lemma_strength_dexterity_bounded(id: PowerId, amount: i32, stack_amount: i32)
    requires
        id == PowerId::Strength || id == PowerId::Dexterity,
    ensures
        -999 <= spec_stacked_amount(id, amount, stack_amount) <= 999,
        -999 <= spec_reduced_amount(id, amount, stack_amount) <= 999,
{
}

/// Reducing a power other than Strength and Dexterity never leaves it negative.
pub proof fn lemma_reduced_not_negative(id: PowerId, amount: i32, reduce_amount: i32)
    requires
        id != PowerId::Strength,
        id != PowerId::Dexterity,
    ensures
        spec_reduced_amount(id, amount, reduce_amount) >= 0,
{
}

proof fn lemma_with_priority(powers: Seq<Power>, p: i32)
    ensures
        forall|k: int|
            0 <= k < with_priority(powers, p).len() ==> spec_priority(
                (#[trigger] with_priority(powers, p)[k]).power_id,
            ) == p,
        with_priority(powers, p).len() <= powers.len(),
    decreases powers.len(),
{
    if powers.len() > 0 {
        lemma_with_priority(powers.drop_last(), p);
        let rest = with_priority(powers.drop_last(), p);
        assert forall|k: int| 0 <= k < with_priority(powers, p).len() implies spec_priority(
            (#[trigger] with_priority(powers, p)[k]).power_id,
        ) == p by {
            if k < rest.len() {
                assert(with_priority(powers, p)[k] == rest[k]);
            }
        }
    }
}

proof fn lemma_with_priority_count(powers: Seq<Power>)
    ensures
        with_priority(powers, 5).len() + with_priority(powers, 6).len() + with_priority(
            powers,
            10,
        ).len() + with_priority(powers, 99).len() == powers.len(),
    decreases powers.len(),
{
    if powers.len() > 0 {
        lemma_with_priority_count(powers.drop_last());
    }
}

/// Sorting powers by priority keeps every power and leaves them in ascending order
/// of priority.
pub proof fn lemma_priority_sorted(powers: Seq<Power>)
    ensures
        priority_sorted(powers).len() == powers.len(),
        forall|i: int, j: int|
            0 <= i < j < powers.len() ==> spec_priority(
                (#[trigger] priority_sorted(powers)[i]).power_id,
            ) <= spec_priority((#[trigger] priority_sorted(powers)[j]).power_id),
{
    lemma_with_priority_count(powers);
    lemma_with_priority(powers, 5);
    lemma_with_priority(powers, 6);
    lemma_with_priority(powers, 10);
    lemma_with_priority(powers, 99);
    let a = with_priority(powers, 5);
    let b = with_priority(powers, 6);
    let c = with_priority(powers, 10);
    let d = with_priority(powers, 99);
    let s = priority_sorted(powers);
    assert forall|k: int| 0 <= k < s.len() implies {
        let q = spec_priority((#[trigger] s[k]).power_id);
        &&& k < a.len() ==> q == 5
        &&& a.len() <= k < a.len() + b.len() ==> q == 6
        &&& a.len() + b.len() <= k < a.len() + b.len() + c.len() ==> q == 10
        &&& a.len() + b.len() + c.len() <= k ==> q == 99
    } by {
        if k < a.len() {
            assert(s[k] == a[k]);
        } else if k < a.len() + b.len() {
            assert(s[k] == b[k - a.len()]);
        } else if k < a.len() + b.len() + c.len() {
            assert(s[k] == c[k - a.len() - b.len()]);
        } else {
            assert(s[k] == d[k - a.len() - b.len() - c.len()]);
        }
    }
}


/// Stacking more of a power other than Strength and Dexterity adds the amounts (2 + 2 is
/// 4), unless the power's amount is -1, which marks a power that does not stack.
pub proof fn lemma_stacking_adds(id: PowerId, amount: i32, stack_amount: i32)
    requires
        id != PowerId::Strength,
        id != PowerId::Dexterity,
        i32::MIN <= amount + stack_amount <= i32::MAX,
    ensures
        amount != -1 ==> spec_stacked_amount(id, amount, stack_amount) == amount + stack_amount,
        amount == -1 ==> spec_stacked_amount(id, amount, stack_amount) == -1,
{
}

/// Strength and Dexterity stacked within -999..=999 add up too.
pub proof fn lemma_strength_dexterity_stack_adds(id: PowerId, amount: i32, stack_amount: i32)
    requires
        id == PowerId::Strength || id == PowerId::Dexterity,
        -999 <= amount + stack_amount <= 999,
    ensures
        spec_stacked_amount(id, amount, stack_amount) == amount + stack_amount,
{
}

/// At the end of a round Vulnerable, Weak and Frail wear off by one: with a positive
/// amount `n` the hook queues taking 1 off it, at the front of the queue, which leaves
/// `n - 1`; only a power whose amount is not positive is removed outright.
pub proof fn lemma_debuffs_wear_off_by_one(owner: CreatureIndex, power: Power, hitpoints: i32)
    requires
        power.power_id == PowerId::Vulnerable || power.power_id == PowerId::Weak || power.power_id
            == PowerId::Frail,
    ensures
        ({
            let (kept, front, back) = spec_hook_effect(owner, power, hitpoints, PowerHook::AtEndOfRound);
            &&& kept == power
            &&& back.len() == 0
            &&& front.len() == 1
            &&& power.amount > 0 ==> front[0] == DynAction::ReducePowerAction(
                ReducePowerAction { target: owner, power_id: power.power_id, amount: 1 },
            )
            &&& power.amount <= 0 ==> front[0] == DynAction::RemoveSpecificPowerAction(
                RemoveSpecificPowerAction { target: owner, power_id: power.power_id },
            )
        }),
        power.amount > 0 ==> spec_reduced_amount(power.power_id, power.amount, 1) == power.amount - 1,
{
}

proof fn lemma_block_fold_frail(powers: Seq<Power>, a: int)
    requires
        forall|i: int| 0 <= i < powers.len() ==> (#[trigger] powers[i]).power_id != PowerId::Dexterity,
        forall|i: int, j: int|
            0 <= i < j < powers.len() ==> #[trigger] powers[i].power_id != #[trigger] powers[j].power_id,
    ensures
        (exists|i: int| 0 <= i < powers.len() && (#[trigger] powers[i]).power_id == PowerId::Frail)
            ==> spec_hook_fold(NumericHook::ModifyBlock, powers, DamageType::Normal, (a, 1)) == (a
            * 3, 4int),
        !(exists|i: int| 0 <= i < powers.len() && (#[trigger] powers[i]).power_id == PowerId::Frail)
            ==> spec_hook_fold(NumericHook::ModifyBlock, powers, DamageType::Normal, (a, 1)) == (a, 1int),
    decreases powers.len(),
{
    if powers.len() > 0 {
        let rest = powers.drop_last();
        lemma_block_fold_frail(rest, a);
        if powers.last().power_id == PowerId::Frail {
            assert forall|i: int| 0 <= i < rest.len() implies (#[trigger] rest[i]).power_id != PowerId::Frail by {
                assert(powers[i].power_id != powers[powers.len() - 1].power_id);
            }
        } else {
            if exists|i: int| 0 <= i < powers.len() && (#[trigger] powers[i]).power_id == PowerId::Frail {
                let i = choose|i: int| 0 <= i < powers.len() && (#[trigger] powers[i]).power_id == PowerId::Frail;
                assert(rest[i].power_id == PowerId::Frail);
            }
        }
    }
}

/// A Frail player without Dexterity gains three quarters of a card's block, rounded
/// down (Defend's 5 gives 3).
pub proof fn lemma_frail_block(state: CombatState, amount: i32)
    requires
        state.wf(),
        amount >= 0,
        exists|i: int|
            0 <= i < state.player.creature.powers@.len() && (#[trigger] state.player.creature.powers@[i]).power_id
                == PowerId::Frail,
        forall|i: int|
            0 <= i < state.player.creature.powers@.len() ==> (#[trigger] state.player.creature.powers@[i]).power_id
                != PowerId::Dexterity,
    ensures
        spec_player_block_amount(state, amount) == amount * 3 / 4,
{
    lemma_block_fold_frail(state.player.creature.powers@, amount as int);
}

/// A player with neither Frail nor Dexterity gains a card's block as it is.
pub proof fn lemma_plain_block(state: CombatState, amount: i32)
    requires
        state.wf(),
        amount >= 0,
        forall|i: int|
            0 <= i < state.player.creature.powers@.len() ==> (#[trigger] state.player.creature.powers@[i]).power_id
                != PowerId::Dexterity && state.player.creature.powers@[i].power_id != PowerId::Frail,
    ensures
        spec_player_block_amount(state, amount) == amount,
{
    lemma_block_fold_frail(state.player.creature.powers@, amount as int);
}

/// A monster's attack on the player for `base` damage.
pub open spec fn attacks_player_for(action: DynAction, monster_index: usize, base: i32) -> bool {
    action matches DynAction::DamageAction(DamageAction { target, info }) && target == CreatureIndex::Player
        && info.base == base && info.owner == Some(CreatureIndex::Monster(monster_index))
        && info.damage_type == DamageType::Normal
}

/// A Byrd carries out its current intent with the game's numbers: Caw gains 1 Strength at
/// every ascension, Fly 3 Flight (4 from ascension 17), Peck attacks 5 times for 1 (6
/// times from ascension 2), Headbutt attacks once for 3, Swoop once for 12 (14 from
/// ascension 2), and Stunned does nothing.
pub proof fn lemma_byrd_intents(state: CombatState, i: usize)
    requires
        i < state.monsters@.len(),
        state.monsters@[i as int].monster_id == MonsterId::Byrd,
        state.monsters@[i as int].move_history@.len() > 0,
    ensures
        ({
            let m = state.monsters@[i as int];
            let intent = m.move_history@.last();
            let asc = m.ascension;
            let actions = spec_intent_actions(state, i);
            let self_power = |id: PowerId, amount: i32|
                DynAction::ApplyPowerAction(
                    ApplyPowerAction {
                        source: CreatureIndex::Monster(i),
                        target: CreatureIndex::Monster(i),
                        power_id: id,
                        amount,
                    },
                );
            &&& intent == 0 ==> actions == seq![self_power(PowerId::Strength, 1)]
            &&& intent == 3 ==> actions == seq![self_power(PowerId::Flight, if asc >= 17 { 4i32 } else { 3i32 })]
            &&& intent == 1 ==> actions.len() == (if asc >= 2 { 6int } else { 5int }) && forall|k: int|
                0 <= k < actions.len() ==> attacks_player_for(#[trigger] actions[k], i, 1)
            &&& intent == 4 ==> actions.len() == 1 && attacks_player_for(actions[0], i, 3)
            &&& intent == 2 ==> actions.len() == 1 && attacks_player_for(
                actions[0],
                i,
                if asc >= 2 { 14i32 } else { 12i32 },
            )
            &&& intent == 5 ==> actions.len() == 0
        }),
{
}

/// What one power does to an exact amount `n / d`, with the game's numbers: on block,
/// Dexterity adds its amount and Frail takes a quarter off; on normal damage dealt,
/// Strength adds its amount, Weak takes a quarter off and Pen Nib doubles it; on normal
/// damage taken, Vulnerable adds half, and then Flight halves it. Any other power, and
/// damage of another type, is left alone.
pub proof fn lemma_numeric_hooks(power: Power, damage_type: DamageType, n: int, d: int)
    ensures
        ({
            let id = power.power_id;
            let x = power.amount as int;
            let block = spec_hook_step(NumericHook::ModifyBlock, power, damage_type, (n, d));
            let give = spec_hook_step(NumericHook::DamageGive, power, damage_type, (n, d));
            let receive = spec_hook_step(NumericHook::DamageReceive, power, damage_type, (n, d));
            let last = spec_hook_step(NumericHook::DamageFinalReceive, power, damage_type, (n, d));
            let normal = damage_type == DamageType::Normal;
            &&& block == if id == PowerId::Dexterity {
                (n + x * d, d)
            } else if id == PowerId::Frail {
                (n * 3, d * 4)
            } else {
                (n, d)
            }
            &&& give == if normal && id == PowerId::Strength {
                (n + x * d, d)
            } else if normal && id == PowerId::Weak {
                (n * 3, d * 4)
            } else if normal && id == PowerId::PenNib {
                (n * 2, d)
            } else {
                (n, d)
            }
            &&& receive == if normal && id == PowerId::Vulnerable {
                (n * 3, d * 2)
            } else {
                (n, d)
            }
            &&& last == if normal && id == PowerId::Flight {
                (n, d * 2)
            } else {
                (n, d)
            }
        }),
{
}


/// The player's attack on monster `target` for `base` damage.
pub open spec fn player_attacks(action: DynAction, target: usize, base: i32) -> bool {
    action matches DynAction::DamageAction(DamageAction { target: t, info }) && t == CreatureIndex::Monster(target)
        && info.base == base && info.owner == Some(CreatureIndex::Player) && info.damage_type == DamageType::Normal
}

/// The player's attack on every monster for `base` damage.
pub open spec fn player_attacks_all(action: DynAction, base: i32) -> bool {
    action matches DynAction::DamageAllEnemiesAction(DamageAllEnemiesAction { info }) && info.base == base
        && info.owner == Some(CreatureIndex::Player) && info.damage_type == DamageType::Normal
}

/// The player applying `amount` of a power to `target`.
pub open spec fn player_applies(target: CreatureIndex, power_id: PowerId, amount: i32) -> DynAction {
    DynAction::ApplyPowerAction(ApplyPowerAction { source: CreatureIndex::Player, target, power_id, amount })
}

/// The player gaining the block a card's `amount` gives after the player's powers.
pub open spec fn player_blocks(state: CombatState, amount: i32) -> DynAction {
    DynAction::GainBlockAction(
        GainBlockAction { creature_index: CreatureIndex::Player, amount: spec_player_block_amount(state, amount) },
    )
}

/// What playing each card queues, with the game's numbers (the upgraded number first):
/// Bash attacks its target for 8 (10) and then applies 2 (3) Vulnerable to it, Defend
/// blocks 5 (8), Thunderclap attacks every monster for 4 (7) and applies 1 Vulnerable to
/// each, and so on for every card; cards with no effect yet queue nothing.
pub proof fn lemma_card_effects(state: CombatState, card: SingleCard, target: usize)
    ensures
        ({
            let a = spec_card_actions(state, card, target);
            let u = card.upgrades > 0;
            let m = state.monsters@.len() as int;
            let heavy = 14 + spec_power_amount(state.player.creature.powers@, PowerId::Strength) * (if u {
                4int
            } else {
                2int
            });
            &&& (card.card_id == CardId::StrikeR ==> a.len() == 1 && (player_attacks(a[0], target, (if u { 9i32 } else { 6i32 }))))
            &&& (card.card_id == CardId::Bash ==> a.len() == 2 && (player_attacks(a[0], target, (if u { 10i32 } else { 8i32 }))) && (a[1] == player_applies(CreatureIndex::Monster(target), PowerId::Vulnerable, (if u { 3i32 } else { 2i32 }))))
            &&& (card.card_id == CardId::DefendR ==> a.len() == 1 && (a[0] == player_blocks(state, (if u { 8i32 } else { 5i32 }))))
            &&& (card.card_id == CardId::Clash ==> a.len() == 1 && (player_attacks(a[0], target, (if u { 18i32 } else { 14i32 }))))
            &&& (card.card_id == CardId::Cleave ==> a.len() == 1 && (player_attacks_all(a[0], (if u { 11i32 } else { 8i32 }))))
            &&& (card.card_id == CardId::Clothesline ==> a.len() == 2 && (player_attacks(a[0], target, (if u { 14i32 } else { 12i32 }))) && (a[1] == player_applies(CreatureIndex::Monster(target), PowerId::Weak, (if u { 3i32 } else { 2i32 }))))
            &&& (card.card_id == CardId::Flex ==> a.len() == 1 && (a[0] == player_applies(CreatureIndex::Player, PowerId::Strength, (if u { 4i32 } else { 2i32 }))))
            &&& (card.card_id == CardId::Havoc ==> a.len() == 0)
            &&& (card.card_id == CardId::Headbutt ==> a.len() == 1 && (player_attacks(a[0], target, (if u { 12i32 } else { 9i32 }))))
            &&& (card.card_id == CardId::IronWave ==> a.len() == 2 && (player_attacks(a[0], target, (if u { 7i32 } else { 5i32 }))) && (a[1] == player_blocks(state, (if u { 7i32 } else { 5i32 }))))
            &&& (card.card_id == CardId::PerfectedStrike ==> a.len() == 0)
            &&& (card.card_id == CardId::PommelStrike ==> a.len() == 2 && (player_attacks(a[0], target, (if u { 10i32 } else { 9i32 }))) && (a[1] == DynAction::DrawCards(DrawCards((if u { 2i32 } else { 1i32 })))))
            &&& (card.card_id == CardId::ShrugItOff ==> a.len() == 2 && (a[0] == player_blocks(state, (if u { 11i32 } else { 8i32 }))) && (a[1] == DynAction::DrawCards(DrawCards(1i32))))
            &&& (card.card_id == CardId::SwordBoomerang ==> a.len() == 0)
            &&& (card.card_id == CardId::Thunderclap ==> a.len() == 1 + m && (player_attacks_all(a[0], (if u { 7i32 } else { 4i32 }))) && (forall|j: int| 0 <= j < m ==> #[trigger] a[1 + j] == player_applies(CreatureIndex::Monster(j as usize), PowerId::Vulnerable, 1i32)))
            &&& (card.card_id == CardId::TrueGrit ==> a.len() == 1 && (a[0] == player_blocks(state, (if u { 9i32 } else { 7i32 }))))
            &&& (card.card_id == CardId::TwinStrike ==> a.len() == 2 && (player_attacks(a[0], target, (if u { 7i32 } else { 5i32 }))) && (player_attacks(a[1], target, (if u { 7i32 } else { 5i32 }))))
            &&& (card.card_id == CardId::Warcry ==> a.len() == 0)
            &&& (card.card_id == CardId::WildStrike ==> a.len() == 1 && (player_attacks(a[0], target, (if u { 17i32 } else { 12i32 }))))
            &&& (card.card_id == CardId::BattleTrance ==> a.len() == 2 && (a[0] == DynAction::DrawCards(DrawCards((if u { 4i32 } else { 3i32 })))) && (a[1] == player_applies(CreatureIndex::Player, PowerId::NoDraw, -1i32)))
            &&& (card.card_id == CardId::BloodForBlood ==> a.len() == 1 && (player_attacks(a[0], target, (if u { 22i32 } else { 18i32 }))))
            &&& (card.card_id == CardId::Bloodletting ==> a.len() == 0)
            &&& (card.card_id == CardId::BurningPact ==> a.len() == 0)
            &&& (card.card_id == CardId::Carnage ==> a.len() == 1 && (player_attacks(a[0], target, (if u { 28i32 } else { 20i32 }))))
            &&& (card.card_id == CardId::Combust ==> a.len() == 1 && (a[0] == player_applies(CreatureIndex::Player, PowerId::Combust, (if u { 7i32 } else { 5i32 }))))
            &&& (card.card_id == CardId::Corruption ==> a.len() == 1 && (a[0] == player_applies(CreatureIndex::Player, PowerId::Corruption, -1i32)))
            &&& (card.card_id == CardId::Disarm ==> a.len() == 1 && (a[0] == player_applies(CreatureIndex::Monster(target), PowerId::Strength, (if u { -3i32 } else { -2i32 }))))
            &&& (card.card_id == CardId::Dropkick ==> a.len() == 1 && (player_attacks(a[0], target, (if u { 8i32 } else { 5i32 }))))
            &&& (card.card_id == CardId::DualWield ==> a.len() == 0)
            &&& (card.card_id == CardId::Entrench ==> a.len() == 0)
            &&& (card.card_id == CardId::Evolve ==> a.len() == 1 && (a[0] == player_applies(CreatureIndex::Player, PowerId::Evolve, (if u { 2i32 } else { 1i32 }))))
            &&& (card.card_id == CardId::FeelNoPain ==> a.len() == 1 && (a[0] == player_applies(CreatureIndex::Player, PowerId::FeelNoPain, (if u { 4i32 } else { 3i32 }))))
            &&& (card.card_id == CardId::FireBreathing ==> a.len() == 1 && (a[0] == player_applies(CreatureIndex::Player, PowerId::FireBreathing, 1i32)))
            &&& (card.card_id == CardId::FlameBarrier ==> a.len() == 2 && (a[0] == player_blocks(state, (if u { 16i32 } else { 12i32 }))) && (a[1] == player_applies(CreatureIndex::Player, PowerId::FlameBarrier, (if u { 6i32 } else { 4i32 }))))
            &&& (card.card_id == CardId::GhostlyArmor ==> a.len() == 1 && (a[0] == player_blocks(state, (if u { 13i32 } else { 10i32 }))))
            &&& (card.card_id == CardId::Hemokinesis ==> a.len() == 1 && (player_attacks(a[0], target, (if u { 18i32 } else { 14i32 }))))
            &&& (card.card_id == CardId::InfernalBlade ==> a.len() == 0)
            &&& (card.card_id == CardId::Inflame ==> a.len() == 1 && (a[0] == player_applies(CreatureIndex::Player, PowerId::Strength, (if u { 3i32 } else { 2i32 }))))
            &&& (card.card_id == CardId::Intimidate ==> a.len() == 0 + m && (forall|j: int| 0 <= j < m ==> #[trigger] a[0 + j] == player_applies(CreatureIndex::Monster(j as usize), PowerId::Weak, (if u { 2i32 } else { 1i32 }))))
            &&& (card.card_id == CardId::Metallicize ==> a.len() == 1 && (a[0] == player_applies(CreatureIndex::Player, PowerId::Metallicize, (if u { 4i32 } else { 3i32 }))))
            &&& (card.card_id == CardId::PowerThrough ==> a.len() == 1 && (a[0] == player_blocks(state, (if u { 20i32 } else { 15i32 }))))
            &&& (card.card_id == CardId::Rage ==> a.len() == 1 && (a[0] == player_applies(CreatureIndex::Player, PowerId::Rage, (if u { 5i32 } else { 3i32 }))))
            &&& (card.card_id == CardId::Rampage ==> a.len() == 1 && (player_attacks(a[0], target, 8i32)))
            &&& (card.card_id == CardId::RecklessCharge ==> a.len() == 1 && (player_attacks(a[0], target, (if u { 10i32 } else { 7i32 }))))
            &&& (card.card_id == CardId::Rupture ==> a.len() == 0)
            &&& (card.card_id == CardId::SearingBlow ==> a.len() == 1 && (player_attacks(a[0], target, (if u { 16i32 } else { 12i32 }))))
            &&& (card.card_id == CardId::SecondWind ==> a.len() == 0)
            &&& (card.card_id == CardId::SeeingRed ==> a.len() == 0)
            &&& (card.card_id == CardId::SeverSoul ==> a.len() == 1 && (player_attacks(a[0], target, (if u { 20i32 } else { 16i32 }))))
            &&& (card.card_id == CardId::Sentinel ==> a.len() == 1 && (a[0] == player_blocks(state, (if u { 8i32 } else { 5i32 }))))
            &&& (card.card_id == CardId::SpotWeakness ==> a.len() == 0)
            &&& (card.card_id == CardId::Whirlwind ==> a.len() == 0)
            &&& (card.card_id == CardId::Barricade ==> a.len() == 1 && (a[0] == player_applies(CreatureIndex::Player, PowerId::Barricade, -1i32)))
            &&& (card.card_id == CardId::Berserk ==> a.len() == 2 && (a[0] == player_applies(CreatureIndex::Player, PowerId::Berserk, 1i32)) && (a[1] == player_applies(CreatureIndex::Player, PowerId::Vulnerable, (if u { 1i32 } else { 2i32 }))))
            &&& (card.card_id == CardId::Bludgeon ==> a.len() == 1 && (player_attacks(a[0], target, (if u { 42i32 } else { 32i32 }))))
            &&& (card.card_id == CardId::Brutality ==> a.len() == 1 && (a[0] == player_applies(CreatureIndex::Player, PowerId::Brutality, 1i32)))
            &&& (card.card_id == CardId::DarkEmbrace ==> a.len() == 1 && (a[0] == player_applies(CreatureIndex::Player, PowerId::DarkEmbrace, 1i32)))
            &&& (card.card_id == CardId::DemonForm ==> a.len() == 1 && (a[0] == player_applies(CreatureIndex::Player, PowerId::DemonForm, (if u { 3i32 } else { 2i32 }))))
            &&& (card.card_id == CardId::DoubleTap ==> a.len() == 1 && (a[0] == player_applies(CreatureIndex::Player, PowerId::DoubleTap, (if u { 2i32 } else { 1i32 }))))
            &&& (card.card_id == CardId::Impervious ==> a.len() == 1 && (a[0] == player_blocks(state, (if u { 40i32 } else { 30i32 }))))
            &&& (card.card_id == CardId::Juggernaut ==> a.len() == 1 && (a[0] == player_applies(CreatureIndex::Player, PowerId::Juggernaut, (if u { 7i32 } else { 5i32 }))))
            &&& (card.card_id == CardId::Anger ==> a.len() == 2 && player_attacks(a[0], target, (if u { 8i32 } else { 6i32 }))
                && a[1] == DynAction::DiscardNewCard(DiscardNewCard(card)))
            &&& (card.card_id == CardId::Armaments ==> a.len() == 2 && a[0] == player_blocks(state, 5i32) && a[1]
                == DynAction::ArmamentsAction(ArmamentsAction { upgraded: u }))
            &&& (card.card_id == CardId::BodySlam ==> a.len() == 1 && player_attacks(a[0], target, state.player.creature.block))
            &&& (card.card_id == CardId::HeavyBlade && i32::MIN <= heavy <= i32::MAX ==> a.len() == 1 && (a[0] matches DynAction::DamageAction(
                DamageAction { target: t, info },
            ) && t == CreatureIndex::Monster(target) && info.base == heavy && info.owner == Some(CreatureIndex::Player)))
            &&& (card.card_id == CardId::Pummel ==> a.len() == (if u { 5int } else { 4int }) && forall|k: int|
                0 <= k < a.len() ==> player_attacks(#[trigger] a[k], target, 2i32))
            &&& (card.card_id == CardId::Shockwave ==> a.len() == 2 * m && (forall|j: int|
                0 <= j < m ==> #[trigger] a[j] == player_applies(
                    CreatureIndex::Monster(j as usize),
                    PowerId::Weak,
                    (if u { 5i32 } else { 3i32 }),
                )) && (forall|j: int|
                0 <= j < m ==> #[trigger] a[m + j] == player_applies(
                    CreatureIndex::Monster(j as usize),
                    PowerId::Vulnerable,
                    (if u { 5i32 } else { 3i32 }),
                )))
            &&& (card.card_id == CardId::Uppercut ==> a.len() == 3 && player_attacks(a[0], target, 13i32) && a[1]
                == player_applies(CreatureIndex::Monster(target), PowerId::Weak, (if u { 2i32 } else { 1i32 }))
                && a[2] == player_applies(CreatureIndex::Monster(target), PowerId::Vulnerable, (if u { 2i32 } else { 1i32 })))
            &&& (card.card_id == CardId::Immolate ==> a.len() == 2 && player_attacks(a[0], target, (if u { 28i32 } else { 21i32 }))
                && a[1] == DynAction::DiscardNewCard(DiscardNewCard(SingleCard {
                    misc: 0,
                    cost: spec_card_info(CardId::Burn).normal_cost,
                    upgrades: 0,
                    card_id: CardId::Burn,
                })))
        }),
{
}

/// What the turn and round hooks of each power do, with the game's numbers: at the end
/// of its owner's turn Metallicize and Plated Armor give block equal to their amount (queued
/// at the back) and No Draw and Rage remove themselves; at the end of the round Ritual
/// (unless just applied) gives its owner Strength equal to its amount and Entangled
/// removes itself; at the start of the turn Flight restores its lost amount, Flame
/// Barrier removes itself and Berserk gives energy equal to its amount; after the draw
/// Demon Form gives Strength equal to its amount. Every other power does nothing then.
pub proof fn lemma_turn_hooks(owner: CreatureIndex, power: Power, hitpoints: i32)
    ensures
        ({
            let id = power.power_id;
            let x = power.amount;
            let nothing = (power, Seq::<DynAction>::empty(), Seq::<DynAction>::empty());
            let at_front = |a: DynAction| (power, seq![a], Seq::<DynAction>::empty());
            let at_back = |a: DynAction| (power, Seq::<DynAction>::empty(), seq![a]);
            let removal = DynAction::RemoveSpecificPowerAction(RemoveSpecificPowerAction { target: owner, power_id: id });
            let strength = DynAction::ApplyPowerAction(
                ApplyPowerAction { source: owner, target: owner, power_id: PowerId::Strength, amount: x },
            );
            let block = DynAction::GainBlockAction(GainBlockAction { creature_index: owner, amount: x });
            let end_turn = spec_hook_effect(owner, power, hitpoints, PowerHook::AtEndOfTurn);
            let end_round = spec_hook_effect(owner, power, hitpoints, PowerHook::AtEndOfRound);
            let start = spec_hook_effect(owner, power, hitpoints, PowerHook::AtStartOfTurn);
            let post_draw = spec_hook_effect(owner, power, hitpoints, PowerHook::AtStartOfTurnPostDraw);
            &&& end_turn == if id == PowerId::Metallicize || id == PowerId::PlatedArmor {
                at_back(block)
            } else if id == PowerId::NoDraw || id == PowerId::Rage {
                at_front(removal)
            } else {
                nothing
            }
            &&& (id == PowerId::Ritual && power.just_applied) ==> end_round == (
                Power { just_applied: false, ..power },
                Seq::<DynAction>::empty(),
                Seq::<DynAction>::empty(),
            )
            &&& (id == PowerId::Ritual && !power.just_applied) ==> end_round == at_back(strength)
            &&& id == PowerId::Entangled ==> end_round == at_front(removal)
            &&& (id != PowerId::Ritual && id != PowerId::Entangled && id != PowerId::Vulnerable && id
                != PowerId::Weak && id != PowerId::Frail) ==> end_round == nothing
            &&& (id == PowerId::Flight && 0 < power.misc - x <= i32::MAX) ==> start
                == at_front(
                DynAction::ApplyPowerAction(
                    ApplyPowerAction { source: owner, target: owner, power_id: PowerId::Flight, amount: (power.misc - x) as i32 },
                ),
            )
            &&& (id == PowerId::Flight && i32::MIN <= power.misc - x <= 0) ==> start == nothing
            &&& id == PowerId::Necronomicon ==> start == (
                Power { amount: -1i32, ..power },
                Seq::<DynAction>::empty(),
                Seq::<DynAction>::empty(),
            )
            &&& id == PowerId::FlameBarrier ==> start == at_front(removal)
            &&& id == PowerId::Berserk ==> start == at_back(DynAction::GainEnergyAction(GainEnergyAction(x)))
            &&& (id != PowerId::Flight && id != PowerId::Necronomicon && id != PowerId::FlameBarrier && id
                != PowerId::Berserk) ==> start == nothing
            &&& post_draw == if id == PowerId::DemonForm {
                at_back(strength)
            } else {
                nothing
            }
        }),
{
}

/// What powers do when a card is played, with the game's numbers: Enrage gives its owner
/// Strength equal to its amount on a skill; Sharp Hide hits the player with thorns damage
/// equal to its amount on an attack; Pen Nib removes itself on an attack; Rage gives block
/// equal to its amount on an attack; Ink Bottle counts each card and draws one card on
/// the tenth, starting over.
pub proof fn lemma_card_played_hooks(owner: CreatureIndex, power: Power, hitpoints: i32, card: SingleCard)
    ensures
        ({
            let id = power.power_id;
            let x = power.amount;
            let kind = spec_card_info(card.card_id).card_type;
            let nothing = (power, Seq::<DynAction>::empty(), Seq::<DynAction>::empty());
            let effect = spec_hook_effect(owner, power, hitpoints, PowerHook::OnUseCard(card));
            &&& id == PowerId::Enrage ==> effect == if kind == CardType::Skill {
                (
                    power,
                    seq![DynAction::ApplyPowerAction(ApplyPowerAction { source: owner, target: owner, power_id: PowerId::Strength, amount: x })],
                    Seq::<DynAction>::empty(),
                )
            } else {
                nothing
            }
            &&& id == PowerId::SharpHide ==> effect == if kind == CardType::Attack {
                (
                    power,
                    Seq::<DynAction>::empty(),
                    seq![
                        DynAction::DamageAction(
                            DamageAction {
                                target: CreatureIndex::Player,
                                info: DamageInfoAllPowers {
                                    damage_type: DamageType::Thorns,
                                    owner: Some(owner),
                                    base: x,
                                    output: x,
                                },
                            },
                        ),
                    ],
                )
            } else {
                nothing
            }
            &&& id == PowerId::PenNib ==> effect == if kind == CardType::Attack {
                (
                    power,
                    seq![DynAction::RemoveSpecificPowerAction(RemoveSpecificPowerAction { target: owner, power_id: id })],
                    Seq::<DynAction>::empty(),
                )
            } else {
                nothing
            }
            &&& id == PowerId::Rage ==> effect == if kind == CardType::Attack {
                (
                    power,
                    Seq::<DynAction>::empty(),
                    seq![DynAction::GainBlockAction(GainBlockAction { creature_index: owner, amount: x })],
                )
            } else {
                nothing
            }
            &&& (id == PowerId::InkBottle && 0 <= x <= 8) ==> effect == (
                Power { amount: (x + 1) as i32, ..power },
                Seq::<DynAction>::empty(),
                Seq::<DynAction>::empty(),
            )
            &&& (id == PowerId::InkBottle && x == 9) ==> effect == (
                Power { amount: 0, ..power },
                Seq::<DynAction>::empty(),
                seq![DynAction::DrawCards(DrawCards(1))],
            )
            &&& (id != PowerId::Enrage && id != PowerId::SharpHide && id != PowerId::PenNib && id
                != PowerId::Rage && id != PowerId::InkBottle) ==> effect == nothing
        }),
{
}

/// What powers do when their owner is hit, with the game's numbers, for a hit of normal
/// damage `damage` from `attacker` (not the owner): Thorns and Flame Barrier hit the
/// attacker back with thorns damage equal to their amount; Curl Up, while it has an
/// amount and the owner survives, gives that much block (at the back of the queue) and
/// removes itself; Angry gives Strength equal to its amount when the player dealt
/// damage; Mode Shift takes off the damage dealt; Flight and Plated Armor wear off by one
/// when damage was dealt. On death Spore Cloud gives the player Vulnerable equal to its
/// amount, and Artifact wears off by one when it blocks a debuff.
pub proof fn lemma_attacked_hooks(
    owner: CreatureIndex,
    power: Power,
    hitpoints: i32,
    attacker: CreatureIndex,
    base: i32,
    output: i32,
    damage: i32,
)
    requires
        attacker != owner,
    ensures
        ({
            let id = power.power_id;
            let x = power.amount;
            let info = DamageInfoAllPowers {
                damage_type: DamageType::Normal,
                owner: Some(attacker),
                base,
                output,
            };
            let nothing = (power, Seq::<DynAction>::empty(), Seq::<DynAction>::empty());
            let at_front = |a: DynAction| (power, seq![a], Seq::<DynAction>::empty());
            let wear_off = if x <= 0 {
                DynAction::RemoveSpecificPowerAction(RemoveSpecificPowerAction { target: owner, power_id: id })
            } else {
                DynAction::ReducePowerAction(ReducePowerAction { target: owner, power_id: id, amount: 1 })
            };
            let effect = spec_hook_effect(owner, power, hitpoints, PowerHook::OnAttacked(info, damage));
            &&& (id == PowerId::Thorns || id == PowerId::FlameBarrier) ==> effect == at_front(
                DynAction::DamageAction(
                    DamageAction {
                        target: attacker,
                        info: DamageInfoAllPowers { damage_type: DamageType::Thorns, owner: Some(owner), base: x, output: x },
                    },
                ),
            )
            &&& id == PowerId::CurlUp ==> effect == if x > 0 && damage < hitpoints {
                (
                    Power { amount: 0, ..power },
                    seq![DynAction::RemoveSpecificPowerAction(RemoveSpecificPowerAction { target: owner, power_id: id })],
                    seq![DynAction::GainBlockAction(GainBlockAction { creature_index: owner, amount: x })],
                )
            } else {
                nothing
            }
            &&& id == PowerId::Angry ==> effect == if attacker == CreatureIndex::Player && damage > 0 {
                at_front(
                    DynAction::ApplyPowerAction(ApplyPowerAction { source: owner, target: owner, power_id: PowerId::Strength, amount: x }),
                )
            } else {
                nothing
            }
            &&& id == PowerId::ModeShift ==> effect == if damage > 0 {
                at_front(DynAction::ReducePowerAction(ReducePowerAction { target: owner, power_id: id, amount: damage }))
            } else {
                nothing
            }
            &&& (id == PowerId::Flight || id == PowerId::PlatedArmor) ==> effect == if damage > 0 {
                at_front(wear_off)
            } else {
                nothing
            }
            &&& spec_hook_effect(owner, power, hitpoints, PowerHook::OnDeath) == if id == PowerId::SporeCloud {
                at_front(
                    DynAction::ApplyPowerAction(
                        ApplyPowerAction { source: owner, target: CreatureIndex::Player, power_id: PowerId::Vulnerable, amount: x },
                    ),
                )
            } else {
                nothing
            }
            &&& spec_hook_effect(owner, power, hitpoints, PowerHook::OnSpecificTrigger) == if id == PowerId::Artifact {
                at_front(wear_off)
            } else {
                nothing
            }
        }),
{
}

/// The game's table of cards: each card's type, rarity, cost (normal and upgraded),
/// whether it is ethereal, takes a target, or exhausts.
pub proof fn lemma_card_table()
    ensures
        ({
            &&& spec_card_info(CardId::StrikeR) == (CardInfo { id: CardId::StrikeR, card_type: CardType::Attack, rarity: Rarity::Basic, normal_cost: 1i32, upgraded_cost: 1i32, ethereal: false, has_target: true, exhausts: false })
            &&& spec_card_info(CardId::Bash) == (CardInfo { id: CardId::Bash, card_type: CardType::Attack, rarity: Rarity::Basic, normal_cost: 2i32, upgraded_cost: 2i32, ethereal: false, has_target: true, exhausts: false })
            &&& spec_card_info(CardId::DefendR) == (CardInfo { id: CardId::DefendR, card_type: CardType::Skill, rarity: Rarity::Basic, normal_cost: 1i32, upgraded_cost: 1i32, ethereal: false, has_target: false, exhausts: false })
            &&& spec_card_info(CardId::Anger) == (CardInfo { id: CardId::Anger, card_type: CardType::Attack, rarity: Rarity::Common, normal_cost: 0i32, upgraded_cost: 0i32, ethereal: false, has_target: true, exhausts: false })
            &&& spec_card_info(CardId::Armaments) == (CardInfo { id: CardId::Armaments, card_type: CardType::Skill, rarity: Rarity::Common, normal_cost: 1i32, upgraded_cost: 1i32, ethereal: false, has_target: false, exhausts: false })
            &&& spec_card_info(CardId::BodySlam) == (CardInfo { id: CardId::BodySlam, card_type: CardType::Attack, rarity: Rarity::Common, normal_cost: 1i32, upgraded_cost: 0i32, ethereal: false, has_target: true, exhausts: false })
            &&& spec_card_info(CardId::Clash) == (CardInfo { id: CardId::Clash, card_type: CardType::Attack, rarity: Rarity::Common, normal_cost: 0i32, upgraded_cost: 0i32, ethereal: false, has_target: true, exhausts: false })
            &&& spec_card_info(CardId::Cleave) == (CardInfo { id: CardId::Cleave, card_type: CardType::Attack, rarity: Rarity::Common, normal_cost: 1i32, upgraded_cost: 1i32, ethereal: false, has_target: false, exhausts: false })
            &&& spec_card_info(CardId::Clothesline) == (CardInfo { id: CardId::Clothesline, card_type: CardType::Attack, rarity: Rarity::Common, normal_cost: 2i32, upgraded_cost: 2i32, ethereal: false, has_target: true, exhausts: false })
            &&& spec_card_info(CardId::Flex) == (CardInfo { id: CardId::Flex, card_type: CardType::Skill, rarity: Rarity::Common, normal_cost: 0i32, upgraded_cost: 0i32, ethereal: false, has_target: false, exhausts: false })
            &&& spec_card_info(CardId::Havoc) == (CardInfo { id: CardId::Havoc, card_type: CardType::Skill, rarity: Rarity::Common, normal_cost: 1i32, upgraded_cost: 0i32, ethereal: false, has_target: false, exhausts: false })
            &&& spec_card_info(CardId::Headbutt) == (CardInfo { id: CardId::Headbutt, card_type: CardType::Attack, rarity: Rarity::Common, normal_cost: 1i32, upgraded_cost: 1i32, ethereal: false, has_target: true, exhausts: false })
            &&& spec_card_info(CardId::HeavyBlade) == (CardInfo { id: CardId::HeavyBlade, card_type: CardType::Attack, rarity: Rarity::Common, normal_cost: 2i32, upgraded_cost: 2i32, ethereal: false, has_target: true, exhausts: false })
            &&& spec_card_info(CardId::IronWave) == (CardInfo { id: CardId::IronWave, card_type: CardType::Attack, rarity: Rarity::Common, normal_cost: 1i32, upgraded_cost: 1i32, ethereal: false, has_target: true, exhausts: false })
            &&& spec_card_info(CardId::PerfectedStrike) == (CardInfo { id: CardId::PerfectedStrike, card_type: CardType::Attack, rarity: Rarity::Common, normal_cost: 2i32, upgraded_cost: 2i32, ethereal: false, has_target: true, exhausts: false })
            &&& spec_card_info(CardId::PommelStrike) == (CardInfo { id: CardId::PommelStrike, card_type: CardType::Attack, rarity: Rarity::Common, normal_cost: 1i32, upgraded_cost: 1i32, ethereal: false, has_target: true, exhausts: false })
            &&& spec_card_info(CardId::ShrugItOff) == (CardInfo { id: CardId::ShrugItOff, card_type: CardType::Skill, rarity: Rarity::Common, normal_cost: 1i32, upgraded_cost: 1i32, ethereal: false, has_target: false, exhausts: false })
            &&& spec_card_info(CardId::SwordBoomerang) == (CardInfo { id: CardId::SwordBoomerang, card_type: CardType::Attack, rarity: Rarity::Common, normal_cost: 1i32, upgraded_cost: 1i32, ethereal: false, has_target: false, exhausts: false })
            &&& spec_card_info(CardId::Thunderclap) == (CardInfo { id: CardId::Thunderclap, card_type: CardType::Attack, rarity: Rarity::Common, normal_cost: 1i32, upgraded_cost: 1i32, ethereal: false, has_target: false, exhausts: false })
            &&& spec_card_info(CardId::TrueGrit) == (CardInfo { id: CardId::TrueGrit, card_type: CardType::Skill, rarity: Rarity::Common, normal_cost: 1i32, upgraded_cost: 1i32, ethereal: false, has_target: false, exhausts: false })
            &&& spec_card_info(CardId::TwinStrike) == (CardInfo { id: CardId::TwinStrike, card_type: CardType::Attack, rarity: Rarity::Common, normal_cost: 1i32, upgraded_cost: 1i32, ethereal: false, has_target: true, exhausts: false })
            &&& spec_card_info(CardId::Warcry) == (CardInfo { id: CardId::Warcry, card_type: CardType::Skill, rarity: Rarity::Common, normal_cost: 0i32, upgraded_cost: 0i32, ethereal: false, has_target: false, exhausts: false })
            &&& spec_card_info(CardId::WildStrike) == (CardInfo { id: CardId::WildStrike, card_type: CardType::Attack, rarity: Rarity::Common, normal_cost: 1i32, upgraded_cost: 1i32, ethereal: false, has_target: true, exhausts: false })
            &&& spec_card_info(CardId::BattleTrance) == (CardInfo { id: CardId::BattleTrance, card_type: CardType::Skill, rarity: Rarity::Uncommon, normal_cost: 0i32, upgraded_cost: 0i32, ethereal: false, has_target: false, exhausts: false })
            &&& spec_card_info(CardId::BloodForBlood) == (CardInfo { id: CardId::BloodForBlood, card_type: CardType::Attack, rarity: Rarity::Uncommon, normal_cost: 4i32, upgraded_cost: 3i32, ethereal: false, has_target: true, exhausts: false })
            &&& spec_card_info(CardId::Bloodletting) == (CardInfo { id: CardId::Bloodletting, card_type: CardType::Skill, rarity: Rarity::Uncommon, normal_cost: 0i32, upgraded_cost: 0i32, ethereal: false, has_target: false, exhausts: false })
            &&& spec_card_info(CardId::BurningPact) == (CardInfo { id: CardId::BurningPact, card_type: CardType::Skill, rarity: Rarity::Uncommon, normal_cost: 1i32, upgraded_cost: 1i32, ethereal: false, has_target: false, exhausts: false })
            &&& spec_card_info(CardId::Carnage) == (CardInfo { id: CardId::Carnage, card_type: CardType::Attack, rarity: Rarity::Uncommon, normal_cost: 2i32, upgraded_cost: 2i32, ethereal: true, has_target: true, exhausts: false })
            &&& spec_card_info(CardId::Combust) == (CardInfo { id: CardId::Combust, card_type: CardType::Power, rarity: Rarity::Uncommon, normal_cost: 1i32, upgraded_cost: 1i32, ethereal: false, has_target: false, exhausts: false })
            &&& spec_card_info(CardId::Corruption) == (CardInfo { id: CardId::Corruption, card_type: CardType::Power, rarity: Rarity::Uncommon, normal_cost: 3i32, upgraded_cost: 2i32, ethereal: false, has_target: false, exhausts: false })
            &&& spec_card_info(CardId::Disarm) == (CardInfo { id: CardId::Disarm, card_type: CardType::Skill, rarity: Rarity::Uncommon, normal_cost: 1i32, upgraded_cost: 1i32, ethereal: false, has_target: true, exhausts: true })
            &&& spec_card_info(CardId::Dropkick) == (CardInfo { id: CardId::Dropkick, card_type: CardType::Attack, rarity: Rarity::Uncommon, normal_cost: 1i32, upgraded_cost: 1i32, ethereal: false, has_target: true, exhausts: false })
            &&& spec_card_info(CardId::DualWield) == (CardInfo { id: CardId::DualWield, card_type: CardType::Skill, rarity: Rarity::Uncommon, normal_cost: 1i32, upgraded_cost: 1i32, ethereal: false, has_target: false, exhausts: false })
            &&& spec_card_info(CardId::Entrench) == (CardInfo { id: CardId::Entrench, card_type: CardType::Skill, rarity: Rarity::Uncommon, normal_cost: 2i32, upgraded_cost: 1i32, ethereal: false, has_target: false, exhausts: false })
            &&& spec_card_info(CardId::Evolve) == (CardInfo { id: CardId::Evolve, card_type: CardType::Power, rarity: Rarity::Uncommon, normal_cost: 1i32, upgraded_cost: 1i32, ethereal: false, has_target: false, exhausts: false })
            &&& spec_card_info(CardId::FeelNoPain) == (CardInfo { id: CardId::FeelNoPain, card_type: CardType::Power, rarity: Rarity::Uncommon, normal_cost: 1i32, upgraded_cost: 1i32, ethereal: false, has_target: false, exhausts: false })
            &&& spec_card_info(CardId::FireBreathing) == (CardInfo { id: CardId::FireBreathing, card_type: CardType::Power, rarity: Rarity::Uncommon, normal_cost: 1i32, upgraded_cost: 0i32, ethereal: false, has_target: false, exhausts: false })
            &&& spec_card_info(CardId::FlameBarrier) == (CardInfo { id: CardId::FlameBarrier, card_type: CardType::Skill, rarity: Rarity::Uncommon, normal_cost: 2i32, upgraded_cost: 2i32, ethereal: false, has_target: false, exhausts: false })
            &&& spec_card_info(CardId::GhostlyArmor) == (CardInfo { id: CardId::GhostlyArmor, card_type: CardType::Skill, rarity: Rarity::Uncommon, normal_cost: 1i32, upgraded_cost: 1i32, ethereal: true, has_target: false, exhausts: false })
            &&& spec_card_info(CardId::Hemokinesis) == (CardInfo { id: CardId::Hemokinesis, card_type: CardType::Attack, rarity: Rarity::Uncommon, normal_cost: 1i32, upgraded_cost: 1i32, ethereal: false, has_target: true, exhausts: false })
            &&& spec_card_info(CardId::InfernalBlade) == (CardInfo { id: CardId::InfernalBlade, card_type: CardType::Skill, rarity: Rarity::Uncommon, normal_cost: 1i32, upgraded_cost: 1i32, ethereal: false, has_target: false, exhausts: false })
            &&& spec_card_info(CardId::Inflame) == (CardInfo { id: CardId::Inflame, card_type: CardType::Power, rarity: Rarity::Uncommon, normal_cost: 1i32, upgraded_cost: 1i32, ethereal: false, has_target: false, exhausts: false })
            &&& spec_card_info(CardId::Intimidate) == (CardInfo { id: CardId::Intimidate, card_type: CardType::Skill, rarity: Rarity::Uncommon, normal_cost: 0i32, upgraded_cost: 0i32, ethereal: false, has_target: false, exhausts: true })
            &&& spec_card_info(CardId::Metallicize) == (CardInfo { id: CardId::Metallicize, card_type: CardType::Power, rarity: Rarity::Uncommon, normal_cost: 1i32, upgraded_cost: 1i32, ethereal: false, has_target: false, exhausts: false })
            &&& spec_card_info(CardId::PowerThrough) == (CardInfo { id: CardId::PowerThrough, card_type: CardType::Skill, rarity: Rarity::Uncommon, normal_cost: 1i32, upgraded_cost: 1i32, ethereal: false, has_target: false, exhausts: false })
            &&& spec_card_info(CardId::Pummel) == (CardInfo { id: CardId::Pummel, card_type: CardType::Attack, rarity: Rarity::Uncommon, normal_cost: 1i32, upgraded_cost: 1i32, ethereal: false, has_target: true, exhausts: true })
            &&& spec_card_info(CardId::Rage) == (CardInfo { id: CardId::Rage, card_type: CardType::Skill, rarity: Rarity::Uncommon, normal_cost: 0i32, upgraded_cost: 0i32, ethereal: false, has_target: false, exhausts: false })
            &&& spec_card_info(CardId::Rampage) == (CardInfo { id: CardId::Rampage, card_type: CardType::Attack, rarity: Rarity::Uncommon, normal_cost: 1i32, upgraded_cost: 1i32, ethereal: false, has_target: true, exhausts: false })
            &&& spec_card_info(CardId::RecklessCharge) == (CardInfo { id: CardId::RecklessCharge, card_type: CardType::Attack, rarity: Rarity::Uncommon, normal_cost: 0i32, upgraded_cost: 0i32, ethereal: false, has_target: true, exhausts: false })
            &&& spec_card_info(CardId::Rupture) == (CardInfo { id: CardId::Rupture, card_type: CardType::Power, rarity: Rarity::Uncommon, normal_cost: 1i32, upgraded_cost: 0i32, ethereal: false, has_target: false, exhausts: false })
            &&& spec_card_info(CardId::SearingBlow) == (CardInfo { id: CardId::SearingBlow, card_type: CardType::Attack, rarity: Rarity::Uncommon, normal_cost: 2i32, upgraded_cost: 2i32, ethereal: false, has_target: true, exhausts: false })
            &&& spec_card_info(CardId::SecondWind) == (CardInfo { id: CardId::SecondWind, card_type: CardType::Skill, rarity: Rarity::Uncommon, normal_cost: 1i32, upgraded_cost: 1i32, ethereal: false, has_target: false, exhausts: false })
            &&& spec_card_info(CardId::SeeingRed) == (CardInfo { id: CardId::SeeingRed, card_type: CardType::Skill, rarity: Rarity::Uncommon, normal_cost: 1i32, upgraded_cost: 1i32, ethereal: false, has_target: false, exhausts: true })
            &&& spec_card_info(CardId::Sentinel) == (CardInfo { id: CardId::Sentinel, card_type: CardType::Skill, rarity: Rarity::Uncommon, normal_cost: 1i32, upgraded_cost: 1i32, ethereal: false, has_target: false, exhausts: false })
            &&& spec_card_info(CardId::SeverSoul) == (CardInfo { id: CardId::SeverSoul, card_type: CardType::Attack, rarity: Rarity::Uncommon, normal_cost: 2i32, upgraded_cost: 2i32, ethereal: false, has_target: true, exhausts: false })
            &&& spec_card_info(CardId::Shockwave) == (CardInfo { id: CardId::Shockwave, card_type: CardType::Skill, rarity: Rarity::Uncommon, normal_cost: 2i32, upgraded_cost: 2i32, ethereal: false, has_target: false, exhausts: false })
            &&& spec_card_info(CardId::SpotWeakness) == (CardInfo { id: CardId::SpotWeakness, card_type: CardType::Skill, rarity: Rarity::Uncommon, normal_cost: 1i32, upgraded_cost: 1i32, ethereal: false, has_target: true, exhausts: false })
            &&& spec_card_info(CardId::Uppercut) == (CardInfo { id: CardId::Uppercut, card_type: CardType::Attack, rarity: Rarity::Uncommon, normal_cost: 2i32, upgraded_cost: 2i32, ethereal: false, has_target: true, exhausts: false })
            &&& spec_card_info(CardId::Whirlwind) == (CardInfo { id: CardId::Whirlwind, card_type: CardType::Attack, rarity: Rarity::Uncommon, normal_cost: X_COST, upgraded_cost: X_COST, ethereal: false, has_target: true, exhausts: false })
            &&& spec_card_info(CardId::Barricade) == (CardInfo { id: CardId::Barricade, card_type: CardType::Power, rarity: Rarity::Rare, normal_cost: 3i32, upgraded_cost: 2i32, ethereal: false, has_target: false, exhausts: false })
            &&& spec_card_info(CardId::Berserk) == (CardInfo { id: CardId::Berserk, card_type: CardType::Power, rarity: Rarity::Rare, normal_cost: 0i32, upgraded_cost: 0i32, ethereal: false, has_target: false, exhausts: false })
            &&& spec_card_info(CardId::Bludgeon) == (CardInfo { id: CardId::Bludgeon, card_type: CardType::Attack, rarity: Rarity::Rare, normal_cost: 3i32, upgraded_cost: 3i32, ethereal: false, has_target: true, exhausts: false })
            &&& spec_card_info(CardId::Brutality) == (CardInfo { id: CardId::Brutality, card_type: CardType::Power, rarity: Rarity::Rare, normal_cost: 0i32, upgraded_cost: 0i32, ethereal: false, has_target: false, exhausts: false })
            &&& spec_card_info(CardId::DarkEmbrace) == (CardInfo { id: CardId::DarkEmbrace, card_type: CardType::Power, rarity: Rarity::Rare, normal_cost: 2i32, upgraded_cost: 1i32, ethereal: false, has_target: false, exhausts: false })
            &&& spec_card_info(CardId::DemonForm) == (CardInfo { id: CardId::DemonForm, card_type: CardType::Power, rarity: Rarity::Rare, normal_cost: 3i32, upgraded_cost: 3i32, ethereal: false, has_target: false, exhausts: false })
            &&& spec_card_info(CardId::DoubleTap) == (CardInfo { id: CardId::DoubleTap, card_type: CardType::Skill, rarity: Rarity::Rare, normal_cost: 1i32, upgraded_cost: 1i32, ethereal: false, has_target: false, exhausts: false })
            &&& spec_card_info(CardId::Immolate) == (CardInfo { id: CardId::Immolate, card_type: CardType::Attack, rarity: Rarity::Rare, normal_cost: 2i32, upgraded_cost: 2i32, ethereal: false, has_target: false, exhausts: false })
            &&& spec_card_info(CardId::Impervious) == (CardInfo { id: CardId::Impervious, card_type: CardType::Skill, rarity: Rarity::Rare, normal_cost: 2i32, upgraded_cost: 2i32, ethereal: false, has_target: false, exhausts: true })
            &&& spec_card_info(CardId::Juggernaut) == (CardInfo { id: CardId::Juggernaut, card_type: CardType::Power, rarity: Rarity::Rare, normal_cost: 2i32, upgraded_cost: 2i32, ethereal: false, has_target: false, exhausts: false })
            &&& spec_card_info(CardId::Injury) == (CardInfo { id: CardId::Injury, card_type: CardType::Curse, rarity: Rarity::Special, normal_cost: UNPLAYABLE, upgraded_cost: UNPLAYABLE, ethereal: false, has_target: false, exhausts: false })
            &&& spec_card_info(CardId::AscendersBane) == (CardInfo { id: CardId::AscendersBane, card_type: CardType::Curse, rarity: Rarity::Special, normal_cost: UNPLAYABLE, upgraded_cost: UNPLAYABLE, ethereal: true, has_target: false, exhausts: false })
            &&& spec_card_info(CardId::Dazed) == (CardInfo { id: CardId::Dazed, card_type: CardType::Status, rarity: Rarity::Special, normal_cost: UNPLAYABLE, upgraded_cost: UNPLAYABLE, ethereal: true, has_target: false, exhausts: false })
            &&& spec_card_info(CardId::Slimed) == (CardInfo { id: CardId::Slimed, card_type: CardType::Status, rarity: Rarity::Special, normal_cost: 1i32, upgraded_cost: 1i32, ethereal: false, has_target: false, exhausts: true })
            &&& spec_card_info(CardId::Burn) == (CardInfo { id: CardId::Burn, card_type: CardType::Status, rarity: Rarity::Special, normal_cost: UNPLAYABLE, upgraded_cost: UNPLAYABLE, ethereal: false, has_target: false, exhausts: false })
        }),
{
}

/// Which cards can be played: none that costs more energy than the player has, no
/// unplayable card (cost -2 or lower), no attack while the player is Entangled, and a
/// Clash only when every card in hand is an attack; every other card costing from -1
/// (X) up to the player's energy can.
pub proof fn lemma_card_playability(state: CombatState, card: SingleCard)
    ensures
        card.cost > state.player.energy ==> !spec_card_playable(state, card),
        card.cost <= -2 ==> !spec_card_playable(state, card),
        (spec_card_info(card.card_id).card_type == CardType::Attack && spec_has_power(
            state.player.creature.powers@,
            PowerId::Entangled,
        )) ==> !spec_card_playable(state, card),
        (card.card_id == CardId::Clash && exists|i: int|
            0 <= i < state.hand@.len() && spec_card_info(#[trigger] state.hand@[i].card_id).card_type
                != CardType::Attack) ==> !spec_card_playable(state, card),
        (-1 <= card.cost <= state.player.energy && card.card_id != CardId::Clash && !(spec_card_info(
            card.card_id,
        ).card_type == CardType::Attack && spec_has_power(
            state.player.creature.powers@,
            PowerId::Entangled,
        ))) ==> spec_card_playable(state, card),
{
}

/// Playing a card from the hand pays its cost out of the player's energy (3 energy and a
/// 1-cost card leave 2), takes exactly that one copy out of the hand and puts it in play,
/// leaves the player's hitpoints, block and powers and every monster as they were, and
/// keeps the actions already queued ahead of the card's own.
pub proof fn lemma_playing_pays_cost(pre: CombatState, post: CombatState, card: SingleCard, target: usize)
    requires
        spec_card_played(pre, post, card, target),
        holds_card(pre.hand@, card),
        i32::MIN <= pre.player.energy - card.cost <= i32::MAX,
    ensures
        post.player.energy == pre.player.energy - card.cost,
        post.hand@.len() == pre.hand@.len() - 1,
        post.hand@.to_multiset() == pre.hand@.to_multiset().remove(card),
        post.card_in_play == Some(card),
        post.player.creature == pre.player.creature,
        post.monsters@ == pre.monsters@,
        post.actions@.subrange(0, pre.actions@.len() as int) == pre.actions@,
{
    lemma_first_copy(pre.hand@, card, pre.hand@.len() as int);
    let k = card_position(pre.hand@, card);
    vstd::seq_lib::to_multiset_remove(pre.hand@, k);
    assert(post.actions@.subrange(0, pre.actions@.len() as int) =~= pre.actions@);
}

/// A sequence that holds a card among its first `n` places has a first place holding it.
proof fn lemma_first_copy(cards: Seq<SingleCard>, card: SingleCard, n: int)
    requires
        0 <= n <= cards.len(),
        exists|k: int| 0 <= k < n && cards[k] == card,
    ensures
        exists|k: int|
            0 <= k < cards.len() && cards[k] == card && forall|j: int| 0 <= j < k ==> cards[j] != card,
    decreases n,
{
    if exists|k: int| 0 <= k < n - 1 && cards[k] == card {
        lemma_first_copy(cards, card, n - 1);
    } else {
        assert(cards[n - 1] == card);
        assert(forall|j: int| 0 <= j < n - 1 ==> cards[j] != card);
    }
}

/// Merging outcomes none of whose values occur earlier just lists them after the others.
proof fn lemma_merge_all_fresh(entries: Seq<(u64, i32)>, other: Seq<(u64, i32)>)
    requires
        unique_values(entries + other),
    ensures
        merge_all(entries, other) == entries + other,
    decreases other.len(),
{
    if other.len() > 0 {
        let rest = other.drop_last();
        let m = entries + rest;
        let all = entries + other;
        assert(m =~= all.drop_last());
        assert(unique_values(m)) by {
            assert forall|i: int, j: int| 0 <= i < j < m.len() implies #[trigger] m[i].1 != #[trigger] m[j].1 by {
                assert(m[i] == all[i] && m[j] == all[j]);
            }
        }
        lemma_merge_all_fresh(entries, rest);
        let last = other.last();
        assert(all[all.len() - 1] == last);
        assert(!has_value(m, last.1)) by {
            if has_value(m, last.1) {
                let i = choose|i: int| 0 <= i < m.len() && #[trigger] m[i].1 == last.1;
                assert(all[i].1 != all[all.len() - 1].1);
            }
        }
        assert(m.push(last) =~= all);
    }
}

/// One outcome, given the whole weight and scaled to `n` of 100 rolls.
proof fn lemma_scaled_single(v: i32, n: u64)
    requires
        n <= 100,
    ensures
        scale_entries(spec_single(v), n, 100) == seq![((WEIGHT_ONE * n / 100) as u64, v)],
{
    assert(scale_entries(spec_single(v), n, 100) =~= seq![((WEIGHT_ONE * n / 100) as u64, v)]);
}

/// `a` with probability `p`, else `b`, for two different outcomes.
proof fn lemma_split_entries(p: u64, a: i32, b: i32)
    requires
        p <= WEIGHT_ONE,
        a != b,
    ensures
        spec_split(p, a, b) == seq![(p, a), ((WEIGHT_ONE - p) as u64, b)],
{
    let q = (WEIGHT_ONE - p) as u64;
    assert(WEIGHT_ONE * p / (WEIGHT_ONE as int) == p) by (nonlinear_arith)
        requires
            WEIGHT_ONE == 1_000_000,
    ;
    assert(WEIGHT_ONE * q / (WEIGHT_ONE as int) == q) by (nonlinear_arith)
        requires
            WEIGHT_ONE == 1_000_000,
    ;
    let sa = scale_entries(spec_single(a), p, WEIGHT_ONE);
    let sb = scale_entries(spec_single(b), q, WEIGHT_ONE);
    assert(sa =~= seq![(p, a)]);
    assert(sb =~= seq![(q, b)]);
    assert(unique_values(sa + sb)) by {
        assert(sa + sb =~= seq![(p, a), (q, b)]);
    }
    lemma_merge_all_fresh(sa, sb);
    assert(sa + sb =~= seq![(p, a), (q, b)]);
}

/// A single band covering every roll gives its own distribution.
proof fn lemma_one_band(d: Seq<(u64, i32)>)
    requires
        unique_values(d),
        forall|i: int| 0 <= i < d.len() ==> #[trigger] d[i].0 <= WEIGHT_ONE,
    ensures
        spec_final_distribution(push_band(seq![], 100, d)) == Some(d),
{
    let bands = push_band(seq![], 100, d);
    assert(bands =~= seq![(100i32, d)]);
    let scaled = scale_entries(d, 100, 100);
    assert(scaled =~= d) by {
        assert forall|i: int| 0 <= i < d.len() implies #[trigger] scaled[i] == d[i] by {
            let w = d[i].0;
            assert(w * 100u64 / 100int == w) by (nonlinear_arith);
        }
    }
    let empty: Seq<(u64, i32)> = seq![];
    assert(combine_bands(bands, 0) == empty);
    assert(empty + scaled =~= d);
    lemma_merge_all_fresh(empty, scaled);
    assert(combine_bands(bands, 1) == merge_all(combine_bands(bands, 0), scale_entries(bands[0].1, (bands[0].0 - band_start(bands, 0)) as u64, 100)));
}

/// A Byrd's next intent, with the game's odds in millionths: on its first move it caws
/// (0.375) or pecks (0.625); grounded, it headbutts, or flies right after a headbutt;
/// flying, unless its last move was a swoop, a caw or a second peck in a row, it pecks
/// (0.5), swoops (0.2) or caws (0.3). Intents are numbered Caw 0, Peck 1, Swoop 2, Fly 3, Headbutt 4.
pub proof fn lemma_byrd_next_intents(state: CombatState, i: int)
    requires
        0 <= i < state.monsters@.len(),
        state.monsters@[i].monster_id == MonsterId::Byrd,
    ensures
        ({
            let m = state.monsters@[i];
            let h = m.move_history@;
            let flying = spec_has_power(m.creature.powers@, PowerId::Flight);
            let next = spec_intent_choice_distribution(state, i);
            &&& h.len() == 0 ==> next == Some(seq![(375000u64, 0i32), (625000u64, 1i32)])
            &&& (h.len() > 0 && !flying && h.last() == 4) ==> next == Some(seq![(1000000u64, 3i32)])
            &&& (h.len() > 0 && !flying && h.last() != 4) ==> next == Some(seq![(1000000u64, 4i32)])
            &&& (h.len() > 0 && flying && h.last() != 0 && h.last() != 2 && !(h.len() >= 2 && h.last() == 1
                && h[h.len() - 2] == 1)) ==> next
                == Some(seq![(500000u64, 1i32), (200000u64, 2i32), (300000u64, 0i32)])
        }),
{
    let m = state.monsters@[i];
    let h = m.move_history@;
    let no_bands: Seq<(i32, Seq<(u64, i32)>)> = seq![];
    if h.len() == 0 {
        lemma_split_entries(375000, 0, 1);
        lemma_one_band(seq![(375000u64, 0i32), (625000u64, 1i32)]);
    } else if !spec_has_power(m.creature.powers@, PowerId::Flight) {
        let v: i32 = if h.last() == 4 { 3 } else { 4 };
        assert(spec_did_repeats(h, 1, 4) == (h.last() == 4)) by {
            if h.last() == 4 {
                assert(forall|k: int| h.len() - 1 <= k < h.len() ==> #[trigger] h[k] == 4);
            } else {
                assert(h[h.len() - 1] != 4);
            }
        }
        assert(spec_with_max_repeats(h, 1, 4, spec_single(3)) == spec_single(v));
        lemma_one_band(spec_single(v));
    } else if h.last() != 0 && h.last() != 2 && !(h.len() >= 2 && h.last() == 1 && h[h.len() - 2] == 1) {
        assert(!spec_did_repeats(h, 2, 1)) by {
            if h.len() >= 2 {
                assert(h[h.len() - 1] != 1 || h[h.len() - 2] != 1);
            }
        }
        assert(!spec_did_repeats(h, 1, 2)) by {
            assert(h[h.len() - 1] != 2);
        }
        assert(!spec_did_repeats(h, 1, 0)) by {
            assert(h[h.len() - 1] != 0);
        }
        let b1 = push_band(no_bands, 50, spec_single(1));
        let b2 = push_band(b1, 70, spec_single(2));
        let b3 = push_band(b2, 100, spec_single(0));
        assert(spec_byrd_bands(m) == b3);
        assert(b3 =~= seq![(50i32, spec_single(1)), (70i32, spec_single(2)), (100i32, spec_single(0))]);
        lemma_scaled_single(1, 50);
        lemma_scaled_single(2, 20);
        lemma_scaled_single(0, 30);
        let s1: Seq<(u64, i32)> = seq![(500000u64, 1i32)];
        let s2: Seq<(u64, i32)> = seq![(200000u64, 2i32)];
        let s3: Seq<(u64, i32)> = seq![(300000u64, 0i32)];
        let empty: Seq<(u64, i32)> = seq![];
        assert(combine_bands(b3, 0) == empty);
        assert(band_start(b3, 0) == 0 && band_start(b3, 1) == 50 && band_start(b3, 2) == 70);
        assert(combine_bands(b3, 1) == merge_all(empty, s1));
        assert(empty + s1 =~= s1);
        lemma_merge_all_fresh(empty, s1);
        assert(combine_bands(b3, 2) == merge_all(s1, s2));
        assert(s1 + s2 =~= seq![(500000u64, 1i32), (200000u64, 2i32)]);
        lemma_merge_all_fresh(s1, s2);
        let c2 = s1 + s2;
        assert(combine_bands(b3, 3) == merge_all(c2, s3));
        assert(c2 + s3 =~= seq![(500000u64, 1i32), (200000u64, 2i32), (300000u64, 0i32)]);
        lemma_merge_all_fresh(c2, s3);
    }
}

/// Taking `amount` off a creature's power (other than Strength and Dexterity) leaves
/// the rest when the power has more (Vulnerable 2 less 1 is Vulnerable 1), touching
/// nothing else of the creature; when the power has no more than `amount`, the
/// creature is left as it was and the power's removal goes to the front of the queue.
pub proof fn lemma_reducing_a_power(
    pre: CombatState,
    post: CombatState,
    target: CreatureIndex,
    id: PowerId,
    amount: i32,
    k: int,
)
    requires
        spec_power_reduced(pre, post, target, id, amount),
        unique_power_ids(pre.creature(target).powers@),
        0 <= k < pre.creature(target).powers@.len(),
        pre.creature(target).powers@[k].power_id == id,
        id != PowerId::Strength,
        id != PowerId::Dexterity,
        amount >= 0,
    ensures
        ({
            let before = pre.creature(target).powers@;
            let after = post.creature(target).powers@;
            &&& amount < before[k].amount ==> {
                &&& after == before.update(k, Power { amount: (before[k].amount - amount) as i32, ..before[k] })
                &&& post.creature(target).hitpoints == pre.creature(target).hitpoints
                &&& post.creature(target).block == pre.creature(target).block
                &&& post.actions@ == pre.actions@
            }
            &&& amount >= before[k].amount ==> {
                &&& post.creature(target) == pre.creature(target)
                &&& post.actions@ == seq![
                    DynAction::RemoveSpecificPowerAction(RemoveSpecificPowerAction { target, power_id: id }),
                ] + pre.actions@
            }
        }),
{
    let before = pre.creature(target).powers@;
    assert(has_power_id(before, id));
    let j = power_index(before, id);
    assert(j == k) by {
        if j < k {
            assert(before[j].power_id != before[k].power_id);
        } else if k < j {
            assert(before[k].power_id != before[j].power_id);
        }
    }
}

/// The powers whose hook of this kind changes an amount.
pub open spec fn changes_amount(hook: NumericHook, id: PowerId) -> bool {
    match hook {
        NumericHook::DamageGive => id == PowerId::Strength || id == PowerId::Weak || id == PowerId::PenNib,
        NumericHook::DamageReceive => id == PowerId::Vulnerable,
        NumericHook::DamageFinalReceive => id == PowerId::Flight,
        NumericHook::ModifyBlock => id == PowerId::Dexterity || id == PowerId::Frail,
    }
}

/// The factor by which a power of this id multiplies a normal amount, as numerator and
/// denominator: Weak 3/4, Pen Nib 2, Vulnerable 3/2, Flight 1/2, Frail 3/4.
pub open spec fn factor(id: PowerId) -> (int, int) {
    match id {
        PowerId::Weak => (3, 4),
        PowerId::PenNib => (2, 1),
        PowerId::Vulnerable => (3, 2),
        PowerId::Flight => (1, 2),
        PowerId::Frail => (3, 4),
        _ => (1, 1),
    }
}

/// Folding a hook over powers among which only `id` changes amounts, by a factor.
proof fn lemma_fold_one_factor(hook: NumericHook, powers: Seq<Power>, id: PowerId, a: (int, int))
    requires
        changes_amount(hook, id),
        id != PowerId::Strength,
        id != PowerId::Dexterity,
        unique_power_ids(powers),
        forall|i: int| 0 <= i < powers.len() && changes_amount(hook, (#[trigger] powers[i]).power_id) ==> powers[i].power_id == id,
    ensures
        has_power_id(powers, id) ==> spec_hook_fold(hook, powers, DamageType::Normal, a) == (a.0 * factor(id).0, a.1
            * factor(id).1),
        !has_power_id(powers, id) ==> spec_hook_fold(hook, powers, DamageType::Normal, a) == a,
    decreases powers.len(),
{
    if powers.len() > 0 {
        let rest = powers.drop_last();
        let last = powers.last();
        assert(last == powers[powers.len() - 1]);
        assert forall|i: int| 0 <= i < rest.len() && changes_amount(hook, (#[trigger] rest[i]).power_id) implies rest[i].power_id == id by {
            assert(rest[i] == powers[i]);
        }
        assert(unique_power_ids(rest)) by {
            assert forall|i: int, j: int| 0 <= i < j < rest.len() implies #[trigger] rest[i].power_id != #[trigger] rest[j].power_id by {
                assert(rest[i] == powers[i] && rest[j] == powers[j]);
            }
        }
        lemma_fold_one_factor(hook, rest, id, a);
        if last.power_id == id {
            assert(!has_power_id(rest, id)) by {
                if has_power_id(rest, id) {
                    let i = choose|i: int| 0 <= i < rest.len() && #[trigger] rest[i].power_id == id;
                    assert(powers[i].power_id != powers[powers.len() - 1].power_id);
                }
            }
            assert(has_power_id(powers, id));
        } else {
            assert(!changes_amount(hook, last.power_id));
            assert(has_power_id(powers, id) == has_power_id(rest, id)) by {
                if has_power_id(powers, id) {
                    let i = choose|i: int| 0 <= i < powers.len() && #[trigger] powers[i].power_id == id;
                    assert(rest[i].power_id == id);
                }
                if has_power_id(rest, id) {
                    let i = choose|i: int| 0 <= i < rest.len() && #[trigger] rest[i].power_id == id;
                    assert(powers[i].power_id == id);
                }
            }
        }
    }
}

/// A normal attack's damage after powers, for an attacker without Strength and with at
/// most one of Weak and Pen Nib: its base (at least 0) times 3/4 for a Weak attacker or
/// 2 for one with Pen Nib, times 3/2 on a Vulnerable target, halved on a target with
/// Flight, rounded down (Bash's 8 on a Vulnerable monster deals 12, a Weak Byrd's 12
/// deals 9).
pub proof fn lemma_attack_damage(state: CombatState, owner: CreatureIndex, base: i32, target: CreatureIndex)
    requires
        state.wf(),
        state.valid_creature_index(owner),
        state.valid_creature_index(target),
        0 <= base,
        3 * base <= i32::MAX,
        !has_power_id(state.creature(owner).powers@, PowerId::Strength),
        !(has_power_id(state.creature(owner).powers@, PowerId::Weak) && has_power_id(
            state.creature(owner).powers@,
            PowerId::PenNib,
        )),
    ensures
        ({
            let info = DamageInfoNoPowers { damage_type: DamageType::Normal, owner: Some(owner), base };
            let attacker = state.creature(owner).powers@;
            let defender = state.creature(target).powers@;
            let give: (int, int) = if has_power_id(attacker, PowerId::Weak) {
                (3, 4)
            } else if has_power_id(attacker, PowerId::PenNib) {
                (2, 1)
            } else {
                (1, 1)
            };
            let vulnerable: (int, int) = if has_power_id(defender, PowerId::Vulnerable) { (3, 2) } else { (1, 1) };
            let flight: int = if has_power_id(defender, PowerId::Flight) { 2 } else { 1 };
            spec_damage_output(spec_target_amount(state, DamageType::Normal, spec_owner_amount(state, info), target))
                == base * give.0 * vulnerable.0 / (give.1 * vulnerable.1 * flight)
        }),
{
    let attacker = state.creature(owner).powers@;
    let defender = state.creature(target).powers@;
    state.lemma_wf_creature(owner);
    state.lemma_wf_creature(target);
    let b = base as int;
    let give_id = if has_power_id(attacker, PowerId::Weak) { PowerId::Weak } else { PowerId::PenNib };
    assert forall|i: int| 0 <= i < attacker.len() && changes_amount(NumericHook::DamageGive, (#[trigger] attacker[i]).power_id) implies attacker[i].power_id == give_id by {
        if attacker[i].power_id == PowerId::Strength {
            assert(has_power_id(attacker, PowerId::Strength));
        } else if attacker[i].power_id != give_id {
            assert(has_power_id(attacker, attacker[i].power_id));
        }
    }
    lemma_fold_one_factor(NumericHook::DamageGive, attacker, give_id, (b, 1));
    let g = spec_hook_fold(NumericHook::DamageGive, attacker, DamageType::Normal, (b, 1));
    assert forall|i: int| 0 <= i < defender.len() && changes_amount(NumericHook::DamageReceive, (#[trigger] defender[i]).power_id) implies defender[i].power_id == PowerId::Vulnerable by {}
    lemma_fold_one_factor(NumericHook::DamageReceive, defender, PowerId::Vulnerable, g);
    let r = spec_hook_fold(NumericHook::DamageReceive, defender, DamageType::Normal, g);
    assert forall|i: int| 0 <= i < defender.len() && changes_amount(NumericHook::DamageFinalReceive, (#[trigger] defender[i]).power_id) implies defender[i].power_id == PowerId::Flight by {}
    lemma_fold_one_factor(NumericHook::DamageFinalReceive, defender, PowerId::Flight, r);
    let f = spec_hook_fold(NumericHook::DamageFinalReceive, defender, DamageType::Normal, r);
    let gx: int = if has_power_id(attacker, PowerId::Weak) { 3 } else if has_power_id(attacker, PowerId::PenNib) { 2 } else { 1 };
    let gy: int = if has_power_id(attacker, PowerId::Weak) { 4 } else { 1 };
    let vx: int = if has_power_id(defender, PowerId::Vulnerable) { 3 } else { 1 };
    let vy: int = if has_power_id(defender, PowerId::Vulnerable) { 2 } else { 1 };
    let fy: int = if has_power_id(defender, PowerId::Flight) { 2 } else { 1 };
    assert(g == (b * gx, gy));
    assert(r == (b * gx * vx, gy * vy)) by (nonlinear_arith)
        requires
            g == (b * gx, gy),
            r == (g.0 * vx, g.1 * vy) || (vx == 1 && vy == 1 && r == g),
    ;
    assert(f == (b * gx * vx, gy * vy * fy)) by (nonlinear_arith)
        requires
            r == (b * gx * vx, gy * vy),
            f == (r.0 * 1, r.1 * 2) && fy == 2 || (fy == 1 && f == r),
    ;
    assert(b * gx * vx / (gy * vy * fy) <= 3 * b) by (nonlinear_arith)
        requires
            b >= 0,
            1 <= gx <= 3,
            1 <= gy,
            1 <= vx <= 3,
            vy >= 1,
            fy >= 1,
            gx * vx <= 3 * gy * vy,
    ;
}

/// Folding the damage-dealt hook over powers among which only Strength changes damage.
proof fn lemma_fold_strength(powers: Seq<Power>, b: int)
    requires
        unique_power_ids(powers),
        forall|i: int|
            0 <= i < powers.len() && changes_amount(NumericHook::DamageGive, (#[trigger] powers[i]).power_id)
                ==> powers[i].power_id == PowerId::Strength,
    ensures
        spec_hook_fold(NumericHook::DamageGive, powers, DamageType::Normal, (b, 1)) == (b + spec_power_amount(
            powers,
            PowerId::Strength,
        ), 1int),
        !has_power_id(powers, PowerId::Strength) ==> spec_power_amount(powers, PowerId::Strength) == 0,
    decreases powers.len(),
{
    if powers.len() > 0 {
        let rest = powers.drop_last();
        let last = powers.last();
        assert(last == powers[powers.len() - 1]);
        assert forall|i: int|
            0 <= i < rest.len() && changes_amount(NumericHook::DamageGive, (#[trigger] rest[i]).power_id) implies rest[i].power_id
            == PowerId::Strength by {
            assert(rest[i] == powers[i]);
        }
        assert(unique_power_ids(rest)) by {
            assert forall|i: int, j: int| 0 <= i < j < rest.len() implies #[trigger] rest[i].power_id
                != #[trigger] rest[j].power_id by {
                assert(rest[i] == powers[i] && rest[j] == powers[j]);
            }
        }
        lemma_fold_strength(rest, b);
        if last.power_id == PowerId::Strength {
            assert(!has_power_id(rest, PowerId::Strength)) by {
                if has_power_id(rest, PowerId::Strength) {
                    let i = choose|i: int| 0 <= i < rest.len() && #[trigger] rest[i].power_id == PowerId::Strength;
                    assert(powers[i].power_id != powers[powers.len() - 1].power_id);
                }
            }
            assert(has_power_id(powers, PowerId::Strength));
        } else {
            assert(!changes_amount(NumericHook::DamageGive, last.power_id));
            if has_power_id(rest, PowerId::Strength) == false && has_power_id(powers, PowerId::Strength) {
                let i = choose|i: int| 0 <= i < powers.len() && #[trigger] powers[i].power_id == PowerId::Strength;
                assert(rest[i].power_id == PowerId::Strength);
            }
        }
    }
}

/// A normal attack by an attacker whose only damage-changing power is Strength, on a
/// target neither Vulnerable nor flying, deals its base plus the Strength, and nothing
/// when that is negative (a Byrd that cawed once pecks for 2).
pub proof fn lemma_strength_damage(state: CombatState, owner: CreatureIndex, base: i32, target: CreatureIndex)
    requires
        state.wf(),
        state.valid_creature_index(owner),
        state.valid_creature_index(target),
        forall|i: int|
            0 <= i < state.creature(owner).powers@.len() ==> (#[trigger] state.creature(owner).powers@[i]).power_id
                != PowerId::Weak && state.creature(owner).powers@[i].power_id != PowerId::PenNib,
        !has_power_id(state.creature(target).powers@, PowerId::Vulnerable),
        !has_power_id(state.creature(target).powers@, PowerId::Flight),
        base + spec_power_amount(state.creature(owner).powers@, PowerId::Strength) <= i32::MAX,
    ensures
        ({
            let info = DamageInfoNoPowers { damage_type: DamageType::Normal, owner: Some(owner), base };
            let total = base + spec_power_amount(state.creature(owner).powers@, PowerId::Strength);
            spec_damage_output(spec_target_amount(state, DamageType::Normal, spec_owner_amount(state, info), target))
                == if total <= 0 { 0 } else { total }
        }),
{
    let attacker = state.creature(owner).powers@;
    let defender = state.creature(target).powers@;
    state.lemma_wf_creature(owner);
    state.lemma_wf_creature(target);
    lemma_fold_strength(attacker, base as int);
    let g = spec_hook_fold(NumericHook::DamageGive, attacker, DamageType::Normal, (base as int, 1));
    assert forall|i: int|
        0 <= i < defender.len() && changes_amount(NumericHook::DamageReceive, (#[trigger] defender[i]).power_id) implies defender[i].power_id
        == PowerId::Vulnerable by {}
    lemma_fold_one_factor(NumericHook::DamageReceive, defender, PowerId::Vulnerable, g);
    assert forall|i: int|
        0 <= i < defender.len() && changes_amount(NumericHook::DamageFinalReceive, (#[trigger] defender[i]).power_id) implies defender[i].power_id
        == PowerId::Flight by {}
    lemma_fold_one_factor(NumericHook::DamageFinalReceive, defender, PowerId::Flight, g);
    assert(g.0 / g.1 == g.0);
}

} // verus!
