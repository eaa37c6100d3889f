//! The actions that change a combat, and the engine that runs them.
use vstd::prelude::*;

use crate::simulation::{
    CreatureIndex, DamageInfoAllPowers, DamageInfoNoPowers, DamageInfoOwnerPowers, DamageType,
};
use crate::simulation_state::powers::unique_power_ids;
use crate::simulation_state::{
    CardType, CombatState, Creature, Monster, MonsterId, Power, PowerId, SingleCard,
};
use crate::simulation_state::cards::spec_card_info;
use vstd::wrapping::i32_specs;

verus! {

#[derive(Clone, Copy, PartialEq, Eq, Hash, Debug, Structural)]
pub struct PlayCard { pub card: SingleCard, pub target: usize }

#[derive(Clone, Copy, PartialEq, Eq, Hash, Debug, Structural)]
pub struct FinishPlayingCard;

#[derive(Clone, Copy, PartialEq, Eq, Hash, Debug, Structural)]
pub struct EndTurn;

#[derive(Clone, Copy, PartialEq, Eq, Hash, Debug, Structural)]
pub struct StartMonsterTurn (pub usize);

#[derive(Clone, Copy, PartialEq, Eq, Hash, Debug, Structural)]
pub struct DoMonsterIntent (pub usize);

#[derive(Clone, Copy, PartialEq, Eq, Hash, Debug, Structural)]
pub struct FinishMonsterTurn (pub usize);

#[derive(Clone, Copy, PartialEq, Eq, Hash, Debug, Structural)]
pub struct ChooseMonsterIntent (pub usize);

#[derive(Clone, Copy, PartialEq, Eq, Hash, Debug, Structural)]
pub struct EndMonstersTurns;

#[derive(Clone, Copy, PartialEq, Eq, Hash, Debug, Structural)]
pub struct DamageAction { pub target: CreatureIndex, pub info: DamageInfoAllPowers }

#[derive(Clone, Copy, PartialEq, Eq, Hash, Debug, Structural)]
pub struct DamageAllEnemiesAction { pub info: DamageInfoOwnerPowers }

#[derive(Clone, Copy, PartialEq, Eq, Hash, Debug, Structural)]
pub struct AttackDamageRandomEnemyAction { pub info: DamageInfoOwnerPowers }

#[derive(Clone, Copy, PartialEq, Eq, Hash, Debug, Structural)]
pub struct DrawCardRandom;

#[derive(Clone, Copy, PartialEq, Eq, Hash, Debug, Structural)]
pub struct DrawCards (pub i32);

#[derive(Clone, Copy, PartialEq, Eq, Hash, Debug, Structural)]
pub struct ApplyPowerAction { pub source: CreatureIndex, pub target: CreatureIndex, pub power_id: PowerId, pub amount: i32 }

#[derive(Clone, Copy, PartialEq, Eq, Hash, Debug, Structural)]
pub struct ReducePowerAction { pub target: CreatureIndex, pub power_id: PowerId, pub amount: i32 }

#[derive(Clone, Copy, PartialEq, Eq, Hash, Debug, Structural)]
pub struct RemoveSpecificPowerAction { pub target: CreatureIndex, pub power_id: PowerId }

#[derive(Clone, Copy, PartialEq, Eq, Hash, Debug, Structural)]
pub struct DiscardNewCard (pub SingleCard);

#[derive(Clone, Copy, PartialEq, Eq, Hash, Debug, Structural)]
pub struct GainBlockAction { pub creature_index: CreatureIndex, pub amount: i32 }

#[derive(Clone, Copy, PartialEq, Eq, Hash, Debug, Structural)]
pub struct GainEnergyAction (pub i32);

#[derive(Clone, Copy, PartialEq, Eq, Hash, Debug, Structural)]
pub struct ArmamentsAction { pub upgraded: bool }

#[derive(Clone, Copy, PartialEq, Eq, Hash, Debug)]
pub struct InitializeMonsterInnateDamageAmount { pub monster_index: usize, pub range: (i32, i32) }

#[derive(Clone, Copy, PartialEq, Eq, Hash, Debug, Structural)]
pub struct GainBlockRandomMonsterAction { pub source: usize, pub amount: i32 }

#[derive(Clone, Copy, PartialEq, Eq, Hash, Debug)]
pub struct SplitAction (pub usize, pub [MonsterId; 2]);

#[derive(Clone, Copy, PartialEq, Eq, Hash, Debug, Structural)]
pub struct EscapeAction (pub usize);

/// Any action, as it sits in a combat's queues.
#[derive(Clone, Copy, PartialEq, Eq, Hash, Debug)]
pub enum DynAction {
    PlayCard(PlayCard),
    FinishPlayingCard(FinishPlayingCard),
    EndTurn(EndTurn),
    StartMonsterTurn(StartMonsterTurn),
    DoMonsterIntent(DoMonsterIntent),
    FinishMonsterTurn(FinishMonsterTurn),
    ChooseMonsterIntent(ChooseMonsterIntent),
    EndMonstersTurns(EndMonstersTurns),
    DamageAction(DamageAction),
    DamageAllEnemiesAction(DamageAllEnemiesAction),
    AttackDamageRandomEnemyAction(AttackDamageRandomEnemyAction),
    DrawCardRandom(DrawCardRandom),
    DrawCards(DrawCards),
    ApplyPowerAction(ApplyPowerAction),
    ReducePowerAction(ReducePowerAction),
    RemoveSpecificPowerAction(RemoveSpecificPowerAction),
    DiscardNewCard(DiscardNewCard),
    GainBlockAction(GainBlockAction),
    GainEnergyAction(GainEnergyAction),
    ArmamentsAction(ArmamentsAction),
    InitializeMonsterInnateDamageAmount(InitializeMonsterInnateDamageAmount),
    GainBlockRandomMonsterAction(GainBlockRandomMonsterAction),
    SplitAction(SplitAction),
    EscapeAction(EscapeAction),
}


/// Two power lists hold the same ids in the same places.
pub open spec fn powers_frame(a: Seq<Power>, b: Seq<Power>) -> bool {
    a.len() == b.len() && forall|i: int| 0 <= i < a.len() ==> #[trigger] b[i].power_id == a[i].power_id
}

/// A creature that kept its hitpoints, block and power ids.
pub open spec fn creature_frame(a: Creature, b: Creature) -> bool {
    &&& b.hitpoints == a.hitpoints
    &&& b.max_hitpoints == a.max_hitpoints
    &&& b.block == a.block
    &&& powers_frame(a.powers@, b.powers@)
}

/// A monster that changed at most the amounts and flags of its powers.
pub open spec fn monster_frame(a: Monster, b: Monster) -> bool {
    &&& b.monster_id == a.monster_id
    &&& b.innate_damage_amount == a.innate_damage_amount
    &&& b.ascension == a.ascension
    &&& b.move_history@ == a.move_history@
    &&& b.gone == a.gone
    &&& creature_frame(a.creature, b.creature)
}

/// Everything but the main action queue and the amounts and flags of powers is unchanged:
/// what a power hook may change.
pub open spec fn hook_frame(a: CombatState, b: CombatState) -> bool {
    &&& b.draw_pile@ == a.draw_pile@
    &&& b.discard_pile@ == a.discard_pile@
    &&& b.exhaust_pile@ == a.exhaust_pile@
    &&& b.hand@ == a.hand@
    &&& b.limbo@ == a.limbo@
    &&& b.card_in_play == a.card_in_play
    &&& b.player.energy == a.player.energy
    &&& creature_frame(a.player.creature, b.player.creature)
    &&& b.monsters@.len() == a.monsters@.len()
    &&& forall|i: int| 0 <= i < a.monsters@.len() ==> monster_frame(#[trigger] a.monsters@[i], b.monsters@[i])
    &&& b.turn_number == a.turn_number
    &&& b.turn_has_ended == a.turn_has_ended
    &&& b.fresh_subaction_queue@ == a.fresh_subaction_queue@
    &&& b.stale_subaction_stack@ == a.stale_subaction_stack@
    &&& b.num_reshuffles == a.num_reshuffles
    &&& b.num_actions == a.num_actions
    &&& b.num_choices == a.num_choices
}

/// Same power ids in the same places keep the ids distinct.
pub proof fn lemma_powers_frame_unique(a: Seq<Power>, b: Seq<Power>)
    requires
        powers_frame(a, b),
        unique_power_ids(a),
    ensures
        unique_power_ids(b),
{
    assert forall|i: int, j: int| 0 <= i < j < b.len() implies #[trigger] b[i].power_id != #[trigger] b[j].power_id by {
        assert(a[i].power_id != a[j].power_id);
    }
}

/// Power hooks keep a combat well formed.
pub proof fn lemma_hook_frame_wf(a: CombatState, b: CombatState)
    requires
        hook_frame(a, b),
        a.wf(),
    ensures
        b.wf(),
{
    lemma_powers_frame_unique(a.player.creature.powers@, b.player.creature.powers@);
    assert forall|i: int| 0 <= i < b.monsters@.len() implies unique_power_ids(#[trigger] b.monsters@[i].creature.powers@) by {
        assert(monster_frame(a.monsters@[i], b.monsters@[i]));
        assert(unique_power_ids(a.monsters@[i].creature.powers@));
        lemma_powers_frame_unique(a.monsters@[i].creature.powers@, b.monsters@[i].creature.powers@);
    }
}

/// Two steps within the hook frame stay within it.
pub proof fn lemma_hook_frame_trans(a: CombatState, b: CombatState, c: CombatState)
    requires
        hook_frame(a, b),
        hook_frame(b, c),
    ensures
        hook_frame(a, c),
{
    assert forall|i: int| 0 <= i < a.monsters@.len() implies monster_frame(#[trigger] a.monsters@[i], c.monsters@[i]) by {
        assert(monster_frame(a.monsters@[i], b.monsters@[i]));
        assert(monster_frame(b.monsters@[i], c.monsters@[i]));
    }
}

/// Queues an action at the front of the main queue.
pub fn action_top(state: &mut CombatState, action: DynAction)
    ensures
        final(state).actions@ == seq![action] + old(state).actions@,
        hook_frame(*old(state), *final(state)),
        final(state).player == old(state).player,
        final(state).monsters@ == old(state).monsters@,
{
    state.actions.push_front(action);
}

/// Queues an action at the back of the main queue.
pub fn action_bottom(state: &mut CombatState, action: DynAction)
    ensures
        final(state).actions@ == old(state).actions@.push(action),
        hook_frame(*old(state), *final(state)),
        final(state).player == old(state).player,
        final(state).monsters@ == old(state).monsters@,
{
    state.actions.push_back(action);
}

/// The power at `index` of the creature `owner`.
pub open spec fn power_at(state: CombatState, owner: CreatureIndex, index: int) -> Power {
    state.creature(owner).powers@[index]
}

/// A hook's owner and power index name an existing power.
pub open spec fn valid_hook(state: CombatState, owner: CreatureIndex, index: int) -> bool {
    state.valid_creature_index(owner) && 0 <= index < state.creature(owner).powers@.len()
}

fn get_power(state: &CombatState, owner: CreatureIndex, index: usize) -> (power: Power)
    requires
        valid_hook(*state, owner, index as int),
    ensures
        power == power_at(*state, owner, index as int),
{
    state.get_creature(owner).powers[index]
}

/// Replaces the power at `index` of `owner` by one with the same id.
fn set_power(state: &mut CombatState, owner: CreatureIndex, index: usize, power: Power)
    requires
        valid_hook(*old(state), owner, index as int),
        power.power_id == power_at(*old(state), owner, index as int).power_id,
    ensures
        hook_frame(*old(state), *final(state)),
        final(state).actions@ == old(state).actions@,
        final(state).creature(owner).powers@ == old(state).creature(owner).powers@.update(index as int, power),
        forall|o: CreatureIndex| o != owner && old(state).valid_creature_index(o) ==> #[trigger] final(state).creature(o) == old(state).creature(o),
{
    match owner {
        CreatureIndex::Player => {
            state.player.creature.powers.set(index, power);
        },
        CreatureIndex::Monster(i) => {
            state.monsters[i].creature.powers.set(index, power);
        },
    }
    proof {
        let a = *old(state);
        let b = *final(state);
        assert forall|j: int| 0 <= j < a.monsters@.len() implies monster_frame(#[trigger] a.monsters@[j], b.monsters@[j]) by {
            if owner == CreatureIndex::Monster(j as usize) {
                assert(powers_frame(a.monsters@[j].creature.powers@, b.monsters@[j].creature.powers@));
            }
        }
    }
}

/// Queues removing the hook's power, at the front of the queue.
fn remove_this_power(state: &mut CombatState, owner: CreatureIndex, index: usize)
    requires
        valid_hook(*old(state), owner, index as int),
    ensures
        hook_frame(*old(state), *final(state)),
        final(state).player == old(state).player,
        final(state).monsters@ == old(state).monsters@,
        final(state).actions@ == seq![DynAction::RemoveSpecificPowerAction(RemoveSpecificPowerAction { target: owner, power_id: power_at(*old(state), owner, index as int).power_id })] + old(state).actions@,
{
    let id = get_power(state, owner, index).power_id;
    action_top(state, DynAction::RemoveSpecificPowerAction(RemoveSpecificPowerAction { target: owner, power_id: id }));
}

/// Queues taking one off the hook's power, or removing it when its amount is not positive.
fn reduce_this_power(state: &mut CombatState, owner: CreatureIndex, index: usize)
    requires
        valid_hook(*old(state), owner, index as int),
    ensures
        hook_frame(*old(state), *final(state)),
        final(state).player == old(state).player,
        final(state).monsters@ == old(state).monsters@,
        final(state).actions@ == seq![
            if power_at(*old(state), owner, index as int).amount <= 0 {
                DynAction::RemoveSpecificPowerAction(RemoveSpecificPowerAction { target: owner, power_id: power_at(*old(state), owner, index as int).power_id })
            } else {
                DynAction::ReducePowerAction(ReducePowerAction { target: owner, power_id: power_at(*old(state), owner, index as int).power_id, amount: 1 })
            }
        ] + old(state).actions@,
{
    let p = get_power(state, owner, index);
    if p.amount <= 0 {
        remove_this_power(state, owner, index);
    } else {
        action_top(state, DynAction::ReducePowerAction(ReducePowerAction { target: owner, power_id: p.power_id, amount: 1 }));
    }
}

fn apply_power_action(source: CreatureIndex, target: CreatureIndex, power_id: PowerId, amount: i32) -> (action: DynAction)
    ensures
        action == DynAction::ApplyPowerAction(ApplyPowerAction { source, target, power_id, amount }),
{
    DynAction::ApplyPowerAction(ApplyPowerAction { source, target, power_id, amount })
}

/// The removal of a creature's power of this id.
pub open spec fn removal_action(owner: CreatureIndex, power_id: PowerId) -> DynAction {
    DynAction::RemoveSpecificPowerAction(RemoveSpecificPowerAction { target: owner, power_id })
}

/// `source` applying `amount` of a power to `target`.
pub open spec fn application_action(source: CreatureIndex, target: CreatureIndex, power_id: PowerId, amount: i32) -> DynAction {
    DynAction::ApplyPowerAction(ApplyPowerAction { source, target, power_id, amount })
}

/// Thorns damage of `amount` from `owner`, which no power changes.
pub open spec fn thorns_info(owner: CreatureIndex, amount: i32) -> DamageInfoAllPowers {
    DamageInfoAllPowers { damage_type: DamageType::Thorns, owner: Some(owner), base: amount, output: amount }
}

/// What one hook of a power of `owner` (with `hitpoints` hitpoints) does: the power it
/// leaves in its place, the actions it queues at the front of the main queue, and the
/// actions it queues at the back.
pub open spec fn spec_hook_effect(owner: CreatureIndex, power: Power, hitpoints: i32, hook: PowerHook) -> (
    Power,
    Seq<DynAction>,
    Seq<DynAction>,
) {
    let nothing = (power, Seq::<DynAction>::empty(), Seq::<DynAction>::empty());
    let front = |a: DynAction| (power, seq![a], Seq::<DynAction>::empty());
    let back = |a: DynAction| (power, Seq::<DynAction>::empty(), seq![a]);
    let normal = |info: DamageInfoAllPowers| info.damage_type == DamageType::Normal;
    match hook {
        PowerHook::AtEndOfTurn => match power.power_id {
            PowerId::Metallicize | PowerId::PlatedArmor => back(
                DynAction::GainBlockAction(GainBlockAction { creature_index: owner, amount: power.amount }),
            ),
            PowerId::NoDraw | PowerId::Rage => front(removal_action(owner, power.power_id)),
            _ => nothing,
        },
        PowerHook::AtEndOfRound => match power.power_id {
            PowerId::Vulnerable | PowerId::Frail | PowerId::Weak => front(wear_off_action(owner, power)),
            PowerId::Ritual => if power.just_applied {
                (Power { just_applied: false, ..power }, Seq::empty(), Seq::empty())
            } else {
                back(application_action(owner, owner, PowerId::Strength, power.amount))
            },
            PowerId::Entangled => front(removal_action(owner, power.power_id)),
            _ => nothing,
        },
        PowerHook::AtStartOfTurn => match power.power_id {
            PowerId::Flight => {
                let deficiency = i32_specs::wrapping_sub(power.misc, power.amount);
                if deficiency > 0 {
                    front(application_action(owner, owner, PowerId::Flight, deficiency))
                } else {
                    nothing
                }
            },
            PowerId::Necronomicon => (Power { amount: -1i32, ..power }, Seq::empty(), Seq::empty()),
            PowerId::FlameBarrier => front(removal_action(owner, power.power_id)),
            PowerId::Berserk => back(DynAction::GainEnergyAction(GainEnergyAction(power.amount))),
            _ => nothing,
        },
        PowerHook::AtStartOfTurnPostDraw => match power.power_id {
            PowerId::DemonForm => back(application_action(owner, owner, PowerId::Strength, power.amount)),
            _ => nothing,
        },
        PowerHook::OnUseCard(card) => {
            let card_type = spec_card_info(card.card_id).card_type;
            match power.power_id {
                PowerId::Enrage => if card_type == CardType::Skill {
                    front(application_action(owner, owner, PowerId::Strength, power.amount))
                } else {
                    nothing
                },
                PowerId::SharpHide => if card_type == CardType::Attack {
                    back(
                        DynAction::DamageAction(
                            DamageAction { target: CreatureIndex::Player, info: thorns_info(owner, power.amount) },
                        ),
                    )
                } else {
                    nothing
                },
                PowerId::InkBottle => {
                    let amount = i32_specs::wrapping_add(power.amount, 1);
                    if amount == 10 {
                        (Power { amount: 0, ..power }, Seq::empty(), seq![DynAction::DrawCards(DrawCards(1))])
                    } else {
                        (Power { amount, ..power }, Seq::empty(), Seq::empty())
                    }
                },
                PowerId::PenNib => if card_type == CardType::Attack {
                    front(removal_action(owner, power.power_id))
                } else {
                    nothing
                },
                PowerId::Rage => if card_type == CardType::Attack {
                    back(DynAction::GainBlockAction(GainBlockAction { creature_index: owner, amount: power.amount }))
                } else {
                    nothing
                },
                _ => nothing,
            }
        },
        PowerHook::OnAttacked(info, damage) => match power.power_id {
            PowerId::Thorns | PowerId::FlameBarrier => match info.owner {
                Some(attacker) => if attacker != owner && normal(info) {
                    front(
                        DynAction::DamageAction(DamageAction { target: attacker, info: thorns_info(owner, power.amount) }),
                    )
                } else {
                    nothing
                },
                None => nothing,
            },
            PowerId::CurlUp => if power.amount > 0 && damage < hitpoints && normal(info) {
                (
                    Power { amount: 0, ..power },
                    seq![removal_action(owner, power.power_id)],
                    seq![DynAction::GainBlockAction(GainBlockAction { creature_index: owner, amount: power.amount })],
                )
            } else {
                nothing
            },
            PowerId::Angry => if info.owner == Some(CreatureIndex::Player) && damage > 0 && normal(info) {
                front(application_action(owner, owner, PowerId::Strength, power.amount))
            } else {
                nothing
            },
            PowerId::ModeShift => if damage > 0 {
                front(
                    DynAction::ReducePowerAction(ReducePowerAction { target: owner, power_id: power.power_id, amount: damage }),
                )
            } else {
                nothing
            },
            PowerId::Flight => if info.owner is Some && damage > 0 && normal(info) {
                front(wear_off_action(owner, power))
            } else {
                nothing
            },
            PowerId::PlatedArmor => if damage > 0 && normal(info) {
                front(wear_off_action(owner, power))
            } else {
                nothing
            },
            _ => nothing,
        },
        PowerHook::OnDeath => match power.power_id {
            PowerId::SporeCloud => front(
                application_action(owner, CreatureIndex::Player, PowerId::Vulnerable, power.amount),
            ),
            _ => nothing,
        },
        PowerHook::OnSpecificTrigger => match power.power_id {
            PowerId::Artifact => front(wear_off_action(owner, power)),
            _ => nothing,
        },
    }
}

/// One hook of the power at `index` of `owner` ran with the effect `effect` (see
/// `spec_hook_effect`): that power was replaced, no other creature changed, and the
/// actions were queued around the main queue.
pub open spec fn hook_applied(
    a: CombatState,
    b: CombatState,
    owner: CreatureIndex,
    index: int,
    effect: (Power, Seq<DynAction>, Seq<DynAction>),
) -> bool {
    &&& hook_frame(a, b)
    &&& b.creature(owner).powers@ =~= a.creature(owner).powers@.update(index, effect.0)
    &&& forall|o: CreatureIndex|
        o != owner && a.valid_creature_index(o) ==> #[trigger] b.creature(o) == a.creature(o)
    &&& b.actions@ =~= effect.1 + a.actions@ + effect.2
}

/// The effect of one hook of the power at `index` of `owner` in `state`.
pub open spec fn hook_effect_at(state: CombatState, owner: CreatureIndex, index: int, hook: PowerHook) -> (
    Power,
    Seq<DynAction>,
    Seq<DynAction>,
) {
    spec_hook_effect(owner, power_at(state, owner, index), state.creature(owner).hitpoints, hook)
}

/// Creatures other than `owner` that two steps each left alone stay as they were.
proof fn lemma_others_unchanged_trans(a: CombatState, b: CombatState, c: CombatState, owner: CreatureIndex)
    requires
        b.monsters@.len() == a.monsters@.len(),
        forall|o: CreatureIndex| o != owner && a.valid_creature_index(o) ==> #[trigger] b.creature(o) == a.creature(o),
        forall|o: CreatureIndex| o != owner && b.valid_creature_index(o) ==> #[trigger] c.creature(o) == b.creature(o),
    ensures
        forall|o: CreatureIndex| o != owner && a.valid_creature_index(o) ==> #[trigger] c.creature(o) == a.creature(o),
{
    assert forall|o: CreatureIndex| o != owner && a.valid_creature_index(o) implies #[trigger] c.creature(o)
        == a.creature(o) by {
        assert(b.creature(o) == a.creature(o));
        assert(b.valid_creature_index(o));
        assert(c.creature(o) == b.creature(o));
    }
}

/// A step that kept the player and the monsters kept every creature.
proof fn lemma_creatures_kept(a: CombatState, b: CombatState)
    requires
        b.player == a.player,
        b.monsters@ == a.monsters@,
    ensures
        forall|o: CreatureIndex| a.valid_creature_index(o) ==> #[trigger] b.creature(o) == a.creature(o),
{
}

/// A step that changed no creature left the power at `index` in its place.
proof fn lemma_owner_unchanged(a: CombatState, b: CombatState, owner: CreatureIndex, index: int)
    requires
        valid_hook(a, owner, index),
        b.player == a.player,
        b.monsters@ == a.monsters@,
    ensures
        b.creature(owner).powers@ == a.creature(owner).powers@.update(index, power_at(a, owner, index)),
        forall|o: CreatureIndex| o != owner && a.valid_creature_index(o) ==> #[trigger] b.creature(o) == a.creature(o),
{
    assert(a.creature(owner).powers@.update(index, power_at(a, owner, index)) =~= a.creature(owner).powers@);
}

/// Runs the end-of-turn hook of one power: Metallicize and Plated Armor queue block,
/// No Draw and Rage queue their removal.
fn at_end_of_turn_hook(state: &mut CombatState, owner: CreatureIndex, index: usize)
    requires
        valid_hook(*old(state), owner, index as int),
    ensures
        hook_applied(*old(state), *final(state), owner, index as int, hook_effect_at(*old(state), owner, index as int, PowerHook::AtEndOfTurn)),
        hook_frame(*old(state), *final(state)),
{
    let p = get_power(state, owner, index);
    match p.power_id {
        PowerId::Metallicize | PowerId::PlatedArmor => {
            action_bottom(state, DynAction::GainBlockAction(GainBlockAction { creature_index: owner, amount: p.amount }));
        },
        PowerId::NoDraw | PowerId::Rage => {
            remove_this_power(state, owner, index);
        },
        _ => {},
    }
    proof {
        if state.player == old(state).player && state.monsters@ == old(state).monsters@ {
            lemma_owner_unchanged(*old(state), *state, owner, index as int);
        }
    }
}

/// Runs the end-of-round hook of one power: Vulnerable, Frail and Weak wear off by one,
/// Ritual grants its Strength unless just applied, Entangled is removed.
fn at_end_of_round_hook(state: &mut CombatState, owner: CreatureIndex, index: usize)
    requires
        valid_hook(*old(state), owner, index as int),
    ensures
        hook_applied(*old(state), *final(state), owner, index as int, hook_effect_at(*old(state), owner, index as int, PowerHook::AtEndOfRound)),
        hook_frame(*old(state), *final(state)),
{
    let p = get_power(state, owner, index);
    match p.power_id {
        PowerId::Vulnerable | PowerId::Frail | PowerId::Weak => {
            reduce_this_power(state, owner, index);
        },
        PowerId::Ritual => {
            if p.just_applied {
                set_power(state, owner, index, Power { just_applied: false, ..p });
            } else {
                action_bottom(state, apply_power_action(owner, owner, PowerId::Strength, p.amount));
            }
        },
        PowerId::Entangled => {
            remove_this_power(state, owner, index);
        },
        _ => {},
    }
    proof {
        if state.player == old(state).player && state.monsters@ == old(state).monsters@ {
            lemma_owner_unchanged(*old(state), *state, owner, index as int);
        }
    }
}

/// Runs the start-of-turn hook of one power: Flight regrows to its full amount,
/// Necronomicon re-arms, Flame Barrier is removed, Berserk queues energy.
fn at_start_of_turn_hook(state: &mut CombatState, owner: CreatureIndex, index: usize)
    requires
        valid_hook(*old(state), owner, index as int),
    ensures
        hook_applied(*old(state), *final(state), owner, index as int, hook_effect_at(*old(state), owner, index as int, PowerHook::AtStartOfTurn)),
        hook_frame(*old(state), *final(state)),
{
    let p = get_power(state, owner, index);
    match p.power_id {
        PowerId::Flight => {
            let deficiency = p.misc.wrapping_sub(p.amount);
            if deficiency > 0 {
                action_top(state, apply_power_action(owner, owner, PowerId::Flight, deficiency));
            }
        },
        PowerId::Necronomicon => {
            set_power(state, owner, index, Power { amount: -1, ..p });
        },
        PowerId::FlameBarrier => {
            remove_this_power(state, owner, index);
        },
        PowerId::Berserk => {
            action_bottom(state, DynAction::GainEnergyAction(GainEnergyAction(p.amount)));
        },
        _ => {},
    }
    proof {
        if state.player == old(state).player && state.monsters@ == old(state).monsters@ {
            lemma_owner_unchanged(*old(state), *state, owner, index as int);
        }
    }
}

/// Runs the post-draw hook of one power: Demon Form queues Strength.
fn at_start_of_turn_post_draw_hook(state: &mut CombatState, owner: CreatureIndex, index: usize)
    requires
        valid_hook(*old(state), owner, index as int),
    ensures
        hook_applied(*old(state), *final(state), owner, index as int, hook_effect_at(*old(state), owner, index as int, PowerHook::AtStartOfTurnPostDraw)),
        hook_frame(*old(state), *final(state)),
{
    let p = get_power(state, owner, index);
    match p.power_id {
        PowerId::DemonForm => {
            action_bottom(state, apply_power_action(owner, owner, PowerId::Strength, p.amount));
        },
        _ => {},
    }
    proof {
        if state.player == old(state).player && state.monsters@ == old(state).monsters@ {
            lemma_owner_unchanged(*old(state), *state, owner, index as int);
        }
    }
}

/// Runs the card-played hook of one power.
fn on_use_card_hook(state: &mut CombatState, owner: CreatureIndex, index: usize, card: SingleCard)
    requires
        valid_hook(*old(state), owner, index as int),
    ensures
        hook_applied(*old(state), *final(state), owner, index as int, hook_effect_at(*old(state), owner, index as int, PowerHook::OnUseCard(card))),
        hook_frame(*old(state), *final(state)),
{
    let p = get_power(state, owner, index);
    let card_type = card.card_info().card_type;
    match p.power_id {
        PowerId::Enrage => {
            if card_type == CardType::Skill {
                action_top(state, apply_power_action(owner, owner, PowerId::Strength, p.amount));
            }
        },
        PowerId::SharpHide => {
            if card_type == CardType::Attack {
                let info = DamageInfoNoPowers::new(Some(owner), p.amount, DamageType::Thorns).ignore_powers();
                action_bottom(state, DynAction::DamageAction(DamageAction { target: CreatureIndex::Player, info }));
            }
        },
        PowerId::InkBottle => {
            let amount = p.amount.wrapping_add(1);
            if amount == 10 {
                set_power(state, owner, index, Power { amount: 0, ..p });
                let ghost mid = *state;
                action_bottom(state, DynAction::DrawCards(DrawCards(1)));
                proof {
                    lemma_creatures_kept(mid, *state);
                    lemma_others_unchanged_trans(*old(state), mid, *state, owner);
                }
            } else {
                set_power(state, owner, index, Power { amount, ..p });
            }
        },
        PowerId::PenNib => {
            if card_type == CardType::Attack {
                remove_this_power(state, owner, index);
            }
        },
        PowerId::Rage => {
            if card_type == CardType::Attack {
                action_bottom(state, DynAction::GainBlockAction(GainBlockAction { creature_index: owner, amount: p.amount }));
            }
        },
        _ => {},
    }
    proof {
        if state.player == old(state).player && state.monsters@ == old(state).monsters@ {
            lemma_owner_unchanged(*old(state), *state, owner, index as int);
        }
    }
}

/// Runs the attacked hook of one power, told the damage after block.
fn on_attacked_hook(state: &mut CombatState, owner: CreatureIndex, index: usize, info: DamageInfoAllPowers, damage: i32)
    requires
        valid_hook(*old(state), owner, index as int),
    ensures
        hook_applied(*old(state), *final(state), owner, index as int, hook_effect_at(*old(state), owner, index as int, PowerHook::OnAttacked(info, damage))),
        hook_frame(*old(state), *final(state)),
{
    let p = get_power(state, owner, index);
    let normal = info.damage_type == DamageType::Normal;
    match p.power_id {
        PowerId::Thorns | PowerId::FlameBarrier => {
            match info.owner {
                Some(attacker) => {
                    if attacker != owner && normal {
                        let thorns = DamageInfoNoPowers::new(Some(owner), p.amount, DamageType::Thorns).ignore_powers();
                        action_top(state, DynAction::DamageAction(DamageAction { target: attacker, info: thorns }));
                    }
                },
                None => {},
            }
        },
        PowerId::CurlUp => {
            let hitpoints = state.get_creature(owner).hitpoints;
            if p.amount > 0 && damage < hitpoints && normal {
                action_bottom(state, DynAction::GainBlockAction(GainBlockAction { creature_index: owner, amount: p.amount }));
                let ghost mid = *state;
                set_power(state, owner, index, Power { amount: 0, ..p });
                let ghost mid2 = *state;
                remove_this_power(state, owner, index);
                proof {
                    lemma_hook_frame_trans(*old(state), mid, mid2);
                    lemma_hook_frame_trans(*old(state), mid2, *state);
                    lemma_creatures_kept(*old(state), mid);
                    lemma_others_unchanged_trans(*old(state), mid, mid2, owner);
                    lemma_creatures_kept(mid2, *state);
                    lemma_others_unchanged_trans(*old(state), mid2, *state, owner);
                }
            }
        },
        PowerId::Angry => {
            if info.owner == Some(CreatureIndex::Player) && damage > 0 && normal {
                action_top(state, apply_power_action(owner, owner, PowerId::Strength, p.amount));
            }
        },
        PowerId::ModeShift => {
            if damage > 0 {
                action_top(state, DynAction::ReducePowerAction(ReducePowerAction { target: owner, power_id: p.power_id, amount: damage }));
            }
        },
        PowerId::Flight => {
            if info.owner.is_some() && damage > 0 && normal {
                reduce_this_power(state, owner, index);
            }
        },
        PowerId::PlatedArmor => {
            if damage > 0 && normal {
                reduce_this_power(state, owner, index);
            }
        },
        _ => {},
    }
    proof {
        if state.player == old(state).player && state.monsters@ == old(state).monsters@ {
            lemma_owner_unchanged(*old(state), *state, owner, index as int);
        }
    }
}

/// Runs the death hook of one power: Spore Cloud makes the player Vulnerable.
fn on_death_hook(state: &mut CombatState, owner: CreatureIndex, index: usize)
    requires
        valid_hook(*old(state), owner, index as int),
    ensures
        hook_applied(*old(state), *final(state), owner, index as int, hook_effect_at(*old(state), owner, index as int, PowerHook::OnDeath)),
        hook_frame(*old(state), *final(state)),
{
    let p = get_power(state, owner, index);
    match p.power_id {
        PowerId::SporeCloud => {
            action_top(state, apply_power_action(owner, CreatureIndex::Player, PowerId::Vulnerable, p.amount));
        },
        _ => {},
    }
    proof {
        if state.player == old(state).player && state.monsters@ == old(state).monsters@ {
            lemma_owner_unchanged(*old(state), *state, owner, index as int);
        }
    }
}

/// What a power that wears off by one queues at the front of the queue:
/// its removal once its amount is not positive, else taking one off it.
pub open spec fn wear_off_action(owner: CreatureIndex, power: Power) -> DynAction {
    if power.amount <= 0 {
        DynAction::RemoveSpecificPowerAction(RemoveSpecificPowerAction { target: owner, power_id: power.power_id })
    } else {
        DynAction::ReducePowerAction(ReducePowerAction { target: owner, power_id: power.power_id, amount: 1 })
    }
}

/// Runs the specific-trigger hook of one power: Artifact wears off by one.
pub(crate) fn on_specific_trigger_hook(state: &mut CombatState, owner: CreatureIndex, index: usize)
    requires
        valid_hook(*old(state), owner, index as int),
    ensures
        hook_applied(*old(state), *final(state), owner, index as int, hook_effect_at(*old(state), owner, index as int, PowerHook::OnSpecificTrigger)),
        hook_frame(*old(state), *final(state)),
        final(state).player == old(state).player,
        final(state).monsters@ == old(state).monsters@,
        final(state).actions@ == if power_at(*old(state), owner, index as int).power_id == PowerId::Artifact {
            seq![wear_off_action(owner, power_at(*old(state), owner, index as int))] + old(state).actions@
        } else {
            old(state).actions@
        },
{
    let p = get_power(state, owner, index);
    match p.power_id {
        PowerId::Artifact => {
            reduce_this_power(state, owner, index);
        },
        _ => {},
    }
    proof {
        if state.player == old(state).player && state.monsters@ == old(state).monsters@ {
            lemma_owner_unchanged(*old(state), *state, owner, index as int);
        }
    }
}

/// The hooks that powers run on game events.
#[derive(Clone, Copy, PartialEq, Eq, Debug, Structural)]
pub enum PowerHook {
    AtEndOfTurn,
    AtEndOfRound,
    AtStartOfTurn,
    AtStartOfTurnPostDraw,
    OnUseCard(SingleCard),
    OnAttacked(DamageInfoAllPowers, i32),
    OnDeath,
    OnSpecificTrigger,
}

/// Runs one hook of the power at `index` of `owner`.
pub fn power_hook(state: &mut CombatState, owner: CreatureIndex, index: usize, hook: PowerHook)
    requires
        valid_hook(*old(state), owner, index as int),
    ensures
        hook_applied(*old(state), *final(state), owner, index as int, hook_effect_at(*old(state), owner, index as int, hook)),
        hook_frame(*old(state), *final(state)),
{
    match hook {
        PowerHook::AtEndOfTurn => at_end_of_turn_hook(state, owner, index),
        PowerHook::AtEndOfRound => at_end_of_round_hook(state, owner, index),
        PowerHook::AtStartOfTurn => at_start_of_turn_hook(state, owner, index),
        PowerHook::AtStartOfTurnPostDraw => at_start_of_turn_post_draw_hook(state, owner, index),
        PowerHook::OnUseCard(card) => on_use_card_hook(state, owner, index, card),
        PowerHook::OnAttacked(info, damage) => on_attacked_hook(state, owner, index, info, damage),
        PowerHook::OnDeath => on_death_hook(state, owner, index),
        PowerHook::OnSpecificTrigger => on_specific_trigger_hook(state, owner, index),
    }
}

/// The powers of a creature after one hook of each ran: each is what its hook leaves.
pub open spec fn hooked_powers(owner: CreatureIndex, powers: Seq<Power>, hitpoints: i32, hook: PowerHook) -> Seq<Power> {
    powers.map_values(|p: Power| spec_hook_effect(owner, p, hitpoints, hook).0)
}

/// What one hook of each power queues at the front of the main queue, the last power's
/// actions first.
pub open spec fn hooks_front(owner: CreatureIndex, powers: Seq<Power>, hitpoints: i32, hook: PowerHook) -> Seq<DynAction>
    decreases powers.len(),
{
    if powers.len() == 0 {
        Seq::empty()
    } else {
        spec_hook_effect(owner, powers.last(), hitpoints, hook).1 + hooks_front(owner, powers.drop_last(), hitpoints, hook)
    }
}

/// What one hook of each power queues at the back of the main queue, in order.
pub open spec fn hooks_back(owner: CreatureIndex, powers: Seq<Power>, hitpoints: i32, hook: PowerHook) -> Seq<DynAction>
    decreases powers.len(),
{
    if powers.len() == 0 {
        Seq::empty()
    } else {
        hooks_back(owner, powers.drop_last(), hitpoints, hook) + spec_hook_effect(owner, powers.last(), hitpoints, hook).2
    }
}

/// One hook of every power of `owner` ran, in order (see `spec_hook_effect`).
pub open spec fn creature_hooks_ran(a: CombatState, b: CombatState, owner: CreatureIndex, hook: PowerHook) -> bool {
    let powers = a.creature(owner).powers@;
    let hitpoints = a.creature(owner).hitpoints;
    &&& hook_frame(a, b)
    &&& b.creature(owner).powers@ =~= hooked_powers(owner, powers, hitpoints, hook)
    &&& forall|o: CreatureIndex|
        o != owner && a.valid_creature_index(o) ==> #[trigger] b.creature(o) == a.creature(o)
    &&& b.actions@ =~= hooks_front(owner, powers, hitpoints, hook) + a.actions@ + hooks_back(owner, powers, hitpoints, hook)
}

/// Runs one hook of every power of a creature, in order.
pub fn creature_power_hooks(state: &mut CombatState, owner: CreatureIndex, hook: PowerHook)
    requires
        old(state).valid_creature_index(owner),
    ensures
        creature_hooks_ran(*old(state), *final(state), owner, hook),
{
    let ghost powers = old(state).creature(owner).powers@;
    let ghost hitpoints = old(state).creature(owner).hitpoints;
    let count = state.get_creature(owner).powers.len();
    let mut index: usize = 0;
    while index < count
        invariant
            hook_frame(*old(state), *state),
            old(state).valid_creature_index(owner),
            powers == old(state).creature(owner).powers@,
            hitpoints == old(state).creature(owner).hitpoints,
            count == powers.len(),
            index <= count,
            state.creature(owner).powers@ =~= hooked_powers(owner, powers.subrange(0, index as int), hitpoints, hook)
                + powers.subrange(index as int, count as int),
            forall|o: CreatureIndex|
                o != owner && old(state).valid_creature_index(o) ==> #[trigger] state.creature(o) == old(state).creature(o),
            state.actions@ =~= hooks_front(owner, powers.subrange(0, index as int), hitpoints, hook) + old(state).actions@
                + hooks_back(owner, powers.subrange(0, index as int), hitpoints, hook),
        decreases count - index,
    {
        proof {
            assert(powers_frame(old(state).creature(owner).powers@, state.creature(owner).powers@)) by {
                match owner {
                    CreatureIndex::Player => {},
                    CreatureIndex::Monster(i) => {
                        assert(monster_frame(old(state).monsters@[i as int], state.monsters@[i as int]));
                    },
                }
            }
        }
        let ghost before = *state;
        power_hook(state, owner, index, hook);
        proof {
            lemma_hook_frame_trans(*old(state), before, *state);
            lemma_others_unchanged_trans(*old(state), before, *state, owner);
            let i = index as int;
            assert(power_at(before, owner, i) == powers[i]);
            assert(before.creature(owner).hitpoints == hitpoints) by {
                match owner {
                    CreatureIndex::Player => {},
                    CreatureIndex::Monster(m) => {
                        assert(monster_frame(old(state).monsters@[m as int], before.monsters@[m as int]));
                    },
                }
            }
            let done = powers.subrange(0, i + 1);
            assert(done.drop_last() =~= powers.subrange(0, i));
            assert(done.last() == powers[i]);
            assert(hooked_powers(owner, done, hitpoints, hook) =~= hooked_powers(owner, powers.subrange(0, i), hitpoints, hook).push(
                spec_hook_effect(owner, powers[i], hitpoints, hook).0,
            ));
        }
        index = index + 1;
    }
    proof {
        assert(powers.subrange(0, count as int) =~= powers);
    }
}

/// The power lists the monsters before `n` hold after one hook of every power of every
/// monster still present ran.
pub open spec fn monsters_hooked(monsters: Seq<Monster>, hook: PowerHook, j: int) -> Seq<Power> {
    let m = monsters[j];
    if m.gone {
        m.creature.powers@
    } else {
        hooked_powers(CreatureIndex::Monster(j as usize), m.creature.powers@, m.creature.hitpoints, hook)
    }
}

/// What one hook of every power of the monsters before `n` that are still present queues
/// at the front of the main queue, the last monster's first.
pub open spec fn monsters_hooks_front(monsters: Seq<Monster>, hook: PowerHook, n: int) -> Seq<DynAction>
    decreases n,
{
    if n <= 0 {
        Seq::empty()
    } else {
        let m = monsters[n - 1];
        (if m.gone {
            Seq::empty()
        } else {
            hooks_front(CreatureIndex::Monster((n - 1) as usize), m.creature.powers@, m.creature.hitpoints, hook)
        }) + monsters_hooks_front(monsters, hook, n - 1)
    }
}

/// What one hook of every power of the monsters before `n` that are still present queues
/// at the back of the main queue, in order.
pub open spec fn monsters_hooks_back(monsters: Seq<Monster>, hook: PowerHook, n: int) -> Seq<DynAction>
    decreases n,
{
    if n <= 0 {
        Seq::empty()
    } else {
        let m = monsters[n - 1];
        monsters_hooks_back(monsters, hook, n - 1) + (if m.gone {
            Seq::empty()
        } else {
            hooks_back(CreatureIndex::Monster((n - 1) as usize), m.creature.powers@, m.creature.hitpoints, hook)
        })
    }
}

/// One hook of every power of every monster still present ran, monster by monster.
pub open spec fn monsters_hooks_ran(a: CombatState, b: CombatState, hook: PowerHook) -> bool {
    let n = a.monsters@.len() as int;
    &&& hook_frame(a, b)
    &&& b.player == a.player
    &&& forall|j: int| 0 <= j < n ==> (#[trigger] b.monsters@[j]).creature.powers@ =~= monsters_hooked(a.monsters@, hook, j)
    &&& b.actions@ =~= monsters_hooks_front(a.monsters@, hook, n) + a.actions@ + monsters_hooks_back(a.monsters@, hook, n)
}

/// Runs one hook of every power of every monster still present.
pub fn all_monsters_power_hooks(state: &mut CombatState, hook: PowerHook)
    ensures
        monsters_hooks_ran(*old(state), *final(state), hook),
{
    let ghost monsters = old(state).monsters@;
    let count = state.monsters.len();
    let mut index: usize = 0;
    while index < count
        invariant
            hook_frame(*old(state), *state),
            monsters == old(state).monsters@,
            count == monsters.len(),
            index <= count,
            state.player == old(state).player,
            forall|j: int| 0 <= j < index ==> (#[trigger] state.monsters@[j]).creature.powers@ =~= monsters_hooked(monsters, hook, j),
            forall|j: int| index <= j < count ==> (#[trigger] state.monsters@[j]).creature.powers@ == monsters[j].creature.powers@,
            state.actions@ =~= monsters_hooks_front(monsters, hook, index as int) + old(state).actions@
                + monsters_hooks_back(monsters, hook, index as int),
        decreases count - index,
    {
        let ghost before = *state;
        let ghost i = index as int;
        assert(monster_frame(monsters[i], before.monsters@[i]));
        if !state.monsters[index].gone {
            creature_power_hooks(state, CreatureIndex::Monster(index), hook);
            proof {
                lemma_hook_frame_trans(*old(state), before, *state);
                assert(state.creature(CreatureIndex::Player) == before.creature(CreatureIndex::Player));
                assert forall|j: int| 0 <= j < count && j != i implies (#[trigger] state.monsters@[j]).creature.powers@
                    == before.monsters@[j].creature.powers@ by {
                    assert(state.creature(CreatureIndex::Monster(j as usize)) == before.creature(CreatureIndex::Monster(j as usize)));
                }
            }
        }
        index = index + 1;
    }
}

/// What the monsters' hooks do depends only on which monsters are present and on their
/// creatures.
proof fn lemma_monsters_hooks_same(a: Seq<Monster>, b: Seq<Monster>, hook: PowerHook, n: int)
    requires
        0 <= n <= a.len(),
        a.len() == b.len(),
        forall|j: int| 0 <= j < a.len() ==> (#[trigger] b[j]).creature == a[j].creature && b[j].gone == a[j].gone,
    ensures
        monsters_hooks_front(b, hook, n) == monsters_hooks_front(a, hook, n),
        monsters_hooks_back(b, hook, n) == monsters_hooks_back(a, hook, n),
    decreases n,
{
    if n > 0 {
        lemma_monsters_hooks_same(a, b, hook, n - 1);
        assert(b[n - 1].creature == a[n - 1].creature);
    }
}

/// One hook of every power of the player ran, then of every monster still present:
/// each power is what its hook leaves, and the monsters' front actions end up before the
/// player's, the player's back actions before the monsters'.
pub open spec fn all_hooks_ran(a: CombatState, b: CombatState, hook: PowerHook) -> bool {
    let player = a.player.creature;
    let n = a.monsters@.len() as int;
    &&& hook_frame(a, b)
    &&& b.player.creature.powers@ =~= hooked_powers(CreatureIndex::Player, player.powers@, player.hitpoints, hook)
    &&& forall|j: int| 0 <= j < n ==> (#[trigger] b.monsters@[j]).creature.powers@ =~= monsters_hooked(a.monsters@, hook, j)
    &&& b.actions@ =~= monsters_hooks_front(a.monsters@, hook, n) + hooks_front(
        CreatureIndex::Player,
        player.powers@,
        player.hitpoints,
        hook,
    ) + a.actions@ + hooks_back(CreatureIndex::Player, player.powers@, player.hitpoints, hook)
        + monsters_hooks_back(a.monsters@, hook, n)
}

/// Runs one hook of every power of the player and then of every monster still present.
pub fn all_creatures_power_hooks(state: &mut CombatState, hook: PowerHook)
    ensures
        all_hooks_ran(*old(state), *final(state), hook),
{
    creature_power_hooks(state, CreatureIndex::Player, hook);
    let ghost mid = *state;
    proof {
        assert(old(state).monsters@.len() <= usize::MAX) by {
            assert(old(state).monsters@.len() == old(state).monsters.len());
        }
        assert forall|j: int| 0 <= j < old(state).monsters@.len() implies (#[trigger] mid.monsters@[j]).creature
            == old(state).monsters@[j].creature && mid.monsters@[j].gone == old(state).monsters@[j].gone by {
            assert(mid.creature(CreatureIndex::Monster(j as usize)) == old(state).creature(CreatureIndex::Monster(j as usize)));
            assert(monster_frame(old(state).monsters@[j], mid.monsters@[j]));
        }
        lemma_monsters_hooks_same(old(state).monsters@, mid.monsters@, hook, old(state).monsters@.len() as int);
    }
    all_monsters_power_hooks(state, hook);
    proof {
        lemma_hook_frame_trans(*old(state), mid, *state);
        assert forall|j: int| 0 <= j < old(state).monsters@.len() implies (#[trigger] state.monsters@[j]).creature.powers@
            =~= monsters_hooked(old(state).monsters@, hook, j) by {
            assert(mid.monsters@[j].creature == old(state).monsters@[j].creature);
        }
    }
}

} // verus!
