use borg_the_spire::action_effects::{
    apply_power, damage, gain_block, reduce_power_action, remove_specific_power, sort_by_priority,
    start_creature_turn,
};
use borg_the_spire::actions::{
    DynAction, GainBlockAction, GainEnergyAction, ReducePowerAction, RemoveSpecificPowerAction,
};
use borg_the_spire::simulation::{CreatureIndex, DamageInfoNoPowers, DamageType};
use borg_the_spire::simulation_state::{
    CombatState, Creature, Monster, MonsterId, Player, Power, PowerId, SingleCard,
};
use std::collections::VecDeque;

fn power(id: PowerId, amount: i32) -> Power {
    Power { power_id: id, amount, damage: 0, card: None, misc: 0, just_applied: false }
}

fn creature(hitpoints: i32, block: i32, powers: Vec<Power>) -> Creature {
    Creature { hitpoints, max_hitpoints: hitpoints, block, powers }
}

fn monster(id: MonsterId, hitpoints: i32, powers: Vec<Power>) -> Monster {
    Monster {
        monster_id: id,
        innate_damage_amount: None,
        ascension: 0,
        creature: creature(hitpoints, 0, powers),
        move_history: vec![1],
        gone: false,
    }
}

fn combat(player_powers: Vec<Power>, monsters: Vec<Monster>) -> CombatState {
    CombatState {
        draw_pile: Vec::new(),
        discard_pile: Vec::new(),
        exhaust_pile: Vec::new(),
        hand: Vec::<SingleCard>::new(),
        limbo: Vec::new(),
        card_in_play: None,
        player: Player { creature: creature(80, 0, player_powers), energy: 3 },
        monsters,
        turn_number: 1,
        turn_has_ended: false,
        fresh_subaction_queue: Vec::new(),
        stale_subaction_stack: Vec::new(),
        actions: VecDeque::new(),
        num_reshuffles: 0,
        num_actions: 0,
        num_choices: 0,
    }
}

#[test]
fn damage_info_without_powers_keeps_its_base() {
    let info = DamageInfoNoPowers::new(Some(CreatureIndex::Player), 7, DamageType::Thorns);
    assert_eq!(info.base, 7);
    assert_eq!(info.owner, Some(CreatureIndex::Player));
    let all = info.ignore_powers();
    assert_eq!(all.output, 7);
    assert_eq!(all.base, 7);
    assert_eq!(all.damage_type, DamageType::Thorns);
}

#[test]
fn strength_weak_and_vulnerable_shape_damage() {
    // (6 + 2 strength) * 3/4 weak = 6, * 3/2 vulnerable = 9
    let state = combat(
        vec![power(PowerId::Strength, 2), power(PowerId::Weak, 1)],
        vec![monster(MonsterId::JawWorm, 40, vec![power(PowerId::Vulnerable, 2)])],
    );
    let info = DamageInfoNoPowers::new(Some(CreatureIndex::Player), 6, DamageType::Normal);
    let out = info.apply_all_powers(&state, CreatureIndex::Monster(0));
    assert_eq!(out.output, 9);
    // flight halves what gets through, rounding down: 7 / 2 = 3
    let flying = combat(vec![], vec![monster(MonsterId::Byrd, 25, vec![power(PowerId::Flight, 3)])]);
    let info = DamageInfoNoPowers::new(Some(CreatureIndex::Player), 7, DamageType::Normal);
    assert_eq!(info.apply_all_powers(&flying, CreatureIndex::Monster(0)).output, 3);
}

#[test]
fn thorns_damage_ignores_strength() {
    let state = combat(vec![power(PowerId::Strength, 5)], vec![monster(MonsterId::JawWorm, 40, vec![])]);
    let info = DamageInfoNoPowers::new(Some(CreatureIndex::Player), 4, DamageType::Thorns);
    assert_eq!(info.apply_all_powers(&state, CreatureIndex::Monster(0)).output, 4);
}

#[test]
fn negative_damage_is_no_damage() {
    let state = combat(vec![power(PowerId::Strength, -10)], vec![monster(MonsterId::JawWorm, 40, vec![])]);
    let info = DamageInfoNoPowers::new(Some(CreatureIndex::Player), 4, DamageType::Normal);
    assert_eq!(info.apply_all_powers(&state, CreatureIndex::Monster(0)).output, 0);
}

#[test]
fn block_absorbs_damage_first() {
    let mut state = combat(vec![], vec![monster(MonsterId::JawWorm, 40, vec![])]);
    state.player.creature.block = 5;
    let info = DamageInfoNoPowers::new(Some(CreatureIndex::Monster(0)), 8, DamageType::Normal).ignore_powers();
    damage(&mut state, CreatureIndex::Player, info);
    assert_eq!(state.player.creature.block, 0);
    assert_eq!(state.player.creature.hitpoints, 77);
    let mut state = combat(vec![], vec![monster(MonsterId::JawWorm, 40, vec![])]);
    state.player.creature.block = 10;
    damage(&mut state, CreatureIndex::Player, info);
    assert_eq!(state.player.creature.block, 2);
    assert_eq!(state.player.creature.hitpoints, 80);
}

#[test]
fn lethal_damage_removes_a_monster_and_runs_its_death_hooks() {
    let mut state = combat(vec![], vec![monster(MonsterId::FungiBeast, 5, vec![power(PowerId::SporeCloud, 2)])]);
    let info = DamageInfoNoPowers::new(Some(CreatureIndex::Player), 9, DamageType::Normal).ignore_powers();
    damage(&mut state, CreatureIndex::Monster(0), info);
    assert_eq!(state.monsters[0].creature.hitpoints, 0);
    assert!(state.monsters[0].gone);
    assert_eq!(state.actions.len(), 1);
    match state.actions[0] {
        DynAction::ApplyPowerAction(a) => {
            assert_eq!(a.target, CreatureIndex::Player);
            assert_eq!(a.power_id, PowerId::Vulnerable);
            assert_eq!(a.amount, 2);
        }
        _ => panic!("expected the spore cloud's vulnerable"),
    }
}

#[test]
fn damage_accounting_on_concrete_values() {
    // 12 damage against 5 block and 10 hitpoints: 5 block and 7 hitpoints are lost
    let mut state = combat(vec![], vec![monster(MonsterId::JawWorm, 10, vec![])]);
    state.monsters[0].creature.block = 5;
    let info = DamageInfoNoPowers::new(Some(CreatureIndex::Player), 12, DamageType::Normal).ignore_powers();
    damage(&mut state, CreatureIndex::Monster(0), info);
    assert_eq!(state.monsters[0].creature.block, 0);
    assert_eq!(state.monsters[0].creature.hitpoints, 3);
    assert!(!state.monsters[0].gone);
}

#[test]
fn thorns_strike_back_at_attackers() {
    let mut state = combat(vec![power(PowerId::Thorns, 3)], vec![monster(MonsterId::JawWorm, 40, vec![])]);
    let info = DamageInfoNoPowers::new(Some(CreatureIndex::Monster(0)), 5, DamageType::Normal).ignore_powers();
    damage(&mut state, CreatureIndex::Player, info);
    assert_eq!(state.player.creature.hitpoints, 75);
    assert_eq!(state.actions.len(), 1);
    match state.actions[0] {
        DynAction::DamageAction(a) => {
            assert_eq!(a.target, CreatureIndex::Monster(0));
            assert_eq!(a.info.output, 3);
            assert_eq!(a.info.damage_type, DamageType::Thorns);
        }
        _ => panic!("expected thorns damage"),
    }
}

#[test]
fn applied_powers_stack_or_join_in_priority_order() {
    let mut state = combat(vec![power(PowerId::Strength, 2)], vec![monster(MonsterId::JawWorm, 40, vec![])]);
    apply_power(&mut state, CreatureIndex::Player, PowerId::Strength, 3);
    assert_eq!(state.player.creature.powers.len(), 1);
    assert_eq!(state.player.creature.powers[0].amount, 5);
    // Weak (priority 99) goes after Frail (10), which goes after Strength (5)
    apply_power(&mut state, CreatureIndex::Player, PowerId::Weak, 1);
    apply_power(&mut state, CreatureIndex::Player, PowerId::Frail, 2);
    let ids: Vec<PowerId> = state.player.creature.powers.iter().map(|p| p.power_id).collect();
    assert_eq!(ids, vec![PowerId::Strength, PowerId::Frail, PowerId::Weak]);
}

#[test]
fn strength_is_clamped_when_stacked() {
    let mut state = combat(vec![power(PowerId::Strength, 990)], vec![monster(MonsterId::JawWorm, 40, vec![])]);
    apply_power(&mut state, CreatureIndex::Player, PowerId::Strength, 50);
    assert_eq!(state.player.creature.powers[0].amount, 999);
}

#[test]
fn artifact_blocks_a_debuff_and_wears_off() {
    let mut state = combat(vec![], vec![monster(MonsterId::JawWorm, 40, vec![power(PowerId::Artifact, 1)])]);
    apply_power(&mut state, CreatureIndex::Monster(0), PowerId::Weak, 2);
    assert_eq!(state.monsters[0].creature.powers.len(), 1);
    assert_eq!(
        state.actions[0],
        DynAction::ReducePowerAction(ReducePowerAction {
            target: CreatureIndex::Monster(0),
            power_id: PowerId::Artifact,
            amount: 1
        })
    );
    // a buff is not blocked
    apply_power(&mut state, CreatureIndex::Monster(0), PowerId::Strength, 2);
    assert_eq!(state.monsters[0].creature.powers.len(), 2);
}

#[test]
fn powers_on_gone_monsters_are_ignored() {
    let mut state = combat(vec![], vec![monster(MonsterId::JawWorm, 40, vec![])]);
    state.monsters[0].gone = true;
    apply_power(&mut state, CreatureIndex::Monster(0), PowerId::Weak, 2);
    assert_eq!(state.monsters[0].creature.powers.len(), 0);
}

#[test]
fn powers_applied_after_the_turn_ends_are_marked() {
    let mut state = combat(vec![], vec![monster(MonsterId::JawWorm, 40, vec![])]);
    state.turn_has_ended = true;
    apply_power(&mut state, CreatureIndex::Monster(0), PowerId::Ritual, 3);
    assert!(state.monsters[0].creature.powers[0].just_applied);
}

#[test]
fn reducing_a_power_takes_amount_off_or_queues_its_removal() {
    let mut state = combat(vec![power(PowerId::Vulnerable, 3)], vec![monster(MonsterId::JawWorm, 40, vec![])]);
    reduce_power_action(&mut state, CreatureIndex::Player, PowerId::Vulnerable, 1);
    assert_eq!(state.player.creature.powers[0].amount, 2);
    reduce_power_action(&mut state, CreatureIndex::Player, PowerId::Vulnerable, 2);
    assert_eq!(state.player.creature.powers[0].amount, 2);
    assert_eq!(
        state.actions[0],
        DynAction::RemoveSpecificPowerAction(RemoveSpecificPowerAction {
            target: CreatureIndex::Player,
            power_id: PowerId::Vulnerable
        })
    );
    remove_specific_power(&mut state, CreatureIndex::Player, PowerId::Vulnerable);
    assert!(state.player.creature.powers.is_empty());
}

#[test]
fn block_gains_only_positive_amounts() {
    let mut state = combat(vec![], vec![monster(MonsterId::JawWorm, 40, vec![])]);
    gain_block(&mut state, CreatureIndex::Player, 6);
    gain_block(&mut state, CreatureIndex::Player, -4);
    assert_eq!(state.player.creature.block, 6);
}

#[test]
fn barricade_keeps_block_at_the_start_of_a_turn() {
    let mut state = combat(vec![], vec![monster(MonsterId::JawWorm, 40, vec![])]);
    state.player.creature.block = 9;
    start_creature_turn(&mut state, CreatureIndex::Player);
    assert_eq!(state.player.creature.block, 0);
    let mut state = combat(vec![power(PowerId::Barricade, -1)], vec![monster(MonsterId::JawWorm, 40, vec![])]);
    state.player.creature.block = 9;
    start_creature_turn(&mut state, CreatureIndex::Player);
    assert_eq!(state.player.creature.block, 9);
}

#[test]
fn sorting_powers_keeps_equal_priorities_in_order() {
    let powers = vec![
        power(PowerId::Weak, 1),
        power(PowerId::Strength, 1),
        power(PowerId::PenNib, 1),
        power(PowerId::Dexterity, 1),
        power(PowerId::Frail, 1),
    ];
    let sorted = sort_by_priority(&powers);
    let ids: Vec<PowerId> = sorted.iter().map(|p| p.power_id).collect();
    assert_eq!(
        ids,
        vec![PowerId::Strength, PowerId::Dexterity, PowerId::PenNib, PowerId::Frail, PowerId::Weak]
    );
}

#[test]
fn curl_up_blocks_once_when_first_hit() {
    let mut state = combat(vec![], vec![monster(MonsterId::JawWorm, 20, vec![power(PowerId::CurlUp, 7)])]);
    let info = DamageInfoNoPowers::new(Some(CreatureIndex::Player), 5, DamageType::Normal).ignore_powers();
    damage(&mut state, CreatureIndex::Monster(0), info);
    assert_eq!(state.monsters[0].creature.hitpoints, 15);
    assert_eq!(state.monsters[0].creature.powers[0].amount, 0);
    assert_eq!(state.actions.len(), 2);
    match state.actions[0] {
        DynAction::RemoveSpecificPowerAction(RemoveSpecificPowerAction { target, power_id }) => {
            assert_eq!(target, CreatureIndex::Monster(0));
            assert_eq!(power_id, PowerId::CurlUp);
        }
        _ => panic!("expected curl up to remove itself first"),
    }
    match state.actions[1] {
        DynAction::GainBlockAction(GainBlockAction { creature_index, amount }) => {
            assert_eq!(creature_index, CreatureIndex::Monster(0));
            assert_eq!(amount, 7);
        }
        _ => panic!("expected curl up's block last"),
    }
}

#[test]
fn turn_start_hooks_queue_energy_then_strength() {
    let mut state = combat(
        vec![power(PowerId::Berserk, 1), power(PowerId::DemonForm, 3)],
        vec![monster(MonsterId::JawWorm, 40, vec![])],
    );
    start_creature_turn(&mut state, CreatureIndex::Player);
    assert_eq!(state.actions.len(), 2);
    assert!(matches!(state.actions[0], DynAction::GainEnergyAction(GainEnergyAction(1))));
    match state.actions[1] {
        DynAction::ApplyPowerAction(a) => {
            assert_eq!(a.target, CreatureIndex::Player);
            assert_eq!(a.power_id, PowerId::Strength);
            assert_eq!(a.amount, 3);
        }
        _ => panic!("expected demon form's strength"),
    }
}
