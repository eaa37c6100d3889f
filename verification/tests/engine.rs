use borg_the_spire::actions::{
    ChooseMonsterIntent, DrawCardRandom, DynAction, EndTurn, FinishMonsterTurn, PlayCard,
    StartMonsterTurn,
};
use borg_the_spire::runner::{can_apply, Determinism};
use borg_the_spire::simulation::CreatureIndex;
use borg_the_spire::simulation_state::{
    CardId, CombatState, Creature, Monster, MonsterId, Player, Power, PowerId, SingleCard,
};
use std::collections::VecDeque;

fn power(id: PowerId, amount: i32) -> Power {
    Power { power_id: id, amount, damage: 0, card: None, misc: 0, just_applied: false }
}

fn creature(hitpoints: i32, powers: Vec<Power>) -> Creature {
    Creature { hitpoints, max_hitpoints: hitpoints, block: 0, powers }
}

fn byrd(hitpoints: i32) -> Monster {
    Monster {
        monster_id: MonsterId::Byrd,
        innate_damage_amount: None,
        ascension: 0,
        creature: creature(hitpoints, vec![power(PowerId::Flight, 3)]),
        move_history: vec![1],
        gone: false,
    }
}

fn combat(hand: Vec<SingleCard>, monsters: Vec<Monster>) -> CombatState {
    CombatState {
        draw_pile: Vec::new(),
        discard_pile: Vec::new(),
        exhaust_pile: Vec::new(),
        hand,
        limbo: Vec::new(),
        card_in_play: None,
        player: Player { creature: creature(80, vec![]), energy: 3 },
        monsters,
        turn_number: 1,
        turn_has_ended: false,
        fresh_subaction_queue: Vec::new(),
        stale_subaction_stack: Vec::new(),
        actions: VecDeque::new(),
        num_reshuffles: 0,
        num_actions: 0,
        num_choices: 0,
    }
}

#[test]
fn legal_choices_list_each_distinct_playable_card_per_target() {
    let strike = SingleCard::create(CardId::StrikeR);
    let defend = SingleCard::create(CardId::DefendR);
    let bash = SingleCard::create(CardId::Bash);
    let mut state = combat(vec![strike, strike, defend, bash], vec![byrd(25), byrd(25)]);
    state.monsters[1].gone = true;
    state.player.energy = 1;
    let choices = state.legal_choices();
    assert_eq!(
        choices,
        vec![
            DynAction::EndTurn(EndTurn),
            DynAction::PlayCard(PlayCard { card: strike, target: 0 }),
            DynAction::PlayCard(PlayCard { card: defend, target: 0 }),
        ]
    );
}

#[test]
fn entangled_players_cannot_attack() {
    let strike = SingleCard::create(CardId::StrikeR);
    let mut state = combat(vec![strike], vec![byrd(25)]);
    state.player.creature.powers.push(power(PowerId::Entangled, 1));
    assert!(!state.card_playable(&strike));
    assert_eq!(state.legal_choices(), vec![DynAction::EndTurn(EndTurn)]);
}

#[test]
fn clash_needs_a_hand_of_attacks() {
    let clash = SingleCard::create(CardId::Clash);
    let defend = SingleCard::create(CardId::DefendR);
    let state = combat(vec![clash, defend], vec![byrd(25)]);
    assert!(!state.card_playable(&clash));
    let state = combat(vec![clash], vec![byrd(25)]);
    assert!(state.card_playable(&clash));
}

#[test]
fn playing_a_strike_on_a_flying_byrd() {
    let strike = SingleCard::create(CardId::StrikeR);
    let mut state = combat(vec![strike], vec![byrd(25)]);
    state.apply_choice(DynAction::PlayCard(PlayCard { card: strike, target: 0 }));
    // 6 damage halved by flight, and flight loses one stack
    assert_eq!(state.monsters[0].creature.hitpoints, 22);
    assert_eq!(state.monsters[0].creature.powers[0].amount, 2);
    assert_eq!(state.player.energy, 2);
    assert!(state.hand.is_empty());
    assert_eq!(state.discard_pile, vec![strike]);
    assert_eq!(state.card_in_play, None);
    assert_eq!(state.num_choices, 1);
    assert_eq!(state.num_actions, 4);
    assert!(state.actions.is_empty());
    assert!(state.choice_next());
}

#[test]
fn killing_the_last_monster_ends_the_combat() {
    let strike = SingleCard::create(CardId::StrikeR);
    let mut state = combat(vec![strike], vec![byrd(2)]);
    state.apply_choice(DynAction::PlayCard(PlayCard { card: strike, target: 0 }));
    assert!(state.monsters[0].gone);
    assert!(state.combat_over());
    assert!(!state.choice_next());
}

#[test]
fn ending_the_turn_runs_the_monsters_until_a_random_intent() {
    let strike = SingleCard::create(CardId::StrikeR);
    let mut state = combat(vec![strike], vec![byrd(25)]);
    state.apply_choice(DynAction::EndTurn(EndTurn));
    // the byrd pecks five times for 1
    assert_eq!(state.player.creature.hitpoints, 75);
    assert_eq!(state.discard_pile, vec![strike]);
    assert!(state.hand.is_empty());
    // its next intent is left to chance
    assert_eq!(
        state.stale_subaction_stack,
        vec![DynAction::ChooseMonsterIntent(ChooseMonsterIntent(0))]
    );
    assert_eq!(
        state.actions.iter().cloned().collect::<Vec<_>>(),
        vec![DynAction::FinishMonsterTurn(FinishMonsterTurn(1))]
    );
    assert!(!state.choice_next());
    let top = state.stale_subaction_stack[0];
    assert!(!can_apply(&state, &top));
    match top.determinism(&state) {
        Determinism::Random(d) => {
            let values: Vec<i32> = d.0.iter().map(|e| e.1).collect();
            assert!(values.contains(&1));
            assert!(values.contains(&2));
            assert!(values.contains(&0));
            let total: u64 = d.0.iter().map(|e| e.0).sum();
            assert!(total <= 1_000_000 && total > 999_000);
        }
        _ => panic!("the byrd's intent should be random"),
    }
    // an outcome the intent cannot take is refused
    assert!(!state.resolve_random(4));
    // choosing Swoop lets the turn end and the next one begin
    assert!(state.resolve_random(2));
    assert_eq!(state.monsters[0].move_history, vec![1, 2]);
    assert_eq!(state.turn_number, 2);
    assert!(!state.turn_has_ended);
    assert_eq!(state.player.energy, 3);
    // the strike was reshuffled into the draw pile and drawn
    assert_eq!(state.hand, vec![strike]);
    assert!(state.discard_pile.is_empty());
    assert!(state.choice_next());
}

#[test]
fn drawing_from_several_cards_waits_for_an_outcome() {
    let strike = SingleCard::create(CardId::StrikeR);
    let defend = SingleCard::create(CardId::DefendR);
    let mut state = combat(vec![], vec![byrd(25)]);
    state.draw_pile = vec![strike, defend];
    state.actions.push_back(DynAction::DrawCards(borg_the_spire::actions::DrawCards(1)));
    state.run_until_unable();
    assert_eq!(state.stale_subaction_stack.last(), Some(&DynAction::DrawCardRandom(DrawCardRandom)));
    assert!(state.resolve_random(1));
    assert_eq!(state.hand, vec![defend]);
    assert_eq!(state.draw_pile, vec![strike]);
    assert!(state.stale_subaction_stack.is_empty());
}

#[test]
fn burns_left_in_hand_hurt_at_the_end_of_the_turn() {
    let burn = SingleCard::create(CardId::Burn);
    let mut state = combat(vec![burn], vec![byrd(25)]);
    state.monsters[0].move_history = vec![2];
    state.apply_choice(DynAction::EndTurn(EndTurn));
    // 12 from the swoop and 2 from the burn
    assert_eq!(state.player.creature.hitpoints, 66);
}

#[test]
fn defend_gives_block_after_dexterity() {
    let defend = SingleCard::create(CardId::DefendR);
    let mut state = combat(vec![defend], vec![byrd(25)]);
    state.player.creature.powers.push(power(PowerId::Dexterity, 2));
    state.apply_choice(DynAction::PlayCard(PlayCard { card: defend, target: 0 }));
    assert_eq!(state.player.creature.block, 7);
    assert_eq!(state.monsters[0].creature.hitpoints, 25);
    let _ = CreatureIndex::Player;
}

#[test]
fn creatures_can_be_changed_in_place() {
    let mut state = combat(Vec::new(), vec![byrd(25), byrd(30)]);
    state.get_creature_mut(CreatureIndex::Monster(1)).block = 6;
    state.get_creature_mut(CreatureIndex::Player).hitpoints = 12;
    assert_eq!(state.get_creature(CreatureIndex::Monster(1)).block, 6);
    assert_eq!(state.monsters[0].creature.block, 0);
    assert_eq!(state.player.creature.hitpoints, 12);
    assert_eq!(state.monsters[1].creature.hitpoints, 30);
}

#[test]
fn a_choice_at_the_action_limit_is_still_applied() {
    let strike = SingleCard::create(CardId::StrikeR);
    let mut state = combat(vec![strike], vec![byrd(25)]);
    state.num_actions = 10000;
    assert!(state.combat_over());
    state.apply_choice(DynAction::EndTurn(EndTurn));
    assert_eq!(state.num_choices, 1);
    assert_eq!(state.num_actions, 10001);
    assert!(state.hand.is_empty());
    assert_eq!(state.discard_pile, vec![strike]);
    // the monsters' turn waits, as the combat is over
    assert_eq!(
        state.fresh_subaction_queue,
        vec![DynAction::StartMonsterTurn(StartMonsterTurn(0))]
    );
    assert_eq!(state.player.creature.hitpoints, 80);
    assert!(state.well_formed());
}
