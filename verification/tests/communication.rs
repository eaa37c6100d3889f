use borg_the_spire::communication_mod_state as communication;
use borg_the_spire::simulation_state::{CardId, CombatState, Monster, MonsterId, Player, Power, PowerId, SingleCard};

fn card(id: &str, cost: i32, upgrades: i32) -> communication::Card {
    communication::Card {
        name: id.to_string(),
        uuid: String::new(),
        misc: 0,
        is_playable: true,
        cost,
        upgrades,
        id: id.to_string(),
        card_type: "ATTACK".to_string(),
        rarity: "BASIC".to_string(),
        has_target: true,
        exhausts: false,
    }
}

fn power(id: &str, amount: i32) -> communication::Power {
    communication::Power {
        id: id.to_string(),
        name: id.to_string(),
        amount,
        damage: 0,
        card: None,
        misc: 0,
        just_applied: false,
    }
}

fn relic(id: &str, counter: i32) -> communication::Relic {
    communication::Relic { name: id.to_string(), id: id.to_string(), counter }
}

fn monster(id: &str, move_id: i32, last: Option<i32>, base_damage: i32) -> communication::Monster {
    communication::Monster {
        name: id.to_string(),
        id: id.to_string(),
        current_hp: 25,
        max_hp: 30,
        block: 2,
        intent: "ATTACK".to_string(),
        move_id,
        last_move_id: last,
        second_last_move_id: None,
        move_base_damage: base_damage,
        move_adjusted_damage: base_damage,
        move_hits: 1,
        half_dead: false,
        is_gone: false,
        powers: vec![power("Flight", 3)],
    }
}

fn game(combat: Option<communication::CombatState>) -> communication::GameState {
    communication::GameState {
        screen_name: String::new(),
        is_screen_up: false,
        screen_type: String::new(),
        screen_state: serde_json::Value::Null,
        room_phase: String::new(),
        action_phase: String::new(),
        room_type: String::new(),
        current_hp: 70,
        max_hp: 80,
        floor: 20,
        act: 2,
        act_boss: String::new(),
        gold: 99,
        seed: 0,
        class: "IRONCLAD".to_string(),
        ascension_level: 3,
        relics: vec![relic("Burning Blood", -1), relic("Sozu", -1)],
        deck: Vec::new(),
        potions: serde_json::Value::Null,
        map: serde_json::Value::Null,
        current_action: None,
        combat_state: combat,
        choice_list: None,
    }
}

fn reported_combat() -> communication::CombatState {
    communication::CombatState {
        draw_pile: vec![card("Bash", 2, 0), card("Strike_R", 1, 0)],
        discard_pile: vec![card("Defend_R", 1, 0)],
        exhaust_pile: Vec::new(),
        hand: vec![card("Strike_R", 1, 1)],
        limbo: Vec::new(),
        card_in_play: None,
        cards_discarded_this_turn: 0,
        turn: 2,
        player: communication::Player {
            current_hp: 70,
            max_hp: 80,
            block: 5,
            powers: vec![power("Strength", 2)],
            energy: 3,
            orbs: Vec::new(),
        },
        monsters: vec![monster("Byrd", 1, Some(6), 0), monster("Byrd", 3, None, 12)],
    }
}

#[test]
fn reported_cards_read_as_single_cards() {
    let c = SingleCard::from(&card("Bash", 2, 1));
    assert_eq!(c.card_id, CardId::Bash);
    assert_eq!(c.cost, 2);
    assert_eq!(c.upgrades, 1);
}

#[test]
fn relics_the_simulator_knows_become_powers_before_the_player_powers() {
    let reported = reported_combat();
    let relics = vec![relic("Burning Blood", -1), relic("Sozu", -1)];
    let player = Player::from_communication_mod(&reported.player, &relics);
    let ids: Vec<PowerId> = player.creature.powers.iter().map(|p| p.power_id).collect();
    assert_eq!(ids, vec![PowerId::Sozu, PowerId::Strength]);
    assert_eq!(player.creature.block, 5);
    assert_eq!(player.energy, 3);
    let strength = Power::from(&power("Strength", 2));
    assert_eq!(strength.amount, 2);
}

#[test]
fn reported_monsters_keep_their_recent_moves() {
    let m = Monster::from_communication_mod(&monster("Byrd", 1, Some(6), 0), 3);
    assert_eq!(m.monster_id, MonsterId::Byrd);
    // last move Caw (6) then Peck (1), as Byrd intents 0 and 1
    assert_eq!(m.move_history, vec![0, 1]);
    assert_eq!(m.innate_damage_amount, None);
    assert_eq!(m.ascension, 3);
    assert_eq!(m.creature.hitpoints, 25);
    assert_eq!(m.creature.max_hitpoints, 30);
    assert_eq!(m.creature.powers[0].power_id, PowerId::Flight);
    let swooping = Monster::from_communication_mod(&monster("Byrd", 3, None, 12), 0);
    assert_eq!(swooping.move_history, vec![2]);
    assert_eq!(swooping.innate_damage_amount, Some(12));
}

#[test]
fn a_reported_combat_reads_as_a_combat_state() {
    assert!(CombatState::from_communication_mod(&game(None), None).is_none());
    let observed = game(Some(reported_combat()));
    let state = CombatState::from_communication_mod(&observed, None).unwrap();
    assert_eq!(
        state.draw_pile,
        vec![SingleCard::create(CardId::StrikeR), SingleCard::create(CardId::Bash)]
    );
    assert_eq!(state.discard_pile, vec![SingleCard::create(CardId::DefendR)]);
    assert_eq!(state.hand.len(), 1);
    assert_eq!(state.hand[0].upgrades, 1);
    assert_eq!(state.turn_number, 2);
    assert_eq!(state.monsters.len(), 2);
    assert!(state.actions.is_empty());
    assert!(state.well_formed());
    // a later report without the rolled damage keeps the earlier one
    let mut later = reported_combat();
    later.monsters[1].move_base_damage = 0;
    let next = CombatState::from_communication_mod(&game(Some(later)), Some(&state)).unwrap();
    assert_eq!(next.monsters[1].innate_damage_amount, Some(12));
    assert_eq!(next.monsters[0].innate_damage_amount, None);
}
