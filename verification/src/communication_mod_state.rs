//! The game state as the CommunicationMod reports it.
use vstd::prelude::*;

verus! {

/// A JSON value the simulator carries along without reading.
#[verifier::external_type_specification]
#[verifier::external_body]
pub struct ExJsonValue(serde_json::Value);

/// What the mod reports each time the game waits for a command.
#[derive(Debug)]
pub struct CommunicationState {
    pub available_commands: Vec<String>,
    pub ready_for_command: bool,
    pub in_game: bool,
    pub game_state: Option<GameState>,
}

/// The state of a run.
#[derive(Debug)]
pub struct GameState {
    pub screen_name: String,
    pub is_screen_up: bool,
    pub screen_type: String,
    pub screen_state: serde_json::Value,
    pub room_phase: String,
    pub action_phase: String,
    pub room_type: String,
    pub current_hp: i32,
    pub max_hp: i32,
    pub floor: i32,
    pub act: i32,
    pub act_boss: String,
    pub gold: i32,
    pub seed: i64,
    pub class: String,
    pub ascension_level: i32,
    pub relics: Vec<Relic>,
    pub deck: Vec<Card>,
    pub potions: serde_json::Value,
    pub map: serde_json::Value,
    pub current_action: Option<serde_json::Value>,
    pub combat_state: Option<CombatState>,
    pub choice_list: Option<serde_json::Value>,
}

/// The state of a combat.
#[derive(Debug)]
pub struct CombatState {
    pub draw_pile: Vec<Card>,
    pub discard_pile: Vec<Card>,
    pub exhaust_pile: Vec<Card>,
    pub hand: Vec<Card>,
    pub limbo: Vec<Card>,
    pub card_in_play: Option<Card>,
    pub cards_discarded_this_turn: i32,
    pub turn: i32,
    pub player: Player,
    pub monsters: Vec<Monster>,
}

/// A card.
#[derive(Clone, Debug)]
pub struct Card {
    pub name: String,
    pub uuid: String,
    pub misc: i32,
    pub is_playable: bool,
    pub cost: i32,
    pub upgrades: i32,
    pub id: String,
    pub card_type: String,
    pub rarity: String,
    pub has_target: bool,
    pub exhausts: bool,
}

/// The player.
#[derive(Debug)]
pub struct Player {
    pub current_hp: i32,
    pub max_hp: i32,
    pub block: i32,
    pub powers: Vec<Power>,
    pub energy: i32,
    pub orbs: Vec<serde_json::Value>,
}

/// A monster, with its current and last two move ids.
#[derive(Clone, Debug)]
pub struct Monster {
    pub name: String,
    pub id: String,
    pub current_hp: i32,
    pub max_hp: i32,
    pub block: i32,
    pub intent: String,
    pub move_id: i32,
    pub last_move_id: Option<i32>,
    pub second_last_move_id: Option<i32>,
    pub move_base_damage: i32,
    pub move_adjusted_damage: i32,
    pub move_hits: i32,
    pub half_dead: bool,
    pub is_gone: bool,
    pub powers: Vec<Power>,
}

/// A power of a creature.
#[derive(Clone, Debug)]
pub struct Power {
    pub id: String,
    pub name: String,
    pub amount: i32,
    pub damage: i32,
    pub card: Option<Card>,
    pub misc: i32,
    pub just_applied: bool,
}

/// A relic, with its counter.
#[derive(Clone, Debug)]
pub struct Relic {
    pub name: String,
    pub id: String,
    pub counter: i32,
}

} // verus!
