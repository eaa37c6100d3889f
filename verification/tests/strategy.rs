use borg_the_spire::actions::{DynAction, EndTurn, PlayCard};
use borg_the_spire::ai_utils::{
    card_play_stats, collect_starting_points, play_out, play_some, resolve_random_events, starting_choices_made_by_strategy, Strategy,
};
use borg_the_spire::seed_system::SeedView;
use borg_the_spire::condition_strategy::{
    choice_distinguishers, Condition, ConditionKind, EvaluationData, NumericProperty,
    WhichCreature, WhichMonster,
};
use rand::SeedableRng;
use rand_chacha::ChaCha8Rng;
use borg_the_spire::condition_strategy_generators::{
    standard_generators, GeneratorKind, HillClimbKind, HillClimbStart,
};
use borg_the_spire::cow::Cow;
use borg_the_spire::simulation_state::{
    CardId, CardType, CombatState, Creature, Monster, MonsterId, Player, Power, PowerId, SingleCard,
};
use std::collections::VecDeque;

fn power(id: PowerId, amount: i32) -> Power {
    Power { power_id: id, amount, damage: 0, card: None, misc: 0, just_applied: false }
}

fn creature(hitpoints: i32, powers: Vec<Power>) -> Creature {
    Creature { hitpoints, max_hitpoints: hitpoints, block: 0, powers }
}

fn byrd(hitpoints: i32, intent: i32) -> Monster {
    Monster {
        monster_id: MonsterId::Byrd,
        innate_damage_amount: None,
        ascension: 0,
        creature: creature(hitpoints, vec![power(PowerId::Flight, 3)]),
        move_history: vec![intent],
        gone: false,
    }
}

fn combat(hand: Vec<SingleCard>, monsters: Vec<Monster>) -> CombatState {
    CombatState {
        draw_pile: Vec::new(),
        discard_pile: Vec::new(),
        exhaust_pile: Vec::new(),
        hand,
        limbo: Vec::new(),
        card_in_play: None,
        player: Player { creature: creature(80, vec![]), energy: 3 },
        monsters,
        turn_number: 1,
        turn_has_ended: false,
        fresh_subaction_queue: Vec::new(),
        stale_subaction_stack: Vec::new(),
        actions: VecDeque::new(),
        num_reshuffles: 0,
        num_actions: 0,
        num_choices: 0,
    }
}

fn condition(kind: ConditionKind) -> Condition {
    Condition { inverted: false, kind }
}

#[test]
fn card_play_stats_count_block_and_damage() {
    let strike = SingleCard::create(CardId::StrikeR);
    let state = combat(vec![strike], vec![byrd(25, 1), byrd(25, 1)]);
    let stats = card_play_stats(&state, &strike, 1);
    assert_eq!(stats.block_amount, 0);
    assert_eq!(stats.damage, vec![0, 3]);
    let cleave = SingleCard::create(CardId::Cleave);
    let stats = card_play_stats(&state, &cleave, 0);
    assert_eq!(stats.damage, vec![4, 4]);
    let iron_wave = SingleCard::create(CardId::IronWave);
    let stats = card_play_stats(&state, &iron_wave, 0);
    assert_eq!(stats.block_amount, 5);
}

#[test]
fn incoming_damage_counts_the_monsters_attacks() {
    let strike = SingleCard::create(CardId::StrikeR);
    let mut state = combat(vec![strike], vec![byrd(25, 1), byrd(25, 2)]);
    state.player.creature.block = 4;
    // five pecks for 1 and a swoop for 12, less 4 block
    assert_eq!(state.total_monster_attack_intent_damage(), 17);
    let data = EvaluationData::new(&state);
    assert_eq!(data.incoming_damage, 13);
    assert_eq!(data.choices.len(), 3);
    assert_eq!(data.choices[0].choice, DynAction::EndTurn(EndTurn));
    assert_eq!(data.choices[1].choice, DynAction::PlayCard(PlayCard { card: strike, target: 0 }));
    assert_eq!(data.choices[1].stats.damage, vec![3, 0]);
    assert_eq!(data.choices[0].stats.damage, Vec::<i128>::new());
}

#[test]
fn conditions_on_choices() {
    let strike = SingleCard::create(CardId::StrikeR);
    let mut upgraded = strike;
    upgraded.upgrade();
    let state = combat(vec![strike, upgraded], vec![byrd(25, 1), byrd(25, 2)]);
    let data = EvaluationData::new(&state);
    let end_turn = data.context(0);
    let strike_second = data.context(2);
    let upgraded_first = data.context(3);
    assert!(condition(ConditionKind::EndTurn).evaluate(&state, &end_turn));
    assert!(!condition(ConditionKind::PlayCard).evaluate(&state, &end_turn));
    assert!(condition(ConditionKind::PlayCardType(CardType::Attack)).evaluate(&state, &strike_second));
    assert!(condition(ConditionKind::PlayCardId(CardId::StrikeR)).evaluate(&state, &strike_second));
    assert!(!condition(ConditionKind::Upgraded).evaluate(&state, &strike_second));
    assert!(condition(ConditionKind::Upgraded).evaluate(&state, &upgraded_first));
    let second_byrd = WhichMonster { id: MonsterId::Byrd, which_of_this_id: 1 };
    assert!(condition(ConditionKind::TargetsMonster(second_byrd)).evaluate(&state, &strike_second));
    assert!(!condition(ConditionKind::TargetsMonster(second_byrd)).evaluate(&state, &upgraded_first));
    assert!(!condition(ConditionKind::UsePotion).evaluate(&state, &strike_second));
    let inverted = Condition { inverted: true, kind: ConditionKind::EndTurn };
    assert!(!inverted.evaluate(&state, &end_turn));
    assert!(inverted.evaluate(&state, &strike_second));
}

#[test]
fn conditions_on_the_combat() {
    let strike = SingleCard::create(CardId::StrikeR);
    let mut state = combat(vec![strike], vec![byrd(25, 1), byrd(20, 2)]);
    state.monsters[0].creature.powers.push(power(PowerId::Strength, 3));
    let data = EvaluationData::new(&state);
    let play = data.context(1);
    let first = WhichMonster { id: MonsterId::Byrd, which_of_this_id: 0 };
    let second = WhichMonster { id: MonsterId::Byrd, which_of_this_id: 1 };
    let third = WhichMonster { id: MonsterId::Byrd, which_of_this_id: 2 };
    let mut intents = [false; 7];
    intents[2] = true;
    assert!(condition(ConditionKind::MonsterIntent { monster: second, intent_included: intents })
        .evaluate(&state, &play));
    assert!(!condition(ConditionKind::MonsterIntent { monster: first, intent_included: intents })
        .evaluate(&state, &play));
    assert!(!condition(ConditionKind::MonsterIntent { monster: third, intent_included: intents })
        .evaluate(&state, &play));
    assert!(condition(ConditionKind::HasPower {
        creature: WhichCreature::Monster(first),
        power: PowerId::Strength
    })
    .evaluate(&state, &play));
    assert!(!condition(ConditionKind::HasPower { creature: WhichCreature::Player, power: PowerId::Strength })
        .evaluate(&state, &play));
    let hitpoints = NumericProperty::CreatureHitpoints(WhichCreature::Monster(second));
    assert_eq!(hitpoints.evaluate(&state, &play), 20);
    assert!(condition(ConditionKind::NumericPropertyGt { threshold: 19, property: hitpoints })
        .evaluate(&state, &play));
    assert!(!condition(ConditionKind::NumericPropertyGt { threshold: 20, property: hitpoints })
        .evaluate(&state, &play));
    assert_eq!(NumericProperty::TurnNumber.evaluate(&state, &play), 1);
    assert_eq!(NumericProperty::Energy.evaluate(&state, &play), 3);
    let strength = NumericProperty::PowerAmount { creature: WhichCreature::Monster(first), power: PowerId::Strength };
    assert_eq!(strength.evaluate(&state, &play), 3);
    // the strike's 3 damage reaches the first byrd, which has no block
    assert_eq!(NumericProperty::UnblockedDamageToMonster(first).evaluate(&state, &play), 3);
    // pecks with 3 strength (4 each) and a swoop (12)
    assert_eq!(NumericProperty::IncomingUnblockedDamage.evaluate(&state, &play), 32);
}

#[test]
fn monsters_are_named_by_species_and_rank() {
    let mut state = combat(vec![], vec![byrd(25, 1), byrd(25, 1)]);
    let second = WhichMonster { id: MonsterId::Byrd, which_of_this_id: 1 };
    assert_eq!(second.index(&state), Some(1));
    state.monsters[1].gone = true;
    assert_eq!(second.index(&state), None);
    let other = WhichMonster { id: MonsterId::JawWorm, which_of_this_id: 0 };
    assert_eq!(other.index(&state), None);
    assert!(WhichCreature::Player.get(&state).is_some());
}

#[test]
fn culling_waits_for_at_most_32_playouts() {
    let short = GeneratorKind::HillClimb {
        steps: 8,
        num_verification_seeds: 4,
        start: HillClimbStart::NewRandom,
        kind: HillClimbKind::OneRelevantRule,
    };
    assert_eq!(short.min_playouts_before_culling(), 8);
    let long = GeneratorKind::HillClimb {
        steps: 256,
        num_verification_seeds: 4,
        start: HillClimbStart::FromSeedSearch,
        kind: HillClimbKind::BunchOfRandomChanges,
    };
    assert_eq!(long.min_playouts_before_culling(), 32);
}

#[test]
fn the_standard_generators_cover_every_combination() {
    let generators = standard_generators();
    assert_eq!(generators.len(), 324);
    assert_eq!(
        generators[0],
        GeneratorKind::HillClimb {
            steps: 1,
            num_verification_seeds: 1,
            start: HillClimbStart::NewRandom,
            kind: HillClimbKind::BunchOfRandomChanges
        }
    );
    assert_eq!(
        generators[323],
        GeneratorKind::HillClimb {
            steps: 256,
            num_verification_seeds: 32,
            start: HillClimbStart::FromSeedSearch,
            kind: HillClimbKind::OneRelevantRule
        }
    );
}

#[test]
fn shared_values_keep_their_identity() {
    let a = Cow::new(5);
    let b = a.clone();
    let c = Cow::new(5);
    assert!(a.same_identity(&b));
    assert!(!a.same_identity(&c));
    assert_eq!(*a, 5);
}

#[test]
fn random_monster_names_find_a_present_monster() {
    let mut fled = byrd(10, 1);
    fled.gone = true;
    let state = combat(vec![], vec![byrd(10, 1), fled, byrd(12, 1)]);
    let mut rng = ChaCha8Rng::seed_from_u64(7);
    let mut seen = [false; 3];
    for _ in 0..64 {
        let which = WhichMonster::random(&state, &mut rng);
        let index = which.index(&state).unwrap();
        assert!(!state.monsters[index].gone);
        assert_eq!(which.id, MonsterId::Byrd);
        assert_eq!(which.which_of_this_id, index);
        seen[index] = true;
    }
    assert_eq!(seen, [true, false, true]);
}

#[test]
fn choice_distinguishers_list_each_card_id_once() {
    let mut state = combat(
        vec![
            SingleCard::create(CardId::Bash),
            SingleCard::create(CardId::StrikeR),
            SingleCard::create(CardId::Bash),
        ],
        vec![byrd(10, 1)],
    );
    state.draw_pile = vec![SingleCard::create(CardId::DefendR)];
    state.discard_pile = vec![SingleCard::create(CardId::StrikeR)];
    let which = WhichMonster { id: MonsterId::Byrd, which_of_this_id: 0 };
    let options = choice_distinguishers(&state, which);
    assert_eq!(options.len(), 9);
    assert!(matches!(options[0], ConditionKind::PlayCard));
    assert!(matches!(options[1], ConditionKind::EndTurn));
    assert!(matches!(options[2], ConditionKind::PlayCardType(CardType::Attack)));
    assert!(matches!(options[3], ConditionKind::PlayCardType(CardType::Skill)));
    assert!(matches!(options[4], ConditionKind::PlayCardType(CardType::Power)));
    assert!(matches!(options[5], ConditionKind::TargetsMonster(w) if w.which_of_this_id == 0));
    assert!(matches!(options[6], ConditionKind::PlayCardId(CardId::Bash)));
    assert!(matches!(options[7], ConditionKind::PlayCardId(CardId::StrikeR)));
    assert!(matches!(options[8], ConditionKind::PlayCardId(CardId::DefendR)));

    let mut rng = ChaCha8Rng::seed_from_u64(3);
    for _ in 0..32 {
        let condition = Condition::random_generally_relevant_choice_distinguisher(&state, &mut rng);
        match condition.kind {
            ConditionKind::PlayCardId(id) => {
                assert!(id == CardId::Bash || id == CardId::StrikeR || id == CardId::DefendR)
            }
            ConditionKind::TargetsMonster(w) => assert_eq!(w.index(&state), Some(0)),
            ConditionKind::PlayCard | ConditionKind::EndTurn | ConditionKind::PlayCardType(_) => {}
            _ => panic!("not a choice distinguisher"),
        }
    }
}

/// Ends the turn whenever it is asked.
struct AlwaysEndTurn;

impl Strategy for AlwaysEndTurn {
    /// Which answers the strategy may give, for the library's contracts; never run.
    fn spec_answers(&self, _state: CombatState, _choices: Vec<DynAction>) -> bool {
        unreachable!()
    }
    fn choose_choice(&self, _state: &CombatState) -> Vec<DynAction> {
        vec![DynAction::EndTurn(EndTurn)]
    }
}

/// Offers nothing.
struct NoChoice;

impl Strategy for NoChoice {
    /// Which answers the strategy may give, for the library's contracts; never run.
    fn spec_answers(&self, _state: CombatState, _choices: Vec<DynAction>) -> bool {
        unreachable!()
    }
    fn choose_choice(&self, _state: &CombatState) -> Vec<DynAction> {
        Vec::new()
    }
}

/// Gives every outcome the same value, so that the first outcome of most weight wins.
struct FlatSeed;

impl SeedView<CombatState> for FlatSeed {
    /// What `gen` answers, for the library's contracts; never run.
    fn spec_gen(&self, _state: CombatState, _action: DynAction, _choice: i32) -> u64 {
        unreachable!()
    }
    /// What the seed is after `gen`, for the library's contracts; never run.
    fn spec_after_gen(&self, _state: CombatState, _action: DynAction, _choice: i32) -> Self {
        unreachable!()
    }
    fn gen(&mut self, _state: &CombatState, _action: &DynAction, _choice: &i32) -> u64 {
        1
    }
}

#[test]
fn playing_out_ends_the_combat() {
    let mut state = combat(Vec::new(), vec![byrd(25, 1)]);
    play_out(&mut state, &mut FlatSeed, &AlwaysEndTurn);
    assert!(state.combat_over());
    assert!(state.num_choices > 0);
}

#[test]
fn playing_some_stops_by_the_third_turn() {
    let mut state = combat(Vec::new(), vec![byrd(25, 1)]);
    play_some(&mut state, &mut FlatSeed, &AlwaysEndTurn);
    assert!(state.combat_over() || state.turn_number >= 3);
    assert!(state.turn_number <= 3);
}

#[test]
fn play_stops_when_the_strategy_offers_nothing() {
    let mut state = combat(Vec::new(), vec![byrd(25, 1)]);
    play_out(&mut state, &mut FlatSeed, &NoChoice);
    assert_eq!(state.num_choices, 0);
    assert_eq!(state.turn_number, 1);
    assert!(!state.combat_over());
}

#[test]
fn resolving_random_events_leaves_a_calm_combat_alone() {
    let mut state = combat(Vec::new(), vec![byrd(25, 1)]);
    let before = format!("{:?}", state);
    resolve_random_events(&mut state, &mut FlatSeed);
    assert_eq!(format!("{:?}", state), before);
}

#[test]
fn starting_choices_follow_the_strategy() {
    let state = combat(Vec::new(), vec![byrd(25, 1)]);
    let choices = starting_choices_made_by_strategy(&state, &AlwaysEndTurn);
    assert!(!choices.is_empty());
    assert!(choices.iter().all(|c| *c == DynAction::EndTurn(EndTurn)));
    assert!(starting_choices_made_by_strategy(&state, &NoChoice).is_empty());
}

#[test]
fn starting_points_lead_somewhere_by_legal_choices() {
    let strike = SingleCard::create(CardId::StrikeR);
    let state = combat(vec![strike], vec![byrd(25, 1)]);
    let points = collect_starting_points(state.clone(), 10);
    assert!(!points.is_empty());
    for (point, history) in &points {
        assert!(!history.is_empty());
        assert!(history[0] == DynAction::EndTurn(EndTurn) || matches!(history[0], DynAction::PlayCard(_)));
        assert!(point.num_choices as usize == history.len());
    }
    // Playing the strike first and ending the turn first are both explored.
    assert!(points.iter().any(|(_, history)| history[0] == DynAction::EndTurn(EndTurn)));
    assert!(points.iter().any(|(_, history)| matches!(history[0], DynAction::PlayCard(_))));
}

#[test]
fn a_finished_combat_is_its_own_starting_point() {
    let mut state = combat(Vec::new(), vec![byrd(25, 1)]);
    state.player.creature.hitpoints = 0;
    let points = collect_starting_points(state, 10);
    assert_eq!(points.len(), 1);
    assert!(points[0].1.is_empty());
    assert_eq!(points[0].0.player.creature.hitpoints, 0);
}

#[test]
fn no_budget_keeps_only_the_first_choices() {
    let strike = SingleCard::create(CardId::StrikeR);
    let state = combat(vec![strike], vec![byrd(25, 1)]);
    let points = collect_starting_points(state.clone(), 0);
    // Ending the turn, and the strike at the one Byrd.
    assert_eq!(points.len(), state.legal_choices().len());
    assert!(points.iter().all(|(_, history)| history.len() == 1));
}

#[test]
fn evaluation_data_of_a_combat_without_monsters() {
    let defend = SingleCard::create(CardId::DefendR);
    let state = combat(vec![defend], Vec::new());
    let data = EvaluationData::new(&state);
    assert_eq!(data.incoming_damage, 0);
    assert_eq!(data.choices.len(), 2);
    assert_eq!(data.choices[1].stats.block_amount, 5);
    assert!(data.choices[1].stats.damage.is_empty());
}
