use borg_the_spire::actions::{ChooseMonsterIntent, DrawCardRandom, DynAction, EndTurn};
use borg_the_spire::seed_system::{
    choose_by_values, choose_choice, ChoiceLineageIdentity, ChoiceLineages, Distribution, SeedView,
    TrivialChoiceLineages,
};
use borg_the_spire::seeds_concrete::{
    seed_request, CombatChoiceLineageIdentity, CombatChoiceLineages, SingleSeedLineage, TurnMap,
};
use borg_the_spire::simulation_state::{
    CardId, CombatState, Creature, Player, SingleCard,
};
use std::collections::VecDeque;

fn combat(draw_pile: Vec<SingleCard>) -> CombatState {
    CombatState {
        draw_pile,
        discard_pile: Vec::new(),
        exhaust_pile: Vec::new(),
        hand: Vec::new(),
        limbo: Vec::new(),
        card_in_play: None,
        player: Player {
            creature: Creature { hitpoints: 80, max_hitpoints: 80, block: 0, powers: Vec::new() },
            energy: 3,
        },
        monsters: Vec::new(),
        turn_number: 3,
        turn_has_ended: false,
        fresh_subaction_queue: Vec::new(),
        stale_subaction_stack: Vec::new(),
        actions: VecDeque::new(),
        num_reshuffles: 258,
        num_actions: 0,
        num_choices: 0,
    }
}

#[test]
fn turn_maps_grow_to_the_turn_asked_for() {
    let mut map: TurnMap<u32> = TurnMap::default();
    *map.get_mut(3) = 7;
    assert_eq!(map.values, vec![0, 0, 7]);
    *map.get_mut(1) += 1;
    assert_eq!(map.values, vec![1, 0, 7]);
    assert_eq!(*map.get_mut(3), 7);
}

#[test]
fn lineages_of_random_outcomes() {
    let state = combat(vec![SingleCard::create(CardId::StrikeR), SingleCard::create(CardId::Bash)]);
    let draw = CombatChoiceLineageIdentity::lineage_identity(&state, &DynAction::DrawCardRandom(DrawCardRandom), &1);
    assert_eq!(draw, CombatChoiceLineageIdentity::DrawCard { card: CardId::Bash, turn: 3, reshuffles: 2 });
    let intent = CombatChoiceLineageIdentity::lineage_identity(
        &state,
        &DynAction::ChooseMonsterIntent(ChooseMonsterIntent(2)),
        &4,
    );
    assert_eq!(intent, CombatChoiceLineageIdentity::ChooseMonsterIntent { turn: 3, monster_index: 2, intent: 4 });
    let other = CombatChoiceLineageIdentity::lineage_identity(&state, &DynAction::EndTurn(EndTurn), &0);
    assert_eq!(other, CombatChoiceLineageIdentity::Uncategorized);
}

#[test]
fn lineages_keep_one_value_each() {
    let mut lineages: CombatChoiceLineages<u32> = CombatChoiceLineages::default();
    let a = CombatChoiceLineageIdentity::DrawCard { card: CardId::Bash, turn: 2, reshuffles: 0 };
    let b = CombatChoiceLineageIdentity::DrawCard { card: CardId::Bash, turn: 2, reshuffles: 1 };
    let c = CombatChoiceLineageIdentity::GainBlockRandomMonster { turn: 1, target: 3 };
    *lineages.get_mut(a) = 5;
    *lineages.get_mut(b) = 6;
    *lineages.get_mut(c) = 7;
    assert_eq!(*lineages.get_mut(a), 5);
    assert_eq!(*lineages.get_mut(b), 6);
    assert_eq!(*lineages.get_mut(c), 7);
    assert_eq!(*lineages.get_mut(CombatChoiceLineageIdentity::Uncategorized), 0);
}

#[test]
fn trivial_lineages_hold_one_value() {
    let mut lineages = TrivialChoiceLineages(3u32);
    *lineages.get_mut(()) += 1;
    assert_eq!(lineages.0, 4);
}

#[test]
fn repeated_requests_of_a_seed_agree() {
    let seeds = [1u64, 2, 3, 4];
    let mut caches: CombatChoiceLineages<SingleSeedLineage> = CombatChoiceLineages::default();
    let identity = CombatChoiceLineageIdentity::AttackRandomEnemy { target: 1 };
    let mut first_view: CombatChoiceLineages<u32> = CombatChoiceLineages::default();
    let a0 = seed_request(seeds, &mut first_view, &mut caches, identity);
    let a1 = seed_request(seeds, &mut first_view, &mut caches, identity);
    let mut second_view: CombatChoiceLineages<u32> = CombatChoiceLineages::default();
    let b0 = seed_request(seeds, &mut second_view, &mut caches, identity);
    let b1 = seed_request(seeds, &mut second_view, &mut caches, identity);
    assert_eq!(a0, b0);
    assert_eq!(a1, b1);
    assert_ne!(a0, a1);
    // a fresh cache gives the same values again
    let mut fresh: CombatChoiceLineages<SingleSeedLineage> = CombatChoiceLineages::default();
    let mut third_view: CombatChoiceLineages<u32> = CombatChoiceLineages::default();
    assert_eq!(seed_request(seeds, &mut third_view, &mut fresh, identity), a0);
    // another seed gives other values
    let mut other_view: CombatChoiceLineages<u32> = CombatChoiceLineages::default();
    let mut other_cache: CombatChoiceLineages<SingleSeedLineage> = CombatChoiceLineages::default();
    assert_ne!(seed_request([5, 6, 7, 8], &mut other_view, &mut other_cache, identity), a0);
}

#[test]
fn distributions_split_probability_between_outcomes() {
    let d = Distribution::split(250_000, Distribution::from_value(1), Distribution::from_value(2));
    assert_eq!(d.0, vec![(250_000, 1), (750_000, 2)]);
    let mut e = Distribution::from_value(1);
    e.add_assign(Distribution::from_value(1));
    assert_eq!(e.0, vec![(2_000_000, 1)]);
    let half = Distribution::from_value(3).scaled(1, 2);
    assert_eq!(half.0, vec![(500_000, 3)]);
}

#[test]
fn outcomes_are_picked_by_least_value_per_weight() {
    // 100 / 0.5 = 200 ranks behind 90 / 0.5 = 180, which ranks behind 40 / 0.25 = 160.
    let d = Distribution(vec![(500_000, 1), (500_000, 2), (250_000, 3)]);
    assert_eq!(choose_by_values(&d, &vec![100, 90, 40]), 3);
    // Equal values per weight: the first one wins.
    let d = Distribution(vec![(1_000_000, 7), (500_000, 8)]);
    assert_eq!(choose_by_values(&d, &vec![10, 5]), 7);
    // An outcome of weight 0 is never picked while another one can be.
    let d = Distribution(vec![(0, 1), (1_000_000, 2)]);
    assert_eq!(choose_by_values(&d, &vec![0, u64::MAX]), 2);
    // Products that overflow 64 bits are still compared exactly.
    let d = Distribution(vec![(u64::MAX, 4), (u64::MAX - 1, 5)]);
    assert_eq!(choose_by_values(&d, &vec![u64::MAX, u64::MAX - 2]), 5);
}

#[test]
fn an_unpicked_outcome_does_not_change_the_pick() {
    let d = Distribution(vec![(500_000, 1), (500_000, 2), (250_000, 3), (1_000_000, 4)]);
    let values = vec![100, 90, 40, 500];
    assert_eq!(choose_by_values(&d, &values), 3);
    for k in [0usize, 1, 3] {
        let mut fewer = d.0.clone();
        fewer.remove(k);
        let mut fewer_values = values.clone();
        fewer_values.remove(k);
        assert_eq!(choose_by_values(&Distribution(fewer), &fewer_values), 3);
    }
}

/// Hands out the listed values in turn and counts how often it was asked.
struct ListedSeed {
    values: Vec<u64>,
    asked: usize,
}

impl SeedView<CombatState> for ListedSeed {
    /// What `gen` answers, for the library's contracts; never run.
    fn spec_gen(&self, _state: CombatState, _action: DynAction, _choice: i32) -> u64 {
        unreachable!()
    }
    /// What the seed is after `gen`, for the library's contracts; never run.
    fn spec_after_gen(&self, _state: CombatState, _action: DynAction, _choice: i32) -> Self {
        unreachable!()
    }
    fn gen(&mut self, _state: &CombatState, _action: &DynAction, _choice: &i32) -> u64 {
        let value = self.values[self.asked];
        self.asked += 1;
        value
    }
}

#[test]
fn a_seed_is_asked_once_per_outcome_and_its_least_value_wins() {
    let state = combat(Vec::new());
    let action = DynAction::EndTurn(EndTurn);
    let d = Distribution(vec![(500_000, 1), (500_000, 2), (250_000, 3)]);
    let mut seed = ListedSeed { values: vec![100, 90, 40], asked: 0 };
    assert_eq!(choose_choice(&state, &action, &d, &mut seed), 3);
    assert_eq!(seed.asked, 3);
    let mut seed = ListedSeed { values: vec![10, 90, 40], asked: 0 };
    assert_eq!(choose_choice(&state, &action, &d, &mut seed), 1);
    assert_eq!(seed.asked, 3);
}

#[test]
fn unpicked_outcomes_taken_away_together_do_not_change_the_pick() {
    let state = combat(Vec::new());
    let action = DynAction::EndTurn(EndTurn);
    let d = Distribution(vec![(500_000, 1), (500_000, 2), (250_000, 3), (1_000_000, 4)]);
    let mut seed = ListedSeed { values: vec![100, 90, 40, 500], asked: 0 };
    assert_eq!(choose_choice(&state, &action, &d, &mut seed), 3);
    // Outcomes 1 and 4 taken away; the seed gives the others the same values.
    let fewer = Distribution(vec![(500_000, 2), (250_000, 3)]);
    let mut fewer_seed = ListedSeed { values: vec![90, 40], asked: 0 };
    assert_eq!(choose_choice(&state, &action, &fewer, &mut fewer_seed), 3);
    assert_eq!(fewer_seed.asked, 2);
}
