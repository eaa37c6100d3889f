//! The state of a combat: cards, creatures, powers and monsters.
use vstd::prelude::*;
use std::collections::VecDeque;

use crate::actions::DynAction;
use crate::simulation::CreatureIndex;
use crate::simulation_state::powers::unique_power_ids;
use crate::simulation_state::cards::{card_id_number, card_id_rank, lemma_card_id_rank_inverse};
use vstd::relations::{sorted_by, total_ordering};
use vstd::seq_lib::lemma_sorted_unique;
use crate::communication_mod_state as communication;
use crate::simulation_state::cards::{card_id_from_str, spec_card_id_from_str};
use crate::simulation_state::powers::{power_id_from_str, spec_power_id_from_str};
use crate::simulation_state::monsters::{monster_id_from_str, spec_intent_from_communication_mod, spec_monster_id_from_str};

pub mod cards;
pub mod powers;
pub mod monsters;

pub use cards::CardId;
pub use powers::PowerId;
pub use monsters::MonsterId;

verus! {

/// The most monsters a combat can hold.
pub const MAX_MONSTERS: usize = 7;
/// The cost marker of cards that spend all remaining energy.
pub const X_COST: i32 = -1;
/// The cost marker of cards that can never be played.
pub const UNPLAYABLE: i32 = -2;
/// The most cards a hand can hold.
pub const MAX_HAND_SIZE: usize = 10;

#[derive(Clone, Copy, PartialEq, Eq, PartialOrd, Ord, Hash, Debug, Structural)]
pub enum CardType {
    Attack,
    Skill,
    Power,
    Status,
    Curse,
}

#[derive(Clone, Copy, PartialEq, Eq, PartialOrd, Ord, Hash, Debug, Structural)]
pub enum Rarity {
    Common,
    Uncommon,
    Rare,
    Basic,
    Special,
}

/// Static information about a card species.
#[derive(Clone, Copy, PartialEq, Eq, Debug, Structural)]
pub struct CardInfo {
    pub id: CardId,
    pub card_type: CardType,
    pub rarity: Rarity,
    pub normal_cost: i32,
    pub upgraded_cost: i32,
    pub ethereal: bool,
    pub has_target: bool,
    pub exhausts: bool,
}


/// One card: its identity plus the per-copy values that can change during a run.
#[derive(Clone, Copy, PartialEq, Eq, Hash, Debug, Structural)]
pub struct SingleCard {
    pub misc: i32,
    pub cost: i32,
    pub upgrades: i32,
    pub card_id: CardId,
}

/// A power (or relic) attached to a creature.
#[derive(Clone, Copy, PartialEq, Eq, Hash, Debug, Structural)]
pub struct Power {
    pub power_id: PowerId,
    pub amount: i32,
    pub damage: i32,
    pub card: Option<SingleCard>,
    pub misc: i32,
    pub just_applied: bool,
}

/// Hitpoints, block and powers of the player or of a monster.
#[derive(Clone, PartialEq, Eq, Hash, Debug)]
pub struct Creature {
    pub hitpoints: i32,
    pub max_hitpoints: i32,
    pub block: i32,
    pub powers: Vec<Power>,
}

/// The player: a creature with energy.
#[derive(Clone, PartialEq, Eq, Hash, Debug)]
pub struct Player {
    pub creature: Creature,
    pub energy: i32,
}

/// A monster's intents are numbered per monster species.
pub type IntentId = i32;

/// A monster in combat.
#[derive(Clone, PartialEq, Eq, Hash, Debug)]
pub struct Monster {
    pub monster_id: MonsterId,
    pub innate_damage_amount: Option<i32>,
    pub ascension: i32,
    pub creature: Creature,
    pub move_history: Vec<IntentId>,
    pub gone: bool,
}

/// Everything about a combat in progress, including the actions still to run.
#[derive(Clone, Debug)]
pub struct CombatState {
    pub draw_pile: Vec<SingleCard>,
    pub discard_pile: Vec<SingleCard>,
    pub exhaust_pile: Vec<SingleCard>,
    pub hand: Vec<SingleCard>,
    pub limbo: Vec<SingleCard>,
    pub card_in_play: Option<SingleCard>,
    pub player: Player,
    pub monsters: Vec<Monster>,
    pub turn_number: i32,
    pub turn_has_ended: bool,
    /// Actions queued by `action_now` while another action runs.
    pub fresh_subaction_queue: Vec<DynAction>,
    /// Queued actions waiting to run; the last one runs first.
    pub stale_subaction_stack: Vec<DynAction>,
    /// The main action queue.
    pub actions: VecDeque<DynAction>,
    pub num_reshuffles: i32,
    /// How many actions have been applied so far.
    pub num_actions: i32,
    /// How many choices have been applied so far.
    pub num_choices: i32,
}

impl CombatState {
    /// Whether `index` names the player or an existing monster.
    pub open spec fn valid_creature_index(&self, index: CreatureIndex) -> bool {
        match index {
            CreatureIndex::Player => true,
            CreatureIndex::Monster(i) => i < self.monsters@.len(),
        }
    }

    /// The creature that `index` names.
    pub open spec fn creature(&self, index: CreatureIndex) -> Creature {
        match index {
            CreatureIndex::Player => self.player.creature,
            CreatureIndex::Monster(i) => self.monsters@[i as int].creature,
        }
    }

    /// The shape every combat the engine runs keeps: a hand of at most ten cards,
    /// at most seven monsters, no creature holding two powers of one kind,
    /// and a non-negative action count.
    pub open spec fn wf(&self) -> bool {
        &&& self.hand@.len() <= MAX_HAND_SIZE
        &&& self.monsters@.len() <= MAX_MONSTERS
        &&& unique_power_ids(self.player.creature.powers@)
        &&& forall|i: int|
            0 <= i < self.monsters@.len() ==> unique_power_ids(
                #[trigger] self.monsters@[i].creature.powers@,
            )
        &&& 0 <= self.num_actions
    }
}

impl Default for Power {
    fn default() -> (power: Power)
        ensures
            power == (Power {
                power_id: PowerId::Unknown,
                amount: 0,
                damage: 0,
                card: None,
                misc: 0,
                just_applied: false,
            }),
    {
        Power {
            power_id: PowerId::Unknown,
            amount: 0,
            damage: 0,
            card: None,
            misc: 0,
            just_applied: false,
        }
    }
}

/// The cost a card has at the start of a combat.
pub open spec fn spec_start_combat_cost(card: SingleCard) -> i32 {
    if card.upgrades > 0 {
        cards::spec_card_info(card.card_id).upgraded_cost
    } else {
        cards::spec_card_info(card.card_id).normal_cost
    }
}

impl SingleCard {
    /// The static information of this card's species.
    pub fn card_info(&self) -> (info: CardInfo)
        ensures
            info == cards::spec_card_info(self.card_id),
    {
        cards::card_info(self.card_id)
    }

    /// The card's cost at the start of a combat: the upgraded cost once upgraded.
    pub fn start_combat_cost(&self) -> (cost: i32)
        ensures
            cost == spec_start_combat_cost(*self),
    {
        let info = cards::card_info(self.card_id);
        if self.upgrades > 0 {
            info.upgraded_cost
        } else {
            info.normal_cost
        }
    }

    /// A fresh, unupgraded copy of a card at its normal cost.
    pub fn create(id: CardId) -> (card: SingleCard)
        ensures
            card == (SingleCard {
                misc: 0,
                cost: cards::spec_card_info(id).normal_cost,
                upgrades: 0,
                card_id: id,
            }),
    {
        let info = cards::card_info(id);
        SingleCard { misc: 0, cost: info.normal_cost, upgrades: 0, card_id: id }
    }

    /// Upgrades a card that has no upgrade yet; other cards stay as they are.
    pub fn upgrade(&mut self)
        ensures
            final(self).upgrades == (if old(self).upgrades == 0 { 1 } else { old(self).upgrades }),
            final(self).misc == old(self).misc,
            final(self).cost == old(self).cost,
            final(self).card_id == old(self).card_id,
    {
        if self.upgrades == 0 {
            self.upgrades = 1;
        }
    }
}


impl Default for CardInfo {
    /// The information of an unknown card: an unplayable curse.
    fn default() -> (info: CardInfo)
        ensures
            info == (CardInfo {
                id: CardId::Injury,
                card_type: CardType::Curse,
                rarity: Rarity::Special,
                normal_cost: UNPLAYABLE,
                upgraded_cost: -3i32,
                ethereal: false,
                has_target: false,
                exhausts: false,
            }),
    {
        CardInfo {
            id: CardId::Injury,
            card_type: CardType::Curse,
            rarity: Rarity::Special,
            normal_cost: UNPLAYABLE,
            upgraded_cost: -3,
            ethereal: false,
            has_target: false,
            exhausts: false,
        }
    }
}

/// The order of cards: by `misc`, then cost, then upgrades, then card id in
/// declaration order (the order of their fields).
pub open spec fn card_leq(a: SingleCard, b: SingleCard) -> bool {
    if a.misc != b.misc {
        a.misc < b.misc
    } else if a.cost != b.cost {
        a.cost < b.cost
    } else if a.upgrades != b.upgrades {
        a.upgrades < b.upgrades
    } else {
        card_id_rank(a.card_id) <= card_id_rank(b.card_id)
    }
}

/// `card_leq` as a relation.
pub open spec fn card_order() -> spec_fn(SingleCard, SingleCard) -> bool {
    |a: SingleCard, b: SingleCard| card_leq(a, b)
}

/// The order of cards is total: any two cards compare, and two cards in order both
/// ways are the same card.
pub proof fn lemma_card_order_total()
    ensures
        total_ordering(card_order()),
{
    assert forall|a: SingleCard, b: SingleCard| card_leq(a, b) && card_leq(b, a) implies a == b by {
        lemma_card_id_rank_inverse(a.card_id);
        lemma_card_id_rank_inverse(b.card_id);
    }
}

/// Whether `a` comes no later than `b` in the order of cards.
pub fn card_le(a: &SingleCard, b: &SingleCard) -> (le: bool)
    ensures
        le == card_leq(*a, *b),
{
    if a.misc != b.misc {
        a.misc < b.misc
    } else if a.cost != b.cost {
        a.cost < b.cost
    } else if a.upgrades != b.upgrades {
        a.upgrades < b.upgrades
    } else {
        card_id_number(a.card_id) <= card_id_number(b.card_id)
    }
}

/// The cards in the order of cards: the one arrangement of them that is sorted.
pub fn sorted_cards(cards: &[SingleCard]) -> (sorted: Vec<SingleCard>)
    ensures
        sorted@ == cards@.sort_by(card_order()),
{
    broadcast use vstd::seq_lib::group_to_multiset_ensures;

    proof {
        lemma_card_order_total();
    }
    let mut result: Vec<SingleCard> = Vec::new();
    let mut i: usize = 0;
    while i < cards.len()
        invariant
            i <= cards@.len(),
            total_ordering(card_order()),
            sorted_by(result@, card_order()),
            result@.to_multiset() == cards@.subrange(0, i as int).to_multiset(),
        decreases cards@.len() - i,
    {
        let card = cards[i];
        let mut p: usize = 0;
        while p < result.len() && card_le(&result[p], &card)
            invariant
                p <= result@.len(),
                forall|j: int| 0 <= j < p ==> card_leq(#[trigger] result@[j], card),
            decreases result@.len() - p,
        {
            p = p + 1;
        }
        let ghost before = result@;
        result.insert(p, card);
        proof {
            assert(p < before.len() ==> card_leq(card, before[p as int]));
            assert forall|j: int, k: int| 0 <= j < k < result@.len() implies #[trigger] card_order()(
                result@[j],
                result@[k],
            ) by {
                if k < p {
                    assert(card_order()(before[j], before[k]));
                } else if k == p {
                    assert(card_leq(before[j], card));
                } else if j < p {
                    assert(card_leq(before[j], card));
                    assert(card_order()(before[j], before[k - 1]));
                } else if j == p {
                    assert(card_order()(before[p as int], before[k - 1]));
                } else {
                    assert(card_order()(before[j - 1], before[k - 1]));
                }
            }
            assert(cards@.subrange(0, i + 1) =~= cards@.subrange(0, i as int).push(card));
            vstd::seq_lib::to_multiset_insert(before, p as int, card);
            vstd::seq_lib::to_multiset_build(cards@.subrange(0, i as int), card);
            assert(result@.to_multiset() == cards@.subrange(0, i + 1).to_multiset());
        }
        i = i + 1;
    }
    proof {
        assert(cards@.subrange(0, cards@.len() as int) =~= cards@);
        cards@.lemma_sort_by_ensures(card_order());
        lemma_sorted_unique(result@, cards@.sort_by(card_order()), card_order());
    }
    result
}

/// Cards in their order are the same exactly when the cards are the same but for order.
pub proof fn lemma_sorted_cards_equal(a: Seq<SingleCard>, b: Seq<SingleCard>)
    ensures
        (a.sort_by(card_order()) == b.sort_by(card_order())) == (a.to_multiset()
            == b.to_multiset()),
{
    lemma_card_order_total();
    a.lemma_sort_by_ensures(card_order());
    b.lemma_sort_by_ensures(card_order());
    if a.to_multiset() == b.to_multiset() {
        lemma_sorted_unique(a.sort_by(card_order()), b.sort_by(card_order()), card_order());
    }
}

/// Whether two piles hold the same cards, ignoring their order.
pub fn compare_cards_unordered(first: &[SingleCard], second: &[SingleCard]) -> (equal: bool)
    ensures
        equal == (first@.to_multiset() == second@.to_multiset()),
{
    let first_sorted = sorted_cards(first);
    let second_sorted = sorted_cards(second);
    proof {
        lemma_sorted_cards_equal(first@, second@);
    }
    if first_sorted.len() != second_sorted.len() {
        assert(first_sorted@ != second_sorted@);
        return false;
    }
    let mut i: usize = 0;
    while i < first_sorted.len()
        invariant
            i <= first_sorted@.len(),
            first_sorted@.len() == second_sorted@.len(),
            (first_sorted@ == second_sorted@) == (first@.to_multiset() == second@.to_multiset()),
            forall|j: int| 0 <= j < i ==> first_sorted@[j] == second_sorted@[j],
        decreases first_sorted@.len() - i,
    {
        if first_sorted[i] != second_sorted[i] {
            assert(first_sorted@[i as int] != second_sorted@[i as int]);
            assert(first_sorted@ != second_sorted@);
            return false;
        }
        i = i + 1;
    }
    assert(first_sorted@ =~= second_sorted@);
    true
}

/// Feeds a sequence of cards to a hasher (`Hash::hash` of the list). Nothing is claimed:
/// what the hasher holds afterwards is the caller's hasher's own state, which Verus does
/// not see and which, for the standard hashers, depends on a per-process seed.
#[verifier::external_body]
fn write_cards<H: std::hash::Hasher>(cards: &Vec<SingleCard>, hasher: &mut H) {
    std::hash::Hash::hash(cards, hasher)
}

/// Hashes a pile without regard to its order: the cards are fed to the hasher in the
/// order of cards (`sorted_cards`), so piles equal but for order feed the same cards.
pub fn hash_cards_unordered<H: std::hash::Hasher>(cards: &[SingleCard], hasher: &mut H) {
    let sorted = sorted_cards(cards);
    write_cards(&sorted, hasher);
}

/// Piles that `compare_cards_unordered` finds equal are fed to a hasher as the same
/// sequence of cards, so they hash alike.
pub proof fn lemma_equal_piles_hash_alike(a: Seq<SingleCard>, b: Seq<SingleCard>)
    requires
        a.to_multiset() == b.to_multiset(),
    ensures
        a.sort_by(card_order()) == b.sort_by(card_order()),
{
    lemma_sorted_cards_equal(a, b);
}


/// A reported card as the simulator holds it.
pub open spec fn spec_card_from(card: communication::Card) -> SingleCard {
    SingleCard {
        misc: card.misc,
        cost: card.cost,
        upgrades: card.upgrades,
        card_id: spec_card_id_from_str(card.id@),
    }
}

impl<'a> From<&'a communication::Card> for SingleCard {
    fn from(card: &'a communication::Card) -> (single: SingleCard) {
        SingleCard {
            misc: card.misc,
            cost: card.cost,
            upgrades: card.upgrades,
            card_id: card_id_from_str(card.id.as_str()),
        }
    }
}

impl<'a> vstd::std_specs::convert::FromSpecImpl<&'a communication::Card> for SingleCard {
    open spec fn obeys_from_spec() -> bool {
        true
    }

    open spec fn from_spec(card: &'a communication::Card) -> SingleCard {
        spec_card_from(*card)
    }
}

/// A reported power as the simulator holds it.
pub open spec fn spec_power_from(power: communication::Power) -> Power {
    Power {
        power_id: spec_power_id_from_str(power.id@),
        amount: power.amount,
        damage: power.damage,
        card: match power.card {
            Some(card) => Some(spec_card_from(card)),
            None => None,
        },
        misc: power.misc,
        just_applied: power.just_applied,
    }
}

impl<'a> From<&'a communication::Power> for Power {
    fn from(power: &'a communication::Power) -> (p: Power) {
        Power {
            power_id: power_id_from_str(power.id.as_str()),
            amount: power.amount,
            damage: power.damage,
            card: match &power.card {
                Some(card) => Some(SingleCard::from(card)),
                None => None,
            },
            misc: power.misc,
            just_applied: power.just_applied,
        }
    }
}

impl<'a> vstd::std_specs::convert::FromSpecImpl<&'a communication::Power> for Power {
    open spec fn obeys_from_spec() -> bool {
        true
    }

    open spec fn from_spec(power: &'a communication::Power) -> Power {
        spec_power_from(*power)
    }
}

/// A relic as a power: its counter is the amount.
pub open spec fn spec_relic_power(relic: communication::Relic) -> Power {
    Power {
        power_id: spec_power_id_from_str(relic.id@),
        amount: relic.counter,
        damage: 0,
        card: None,
        misc: 0,
        just_applied: false,
    }
}

/// A relic as a power, its counter as the amount.
pub fn relic_power(relic: &communication::Relic) -> (power: Power)
    ensures
        power == spec_relic_power(*relic),
{
    Power {
        power_id: power_id_from_str(relic.id.as_str()),
        amount: relic.counter,
        damage: 0,
        card: None,
        misc: 0,
        just_applied: false,
    }
}

/// The powers of the relics the simulator knows, in order.
pub open spec fn spec_relic_powers(relics: Seq<communication::Relic>) -> Seq<Power>
    decreases relics.len(),
{
    if relics.len() == 0 {
        seq![]
    } else {
        let rest = spec_relic_powers(relics.drop_last());
        let power = spec_relic_power(relics.last());
        if power.power_id != PowerId::Unknown {
            rest.push(power)
        } else {
            rest
        }
    }
}

fn cards_from(cards: &Vec<communication::Card>) -> (result: Vec<SingleCard>)
    ensures
        result@ == cards@.map_values(|c: communication::Card| spec_card_from(c)),
{
    let mut result: Vec<SingleCard> = Vec::new();
    let mut i: usize = 0;
    while i < cards.len()
        invariant
            i <= cards@.len(),
            result@ == cards@.subrange(0, i as int).map_values(
                |c: communication::Card| spec_card_from(c),
            ),
        decreases cards@.len() - i,
    {
        result.push(SingleCard::from(&cards[i]));
        i = i + 1;
        assert(result@ =~= cards@.subrange(0, i as int).map_values(
            |c: communication::Card| spec_card_from(c),
        ));
    }
    assert(cards@.subrange(0, cards@.len() as int) =~= cards@);
    result
}

fn powers_from(powers: &Vec<communication::Power>, result: &mut Vec<Power>)
    ensures
        final(result)@ == old(result)@ + powers@.map_values(
            |p: communication::Power| spec_power_from(p),
        ),
{
    let ghost start = result@;
    let mut i: usize = 0;
    while i < powers.len()
        invariant
            i <= powers@.len(),
            result@ == start + powers@.subrange(0, i as int).map_values(
                |p: communication::Power| spec_power_from(p),
            ),
        decreases powers@.len() - i,
    {
        result.push(Power::from(&powers[i]));
        i = i + 1;
        assert(result@ =~= start + powers@.subrange(0, i as int).map_values(
            |p: communication::Power| spec_power_from(p),
        ));
    }
    assert(powers@.subrange(0, powers@.len() as int) =~= powers@);
}

impl Player {
    /// The player as reported: its relics the simulator knows become powers, followed
    /// by its powers.
    pub fn from_communication_mod(player: &communication::Player, relics: &[communication::Relic]) -> (result: Player)
        ensures
            result.energy == player.energy,
            result.creature.hitpoints == player.current_hp,
            result.creature.max_hitpoints == player.max_hp,
            result.creature.block == player.block,
            result.creature.powers@ == spec_relic_powers(relics@) + player.powers@.map_values(
                |p: communication::Power| spec_power_from(p),
            ),
    {
        let mut powers: Vec<Power> = Vec::new();
        let mut i: usize = 0;
        while i < relics.len()
            invariant
                i <= relics@.len(),
                powers@ == spec_relic_powers(relics@.subrange(0, i as int)),
            decreases relics@.len() - i,
        {
            proof {
                assert(relics@.subrange(0, i + 1).drop_last() =~= relics@.subrange(0, i as int));
            }
            let power = relic_power(&relics[i]);
            if power.power_id != PowerId::Unknown {
                powers.push(power);
            }
            i = i + 1;
        }
        proof {
            assert(relics@.subrange(0, relics@.len() as int) =~= relics@);
        }
        powers_from(&player.powers, &mut powers);
        Player {
            energy: player.energy,
            creature: Creature {
                hitpoints: player.current_hp,
                max_hitpoints: player.max_hp,
                block: player.block,
                powers,
            },
        }
    }
}

/// A reported move id as an intent of the species (0 when it names none).
pub open spec fn spec_intent_or_zero(id: MonsterId, move_id: i32) -> IntentId {
    match spec_intent_from_communication_mod(id, move_id) {
        Some(intent) => intent,
        None => 0,
    }
}

/// A monster's move history as reported: the second-to-last and last moves when known,
/// then the current one.
pub open spec fn spec_reported_history(monster: communication::Monster) -> Seq<IntentId> {
    let id = spec_monster_id_from_str(monster.id@);
    let current = seq![spec_intent_or_zero(id, monster.move_id)];
    let with_last = match monster.last_move_id {
        Some(previous) => seq![spec_intent_or_zero(id, previous)] + current,
        None => current,
    };
    match monster.second_last_move_id {
        Some(previous) => seq![spec_intent_or_zero(id, previous)] + with_last,
        None => with_last,
    }
}

fn intent_or_zero(id: MonsterId, move_id: i32) -> (intent: IntentId)
    ensures
        intent == spec_intent_or_zero(id, move_id),
{
    match id.intent_from_communication_mod(move_id) {
        Some(intent) => intent,
        None => 0,
    }
}

impl Monster {
    /// A monster as reported, at the given ascension: its move history (see
    /// `spec_reported_history`), and its move's base damage as its rolled damage when
    /// positive.
    pub fn from_communication_mod(monster: &communication::Monster, ascension: i32) -> (result: Monster)
        ensures
            result.monster_id == spec_monster_id_from_str(monster.id@),
            result.ascension == ascension,
            result.move_history@ == spec_reported_history(*monster),
            result.innate_damage_amount == if monster.move_base_damage > 0 {
                Some(monster.move_base_damage)
            } else {
                None
            },
            result.creature.hitpoints == monster.current_hp,
            result.creature.max_hitpoints == monster.max_hp,
            result.creature.block == monster.block,
            result.creature.powers@ == monster.powers@.map_values(
                |p: communication::Power| spec_power_from(p),
            ),
            result.gone == monster.is_gone,
    {
        let monster_id = monster_id_from_str(monster.id.as_str());
        let mut move_history: Vec<IntentId> = Vec::new();
        move_history.push(intent_or_zero(monster_id, monster.move_id));
        match monster.last_move_id {
            Some(previous) => {
                move_history.insert(0, intent_or_zero(monster_id, previous));
            },
            None => {},
        }
        match monster.second_last_move_id {
            Some(previous) => {
                move_history.insert(0, intent_or_zero(monster_id, previous));
            },
            None => {},
        }
        proof {
            assert(move_history@ =~= spec_reported_history(*monster));
        }
        let innate_damage_amount = if monster.move_base_damage > 0 {
            Some(monster.move_base_damage)
        } else {
            None
        };
        let mut powers: Vec<Power> = Vec::new();
        powers_from(&monster.powers, &mut powers);
        assert(powers@ =~= monster.powers@.map_values(|p: communication::Power| spec_power_from(p)));
        Monster {
            monster_id,
            ascension,
            move_history,
            innate_damage_amount,
            creature: Creature {
                hitpoints: monster.current_hp,
                max_hitpoints: monster.max_hp,
                block: monster.block,
                powers,
            },
            gone: monster.is_gone,
        }
    }
}

/// The rolled damage of the monster at place `i` of an earlier combat, if any.
pub open spec fn previous_innate_damage(previous: Option<&CombatState>, i: int) -> Option<i32> {
    match previous {
        Some(p) => if 0 <= i < p.monsters@.len() {
            p.monsters@[i].innate_damage_amount
        } else {
            None
        },
        None => None,
    }
}

/// Two creatures alike in every field, their powers by content.
pub open spec fn same_creature(a: Creature, b: Creature) -> bool {
    &&& b.hitpoints == a.hitpoints
    &&& b.max_hitpoints == a.max_hitpoints
    &&& b.block == a.block
    &&& b.powers@ == a.powers@
}

/// Two monsters alike in every field, their lists by content.
pub open spec fn same_monster(a: Monster, b: Monster) -> bool {
    &&& b.monster_id == a.monster_id
    &&& b.innate_damage_amount == a.innate_damage_amount
    &&& b.ascension == a.ascension
    &&& same_creature(a.creature, b.creature)
    &&& b.move_history@ == a.move_history@
    &&& b.gone == a.gone
}

/// Two combats alike in every field, their lists by content.
pub open spec fn same_combat(a: CombatState, b: CombatState) -> bool {
    &&& b.draw_pile@ == a.draw_pile@
    &&& b.discard_pile@ == a.discard_pile@
    &&& b.exhaust_pile@ == a.exhaust_pile@
    &&& b.hand@ == a.hand@
    &&& b.limbo@ == a.limbo@
    &&& b.card_in_play == a.card_in_play
    &&& b.player.energy == a.player.energy
    &&& same_creature(a.player.creature, b.player.creature)
    &&& b.monsters@.len() == a.monsters@.len()
    &&& forall|i: int| 0 <= i < a.monsters@.len() ==> same_monster(a.monsters@[i], #[trigger] b.monsters@[i])
    &&& b.turn_number == a.turn_number
    &&& b.turn_has_ended == a.turn_has_ended
    &&& b.fresh_subaction_queue@ == a.fresh_subaction_queue@
    &&& b.stale_subaction_stack@ == a.stale_subaction_stack@
    &&& b.actions@ == a.actions@
    &&& b.num_reshuffles == a.num_reshuffles
    &&& b.num_actions == a.num_actions
    &&& b.num_choices == a.num_choices
}

/// A copy of a list of plain values.
pub fn copy_list<T: Copy>(list: &Vec<T>) -> (copy: Vec<T>)
    ensures
        copy@ == list@,
{
    let mut copy: Vec<T> = Vec::new();
    let mut i: usize = 0;
    while i < list.len()
        invariant
            i <= list@.len(),
            copy@ == list@.subrange(0, i as int),
        decreases list@.len() - i,
    {
        copy.push(list[i]);
        i = i + 1;
    }
    copy
}

fn copy_queue(queue: &VecDeque<DynAction>) -> (copy: VecDeque<DynAction>)
    ensures
        copy@ == queue@,
{
    let mut copy: VecDeque<DynAction> = VecDeque::new();
    let mut i: usize = 0;
    while i < queue.len()
        invariant
            i <= queue@.len(),
            copy@ == queue@.subrange(0, i as int),
        decreases queue@.len() - i,
    {
        copy.push_back(queue[i]);
        i = i + 1;
    }
    copy
}

impl Creature {
    /// A copy of the creature.
    pub fn duplicate(&self) -> (copy: Creature)
        ensures
            same_creature(*self, copy),
    {
        Creature {
            hitpoints: self.hitpoints,
            max_hitpoints: self.max_hitpoints,
            block: self.block,
            powers: copy_list(&self.powers),
        }
    }
}

impl Monster {
    /// A copy of the monster.
    pub fn duplicate(&self) -> (copy: Monster)
        ensures
            same_monster(*self, copy),
    {
        Monster {
            monster_id: self.monster_id,
            innate_damage_amount: self.innate_damage_amount,
            ascension: self.ascension,
            creature: self.creature.duplicate(),
            move_history: copy_list(&self.move_history),
            gone: self.gone,
        }
    }
}

impl CombatState {
    /// A copy of the combat.
    pub fn duplicate(&self) -> (copy: CombatState)
        ensures
            same_combat(*self, copy),
    {
        let mut monsters: Vec<Monster> = Vec::new();
        let mut i: usize = 0;
        while i < self.monsters.len()
            invariant
                i <= self.monsters@.len(),
                monsters@.len() == i,
                forall|j: int| 0 <= j < i ==> same_monster(self.monsters@[j], #[trigger] monsters@[j]),
            decreases self.monsters@.len() - i,
        {
            monsters.push(self.monsters[i].duplicate());
            i = i + 1;
        }
        CombatState {
            draw_pile: copy_list(&self.draw_pile),
            discard_pile: copy_list(&self.discard_pile),
            exhaust_pile: copy_list(&self.exhaust_pile),
            hand: copy_list(&self.hand),
            limbo: copy_list(&self.limbo),
            card_in_play: self.card_in_play,
            player: Player { creature: self.player.creature.duplicate(), energy: self.player.energy },
            monsters,
            turn_number: self.turn_number,
            turn_has_ended: self.turn_has_ended,
            fresh_subaction_queue: copy_list(&self.fresh_subaction_queue),
            stale_subaction_stack: copy_list(&self.stale_subaction_stack),
            actions: copy_queue(&self.actions),
            num_reshuffles: self.num_reshuffles,
            num_actions: self.num_actions,
            num_choices: self.num_choices,
        }
    }
}

/// Two combats that are one combat to the simulator: alike in every field, each pile of
/// cards by its cards whatever their order.
pub open spec fn alike_combat(a: CombatState, b: CombatState) -> bool {
    &&& b.draw_pile@.to_multiset() == a.draw_pile@.to_multiset()
    &&& b.discard_pile@.to_multiset() == a.discard_pile@.to_multiset()
    &&& b.exhaust_pile@.to_multiset() == a.exhaust_pile@.to_multiset()
    &&& b.hand@.to_multiset() == a.hand@.to_multiset()
    &&& b.limbo@.to_multiset() == a.limbo@.to_multiset()
    &&& b.card_in_play == a.card_in_play
    &&& b.player.energy == a.player.energy
    &&& same_creature(a.player.creature, b.player.creature)
    &&& b.monsters@.len() == a.monsters@.len()
    &&& forall|i: int| 0 <= i < a.monsters@.len() ==> same_monster(a.monsters@[i], #[trigger] b.monsters@[i])
    &&& b.turn_number == a.turn_number
    &&& b.turn_has_ended == a.turn_has_ended
    &&& b.fresh_subaction_queue@ == a.fresh_subaction_queue@
    &&& b.stale_subaction_stack@ == a.stale_subaction_stack@
    &&& b.actions@ == a.actions@
    &&& b.num_reshuffles == a.num_reshuffles
    &&& b.num_actions == a.num_actions
    &&& b.num_choices == a.num_choices
}

/// Every combat is alike to itself.
pub proof fn lemma_same_combat_refl(state: CombatState)
    ensures
        same_combat(state, state),
{
    assert forall|i: int| 0 <= i < state.monsters@.len() implies same_monster(
        state.monsters@[i],
        #[trigger] state.monsters@[i],
    ) by {}
}

/// A combat alike in every field to a well-formed one is well formed.
pub proof fn lemma_same_combat_wf(a: CombatState, b: CombatState)
    requires
        same_combat(a, b),
    ensures
        a.wf() ==> b.wf(),
{
    assert(b.hand@.len() == a.hand@.len());
    assert(b.player.creature.powers@ == a.player.creature.powers@);
    if a.wf() {
        assert forall|i: int| 0 <= i < b.monsters@.len() implies unique_power_ids(
            #[trigger] b.monsters@[i].creature.powers@,
        ) by {
            assert(same_monster(a.monsters@[i], b.monsters@[i]));
            assert(unique_power_ids(a.monsters@[i].creature.powers@));
        }
    }
}

impl CombatState {
    /// Whether the combat is well formed (see `wf`).
    pub fn well_formed(&self) -> (wf: bool)
        ensures
            wf == self.wf(),
    {
        if self.hand.len() > MAX_HAND_SIZE || self.monsters.len() > MAX_MONSTERS {
            return false;
        }
        if self.num_actions < 0 {
            return false;
        }
        if !distinct_power_ids(&self.player.creature.powers) {
            return false;
        }
        let mut i: usize = 0;
        while i < self.monsters.len()
            invariant
                i <= self.monsters@.len(),
                forall|j: int| 0 <= j < i ==> unique_power_ids(#[trigger] self.monsters@[j].creature.powers@),
            decreases self.monsters@.len() - i,
        {
            if !distinct_power_ids(&self.monsters[i].creature.powers) {
                return false;
            }
            i = i + 1;
        }
        true
    }

    /// The combat as the mod reports it, if a combat is going on: cards, player and
    /// monsters are read as the simulator holds them, the draw pile in the order of
    /// cards, no action is queued, and the counters start at 0. A monster whose rolled
    /// damage is not reported keeps the one of the monster at its place in `previous`.
    pub fn from_communication_mod(
        observed: &communication::GameState,
        previous: Option<&CombatState>,
    ) -> (result: Option<CombatState>)
        ensures
            result is Some <==> observed.combat_state is Some,
            result matches Some(r) ==> {
                let combat = observed.combat_state->0;
                &&& r.draw_pile@ == combat.draw_pile@.map_values(
                    |c: communication::Card| spec_card_from(c),
                ).sort_by(card_order())
                &&& r.discard_pile@ == combat.discard_pile@.map_values(
                    |c: communication::Card| spec_card_from(c),
                )
                &&& r.exhaust_pile@ == combat.exhaust_pile@.map_values(
                    |c: communication::Card| spec_card_from(c),
                )
                &&& r.hand@ == combat.hand@.map_values(|c: communication::Card| spec_card_from(c))
                &&& r.limbo@ == combat.limbo@.map_values(|c: communication::Card| spec_card_from(c))
                &&& r.card_in_play == match combat.card_in_play {
                    Some(c) => Some(spec_card_from(c)),
                    None => None,
                }
                &&& r.fresh_subaction_queue@.len() == 0
                &&& r.stale_subaction_stack@.len() == 0
                &&& r.actions@.len() == 0
                &&& r.turn_number == combat.turn
                &&& !r.turn_has_ended
                &&& r.num_reshuffles == 0
                &&& r.num_actions == 0
                &&& r.num_choices == 0
                &&& r.player.energy == combat.player.energy
                &&& r.player.creature.hitpoints == combat.player.current_hp
                &&& r.player.creature.max_hitpoints == combat.player.max_hp
                &&& r.player.creature.block == combat.player.block
                &&& r.player.creature.powers@ == spec_relic_powers(observed.relics@)
                    + combat.player.powers@.map_values(|p: communication::Power| spec_power_from(p))
                &&& r.monsters@.len() == combat.monsters@.len()
                &&& forall|i: int|
                    0 <= i < r.monsters@.len() ==> {
                        let m = #[trigger] r.monsters@[i];
                        let reported = combat.monsters@[i];
                        &&& m.monster_id == spec_monster_id_from_str(reported.id@)
                        &&& m.ascension == observed.ascension_level
                        &&& m.move_history@ == spec_reported_history(reported)
                        &&& m.innate_damage_amount == if reported.move_base_damage > 0 {
                            Some(reported.move_base_damage)
                        } else {
                            previous_innate_damage(previous, i)
                        }
                        &&& m.creature.hitpoints == reported.current_hp
                        &&& m.creature.max_hitpoints == reported.max_hp
                        &&& m.creature.block == reported.block
                        &&& m.creature.powers@ == reported.powers@.map_values(
                            |p: communication::Power| spec_power_from(p),
                        )
                        &&& m.gone == reported.is_gone
                    }
            },
    {
        let combat = match &observed.combat_state {
            Some(c) => c,
            None => {
                return None;
            },
        };
        let draw = cards_from(&combat.draw_pile);
        let draw_pile = sorted_cards(draw.as_slice());
        let card_in_play = match &combat.card_in_play {
            Some(c) => Some(SingleCard::from(c)),
            None => None,
        };
        let mut monsters: Vec<Monster> = Vec::new();
        let mut i: usize = 0;
        while i < combat.monsters.len()
            invariant
                i <= combat.monsters@.len(),
                monsters@.len() == i,
                forall|j: int|
                    0 <= j < i ==> {
                        let m = #[trigger] monsters@[j];
                        let reported = combat.monsters@[j];
                        &&& m.monster_id == spec_monster_id_from_str(reported.id@)
                        &&& m.ascension == observed.ascension_level
                        &&& m.move_history@ == spec_reported_history(reported)
                        &&& m.innate_damage_amount == if reported.move_base_damage > 0 {
                            Some(reported.move_base_damage)
                        } else {
                            previous_innate_damage(previous, j)
                        }
                        &&& m.creature.hitpoints == reported.current_hp
                        &&& m.creature.max_hitpoints == reported.max_hp
                        &&& m.creature.block == reported.block
                        &&& m.creature.powers@ == reported.powers@.map_values(
                            |p: communication::Power| spec_power_from(p),
                        )
                        &&& m.gone == reported.is_gone
                    },
            decreases combat.monsters@.len() - i,
        {
            let mut monster = Monster::from_communication_mod(
                &combat.monsters[i],
                observed.ascension_level,
            );
            if monster.innate_damage_amount.is_none() {
                match previous {
                    Some(p) => {
                        if i < p.monsters.len() {
                            monster.innate_damage_amount = p.monsters[i].innate_damage_amount;
                        }
                    },
                    None => {},
                }
            }
            monsters.push(monster);
            i = i + 1;
        }
        Some(
            CombatState {
                draw_pile,
                discard_pile: cards_from(&combat.discard_pile),
                exhaust_pile: cards_from(&combat.exhaust_pile),
                hand: cards_from(&combat.hand),
                limbo: cards_from(&combat.limbo),
                card_in_play,
                player: Player::from_communication_mod(&combat.player, observed.relics.as_slice()),
                monsters,
                turn_number: combat.turn,
                turn_has_ended: false,
                fresh_subaction_queue: Vec::new(),
                stale_subaction_stack: Vec::new(),
                actions: VecDeque::new(),
                num_reshuffles: 0,
                num_actions: 0,
                num_choices: 0,
            },
        )
    }
}

/// Whether no two powers share an id.
pub fn distinct_power_ids(powers: &Vec<Power>) -> (distinct: bool)
    ensures
        distinct == unique_power_ids(powers@),
{
    let mut i: usize = 0;
    while i < powers.len()
        invariant
            i <= powers@.len(),
            forall|a: int, b: int| 0 <= a < b < powers@.len() && a < i ==> #[trigger] powers@[a].power_id
                != #[trigger] powers@[b].power_id,
        decreases powers@.len() - i,
    {
        let mut j: usize = i + 1;
        while j < powers.len()
            invariant
                i < j <= powers@.len(),
                forall|a: int, b: int| 0 <= a < b < powers@.len() && a < i ==> #[trigger] powers@[a].power_id
                    != #[trigger] powers@[b].power_id,
                forall|b: int| i < b < j ==> powers@[i as int].power_id != #[trigger] powers@[b].power_id,
            decreases powers@.len() - j,
        {
            if powers[i].power_id == powers[j].power_id {
                return false;
            }
            j = j + 1;
        }
        i = i + 1;
    }
    true
}


/// Whether two lists of powers hold the same powers in the same order.
fn powers_equal(a: &Vec<Power>, b: &Vec<Power>) -> (equal: bool)
    ensures
        equal == (a@ == b@),
{
    if a.len() != b.len() {
        return false;
    }
    let mut i: usize = 0;
    while i < a.len()
        invariant
            i <= a@.len(),
            a@.len() == b@.len(),
            forall|j: int| 0 <= j < i ==> a@[j] == b@[j],
        decreases a@.len() - i,
    {
        if a[i] != b[i] {
            return false;
        }
        i = i + 1;
    }
    assert(a@ =~= b@);
    true
}

/// Whether two move histories are the same.
fn intents_equal(a: &Vec<IntentId>, b: &Vec<IntentId>) -> (equal: bool)
    ensures
        equal == (a@ == b@),
{
    if a.len() != b.len() {
        return false;
    }
    let mut i: usize = 0;
    while i < a.len()
        invariant
            i <= a@.len(),
            a@.len() == b@.len(),
            forall|j: int| 0 <= j < i ==> a@[j] == b@[j],
        decreases a@.len() - i,
    {
        if a[i] != b[i] {
            return false;
        }
        i = i + 1;
    }
    assert(a@ =~= b@);
    true
}

impl Creature {
    /// Whether two creatures are alike in every field.
    pub fn same_as(&self, other: &Creature) -> (same: bool)
        ensures
            same == same_creature(*self, *other),
    {
        self.hitpoints == other.hitpoints && self.max_hitpoints == other.max_hitpoints && self.block
            == other.block && powers_equal(&self.powers, &other.powers)
    }
}

impl Monster {
    /// Whether two monsters are alike in every field.
    pub fn same_as(&self, other: &Monster) -> (same: bool)
        ensures
            same == same_monster(*self, *other),
    {
        let same_damage = match (self.innate_damage_amount, other.innate_damage_amount) {
            (Some(a), Some(b)) => a == b,
            (None, None) => true,
            _ => false,
        };
        self.monster_id == other.monster_id && same_damage && self.ascension == other.ascension
            && self.creature.same_as(&other.creature) && intents_equal(
            &self.move_history,
            &other.move_history,
        ) && self.gone == other.gone
    }
}

impl CombatState {
    /// Whether two combats with nothing queued are one combat to the simulator: alike in
    /// every field, each pile of cards by its cards whatever their order.
    pub fn same_calm_combat(&self, other: &CombatState) -> (same: bool)
        requires
            self.fresh_subaction_queue@.len() == 0,
            self.stale_subaction_stack@.len() == 0,
            self.actions@.len() == 0,
            other.fresh_subaction_queue@.len() == 0,
            other.stale_subaction_stack@.len() == 0,
            other.actions@.len() == 0,
        ensures
            same == alike_combat(*self, *other),
    {
        proof {
            assert(self.fresh_subaction_queue@ =~= other.fresh_subaction_queue@);
            assert(self.stale_subaction_stack@ =~= other.stale_subaction_stack@);
            assert(self.actions@ =~= other.actions@);
        }
        let same_in_play = match (self.card_in_play, other.card_in_play) {
            (Some(a), Some(b)) => a == b,
            (None, None) => true,
            _ => false,
        };
        if !(same_in_play && self.player.energy == other.player.energy
            && self.player.creature.same_as(&other.player.creature)
            && self.monsters.len() == other.monsters.len() && self.turn_number == other.turn_number
            && self.turn_has_ended == other.turn_has_ended && self.num_reshuffles
            == other.num_reshuffles && self.num_actions == other.num_actions && self.num_choices
            == other.num_choices) {
            return false;
        }
        if !(compare_cards_unordered(self.draw_pile.as_slice(), other.draw_pile.as_slice())
            && compare_cards_unordered(self.discard_pile.as_slice(), other.discard_pile.as_slice())
            && compare_cards_unordered(self.exhaust_pile.as_slice(), other.exhaust_pile.as_slice())
            && compare_cards_unordered(self.hand.as_slice(), other.hand.as_slice())
            && compare_cards_unordered(self.limbo.as_slice(), other.limbo.as_slice())) {
            return false;
        }
        let mut i: usize = 0;
        while i < self.monsters.len()
            invariant
                i <= self.monsters@.len(),
                self.monsters@.len() == other.monsters@.len(),
                forall|j: int| 0 <= j < i ==> same_monster(self.monsters@[j], #[trigger] other.monsters@[j]),
            decreases self.monsters@.len() - i,
        {
            if !self.monsters[i].same_as(&other.monsters[i]) {
                return false;
            }
            i = i + 1;
        }
        true
    }
}

} // verus!
