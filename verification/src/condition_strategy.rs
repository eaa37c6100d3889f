//! Conditions that strategies test on a combat and on one of its choices, and the
//! data they are evaluated against.
use vstd::prelude::*;
use vstd::wrapping::i32_specs;

use crate::actions::{DynAction, PlayCard};
use crate::ai_utils::{card_play_stats, spec_damage_to, CardPlayStats};
use crate::simulation::{
    lemma_legal_choice_targets, spec_card_playable, spec_has_power, spec_legal_choices, spec_power_amount,
    MonsterIndex,
};
use crate::simulation_state::cards::{
    card_info, spec_block_total, spec_card_actions, spec_card_hits_target, spec_card_info,
};
use crate::simulation_state::monsters::{present_intents_valid, spec_intent_damage_up_to, MAX_INTENTS};
use crate::simulation_state::{
    CardId, CardType, CombatState, Creature, Monster, MonsterId, PowerId, SingleCard,
};

verus! {

/// A monster named by its species and by how many of that species come before it.
#[derive(Clone, Copy, Debug)]
pub struct WhichMonster {
    pub id: MonsterId,
    pub which_of_this_id: usize,
}

/// The player, or a monster named by species and rank.
#[derive(Clone, Copy, Debug)]
pub enum WhichCreature {
    Player,
    Monster(WhichMonster),
}

/// The things a condition can test.
#[derive(Clone, Copy, Debug)]
pub enum ConditionKind {
    EndTurn,
    PlayCard,
    PlayCardType(CardType),
    PlayCardId(CardId),
    UsePotion,
    UsePotionId(CardId),
    TargetsMonster(WhichMonster),
    Upgraded,
    NumericPropertyGt { threshold: i32, property: NumericProperty },
    MonsterIntent { monster: WhichMonster, intent_included: [bool; MAX_INTENTS] },
    HasPower { creature: WhichCreature, power: PowerId },
}

/// Numbers a condition can compare with a threshold.
#[derive(Clone, Copy, Debug)]
pub enum NumericProperty {
    TurnNumber,
    Energy,
    CreatureHitpoints(WhichCreature),
    UnblockedDamageToMonster(WhichMonster),
    IncomingUnblockedDamage,
    PowerAmount { creature: WhichCreature, power: PowerId },
}

/// A test on a combat and a choice, possibly inverted.
#[derive(Clone, Copy, Debug)]
pub struct Condition {
    pub inverted: bool,
    pub kind: ConditionKind,
}

/// A choice and what it would do.
pub struct ChoiceEvaluationData {
    pub choice: DynAction,
    pub stats: CardPlayStats,
}

/// What every condition of a combat is evaluated against: the damage coming in and
/// each legal choice with what it would do.
pub struct EvaluationData {
    pub incoming_damage: i32,
    pub choices: Vec<ChoiceEvaluationData>,
}

/// One choice among the evaluation data.
pub struct ChoiceEvaluationContext<'a> {
    pub global: &'a EvaluationData,
    pub choice: &'a ChoiceEvaluationData,
}

/// The index of the `n`-th monster of species `id` at or after `start`.
pub open spec fn nth_of_id(monsters: Seq<Monster>, id: MonsterId, n: int, start: int) -> Option<
    int,
>
    decreases monsters.len() - start,
{
    if start < 0 || start >= monsters.len() {
        None
    } else if monsters[start].monster_id == id {
        if n == 0 {
            Some(start)
        } else {
            nth_of_id(monsters, id, n - 1, start + 1)
        }
    } else {
        nth_of_id(monsters, id, n, start + 1)
    }
}

/// The index of the monster named, if it exists and is still present.
pub open spec fn spec_which_monster(state: CombatState, which: WhichMonster) -> Option<int> {
    match nth_of_id(state.monsters@, which.id, which.which_of_this_id as int, 0) {
        Some(j) => if !state.monsters@[j].gone {
            Some(j)
        } else {
            None
        },
        None => None,
    }
}

/// The creature named, if it exists and is still present.
pub open spec fn spec_which_creature(state: CombatState, which: WhichCreature) -> Option<Creature> {
    match which {
        WhichCreature::Player => Some(state.player.creature),
        WhichCreature::Monster(m) => match spec_which_monster(state, m) {
            Some(j) => Some(state.monsters@[j].creature),
            None => None,
        },
    }
}

impl WhichMonster {
    /// The index of the monster named and the monster, if it is still present.
    pub fn get_with_index<'a>(&self, state: &'a CombatState) -> (found: Option<
        (MonsterIndex, &'a Monster),
    >)
        ensures
            match found {
                Some((i, m)) => spec_which_monster(*state, *self) == Some(i as int) && i
                    < state.monsters@.len() && *m == state.monsters@[i as int],
                None => spec_which_monster(*state, *self) is None,
            },
    {
        let mut remaining = self.which_of_this_id;
        let mut i: usize = 0;
        while i < state.monsters.len()
            invariant
                i <= state.monsters@.len(),
                nth_of_id(state.monsters@, self.id, self.which_of_this_id as int, 0) == nth_of_id(
                    state.monsters@,
                    self.id,
                    remaining as int,
                    i as int,
                ),
            decreases state.monsters@.len() - i,
        {
            if state.monsters[i].monster_id == self.id {
                if remaining == 0 {
                    if state.monsters[i].gone {
                        return None;
                    }
                    return Some((i, &state.monsters[i]));
                }
                remaining = remaining - 1;
            }
            i = i + 1;
        }
        None
    }

    /// The index of the monster named, if it is still present.
    pub fn index(&self, state: &CombatState) -> (index: Option<MonsterIndex>)
        ensures
            match index {
                Some(i) => spec_which_monster(*state, *self) == Some(i as int),
                None => spec_which_monster(*state, *self) is None,
            },
    {
        match self.get_with_index(state) {
            Some((i, _)) => Some(i),
            None => None,
        }
    }

    /// The monster named, if it is still present.
    pub fn get<'a>(&self, state: &'a CombatState) -> (monster: Option<&'a Monster>)
        ensures
            match monster {
                Some(m) => spec_which_monster(*state, *self) matches Some(j) && *m
                    == state.monsters@[j],
                None => spec_which_monster(*state, *self) is None,
            },
    {
        match self.get_with_index(state) {
            Some((_, m)) => Some(m),
            None => None,
        }
    }
}

/// A ChaCha random number generator with 8 rounds.
#[verifier::external_type_specification]
#[verifier::external_body]
pub struct ExChaCha8Rng(rand_chacha::ChaCha8Rng);

/// `rand::seq::SliceRandom::choose` on a non-empty list: one of its items, picked by the
/// generator (whose state moves on).
#[verifier::external_body]
fn random_element<T: Copy>(rng: &mut rand_chacha::ChaCha8Rng, items: &Vec<T>) -> (item: T)
    requires
        items@.len() > 0,
    ensures
        items@.contains(item),
{
    *rand::seq::SliceRandom::choose(items.as_slice(), rng).unwrap()
}

/// `rand::seq::IteratorRandom::choose` on the items of a non-empty list, handed over as an
/// iterator that does not tell its length (as a filtered iterator does not), so that the
/// generator picks one item at a time as it goes: one of the items, picked by the
/// generator (whose state moves on).
#[verifier::external_body]
fn random_element_of_unsized<T: Copy>(rng: &mut rand_chacha::ChaCha8Rng, items: &Vec<T>) -> (item: T)
    requires
        items@.len() > 0,
    ensures
        items@.contains(item),
{
    let mut remaining = items.iter().copied();
    rand::seq::IteratorRandom::choose(std::iter::from_fn(move || remaining.next()), rng).unwrap()
}

/// `rand::Rng::gen::<bool>()`: a value of the generator.
#[verifier::external_body]
fn random_bool(rng: &mut rand_chacha::ChaCha8Rng) -> bool {
    rand::Rng::gen(rng)
}

/// How many of the monsters at `start..end` are of species `id`.
pub open spec fn count_of_id(monsters: Seq<Monster>, id: MonsterId, start: int, end: int) -> nat
    decreases end - start,
{
    if start >= end {
        0
    } else {
        (if monsters[start].monster_id == id {
            1nat
        } else {
            0nat
        }) + count_of_id(monsters, id, start + 1, end)
    }
}

/// The name of the monster at `index`: its species and how many of that species come
/// before it.
pub open spec fn spec_monster_name(monsters: Seq<Monster>, index: int) -> WhichMonster {
    WhichMonster {
        id: monsters[index].monster_id,
        which_of_this_id: count_of_id(monsters, monsters[index].monster_id, 0, index) as usize,
    }
}

/// Counting the monsters of a species before one of them finds that one again.
proof fn lemma_nth_of_id(monsters: Seq<Monster>, id: MonsterId, start: int, index: int)
    requires
        0 <= start <= index < monsters.len(),
        monsters[index].monster_id == id,
    ensures
        nth_of_id(monsters, id, count_of_id(monsters, id, start, index) as int, start) == Some(index),
        count_of_id(monsters, id, start, index) <= index - start,
    decreases index - start,
{
    if start < index {
        lemma_nth_of_id(monsters, id, start + 1, index);
    }
}

impl WhichMonster {
    /// Names a monster still present, picked at random; naming it and looking the name
    /// up gives that monster back.
    pub fn random(state: &CombatState, rng: &mut rand_chacha::ChaCha8Rng) -> (which: WhichMonster)
        requires
            exists|i: int| 0 <= i < state.monsters@.len() && !#[trigger] state.monsters@[i].gone,
        ensures
            exists|i: int|
                0 <= i < state.monsters@.len() && !state.monsters@[i].gone && which
                    == #[trigger] spec_monster_name(state.monsters@, i) && spec_which_monster(
                    *state,
                    which,
                ) == Some(i),
    {
        let mut present: Vec<usize> = Vec::new();
        let mut i: usize = 0;
        while i < state.monsters.len()
            invariant
                i <= state.monsters@.len(),
                forall|k: int|
                    0 <= k < present@.len() ==> #[trigger] present@[k] < i && !state.monsters@[present@[k] as int].gone,
                forall|j: int| 0 <= j < i && !state.monsters@[j].gone ==> present@.contains(j as usize),
            decreases state.monsters@.len() - i,
        {
            let ghost before = present@;
            if !state.monsters[i].gone {
                present.push(i);
            }
            proof {
                assert forall|j: int| 0 <= j < i + 1 && !state.monsters@[j].gone implies present@.contains(
                    j as usize,
                ) by {
                    if j < i {
                        let k = choose|k: int| 0 <= k < before.len() && before[k] == j as usize;
                        assert(present@[k] == j as usize);
                    } else {
                        assert(present@[present@.len() - 1] == i);
                    }
                }
            }
            i = i + 1;
        }
        let ghost witness = choose|j: int| 0 <= j < state.monsters@.len() && !#[trigger] state.monsters@[j].gone;
        assert(present@.contains(witness as usize));
        let index = random_element_of_unsized(rng, &present);
        let id = state.monsters[index].monster_id;
        let mut count: usize = 0;
        let mut j: usize = index;
        while j > 0
            invariant
                j <= index < state.monsters@.len(),
                id == state.monsters@[index as int].monster_id,
                count == count_of_id(state.monsters@, id, j as int, index as int),
                count <= index - j,
            decreases j,
        {
            j = j - 1;
            if state.monsters[j].monster_id == id {
                count = count + 1;
            }
        }
        proof {
            lemma_nth_of_id(state.monsters@, id, 0, index as int);
        }
        let which = WhichMonster { id, which_of_this_id: count };
        assert(which == spec_monster_name(state.monsters@, index as int));
        which
    }
}

/// The ids of the cards, each once, in the order they first appear.
pub open spec fn distinct_card_ids(cards: Seq<SingleCard>) -> Seq<CardId>
    decreases cards.len(),
{
    if cards.len() == 0 {
        seq![]
    } else {
        let earlier = distinct_card_ids(cards.drop_last());
        if earlier.contains(cards.last().card_id) {
            earlier
        } else {
            earlier.push(cards.last().card_id)
        }
    }
}

/// What a random condition that tells choices apart may test: playing a card, ending
/// the turn, playing an attack, a skill or a power, targeting the monster `which`, and
/// playing each card id found in the hand, the draw pile or the discard pile.
pub open spec fn spec_choice_distinguishers(state: CombatState, which: WhichMonster) -> Seq<ConditionKind> {
    seq![
        ConditionKind::PlayCard,
        ConditionKind::EndTurn,
        ConditionKind::PlayCardType(CardType::Attack),
        ConditionKind::PlayCardType(CardType::Skill),
        ConditionKind::PlayCardType(CardType::Power),
        ConditionKind::TargetsMonster(which),
    ] + distinct_card_ids(state.hand@ + state.draw_pile@ + state.discard_pile@).map_values(
        |id: CardId| ConditionKind::PlayCardId(id),
    )
}

/// Appends the card ids of `cards` that `ids` does not hold yet, in order.
fn push_new_card_ids(ids: &mut Vec<CardId>, cards: &Vec<SingleCard>, Ghost(seen): Ghost<Seq<SingleCard>>)
    requires
        old(ids)@ == distinct_card_ids(seen),
    ensures
        final(ids)@ == distinct_card_ids(seen + cards@),
{
    let mut i: usize = 0;
    while i < cards.len()
        invariant
            i <= cards@.len(),
            ids@ == distinct_card_ids(seen + cards@.subrange(0, i as int)),
        decreases cards@.len() - i,
    {
        let id = cards[i].card_id;
        let mut found = false;
        let mut k: usize = 0;
        while k < ids.len()
            invariant
                k <= ids@.len(),
                found == ids@.subrange(0, k as int).contains(id),
            decreases ids@.len() - k,
        {
            if ids[k] == id {
                found = true;
            }
            proof {
                let shorter = ids@.subrange(0, k as int);
                let longer = ids@.subrange(0, k + 1);
                assert(longer == shorter.push(ids@[k as int]));
                if ids@[k as int] == id {
                    assert(longer[k as int] == id);
                } else if shorter.contains(id) {
                    let w = choose|w: int| 0 <= w < shorter.len() && shorter[w] == id;
                    assert(longer[w] == id);
                } else {
                    assert forall|w: int| 0 <= w < longer.len() implies longer[w] != id by {
                        if w < k {
                            assert(longer[w] == shorter[w]);
                        }
                    }
                }
            }
            k = k + 1;
        }
        assert(ids@.subrange(0, ids@.len() as int) == ids@);
        assert((seen + cards@.subrange(0, i + 1)).drop_last() == seen + cards@.subrange(0, i as int));
        if !found {
            ids.push(id);
        }
        i = i + 1;
    }
    assert(cards@.subrange(0, cards@.len() as int) == cards@);
}

/// What a random condition that tells choices apart may test, naming the monster `which`
/// (see `spec_choice_distinguishers`).
pub fn choice_distinguishers(state: &CombatState, which: WhichMonster) -> (options: Vec<ConditionKind>)
    ensures
        options@ == spec_choice_distinguishers(*state, which),
{
    let mut ids: Vec<CardId> = Vec::new();
    assert(Seq::<SingleCard>::empty() + state.hand@ == state.hand@);
    push_new_card_ids(&mut ids, &state.hand, Ghost(Seq::empty()));
    push_new_card_ids(&mut ids, &state.draw_pile, Ghost(state.hand@));
    push_new_card_ids(&mut ids, &state.discard_pile, Ghost(state.hand@ + state.draw_pile@));
    let mut options: Vec<ConditionKind> = vec![
        ConditionKind::PlayCard,
        ConditionKind::EndTurn,
        ConditionKind::PlayCardType(CardType::Attack),
        ConditionKind::PlayCardType(CardType::Skill),
        ConditionKind::PlayCardType(CardType::Power),
        ConditionKind::TargetsMonster(which),
    ];
    let ghost fixed = options@;
    let mut k: usize = 0;
    while k < ids.len()
        invariant
            k <= ids@.len(),
            options@ == fixed + ids@.subrange(0, k as int).map_values(|id: CardId| ConditionKind::PlayCardId(id)),
        decreases ids@.len() - k,
    {
        options.push(ConditionKind::PlayCardId(ids[k]));
        proof {
            assert(ids@.subrange(0, k + 1) == ids@.subrange(0, k as int).push(ids@[k as int]));
            assert(ids@.subrange(0, k + 1).map_values(|id: CardId| ConditionKind::PlayCardId(id))
                == ids@.subrange(0, k as int).map_values(|id: CardId| ConditionKind::PlayCardId(id)).push(
                ConditionKind::PlayCardId(ids@[k as int]),
            ));
        }
        k = k + 1;
    }
    assert(ids@.subrange(0, ids@.len() as int) == ids@);
    options
}

impl Condition {
    /// A random condition that tells choices apart: one of `spec_choice_distinguishers`,
    /// naming a monster still present, and inverted or not at random.
    pub fn random_generally_relevant_choice_distinguisher(
        state: &CombatState,
        rng: &mut rand_chacha::ChaCha8Rng,
    ) -> (condition: Condition)
        requires
            exists|i: int| 0 <= i < state.monsters@.len() && !#[trigger] state.monsters@[i].gone,
        ensures
            exists|which: WhichMonster|
                #[trigger] spec_which_monster(*state, which) is Some
                    && spec_choice_distinguishers(*state, which).contains(condition.kind),
    {
        let which = WhichMonster::random(state, rng);
        let options = choice_distinguishers(state, which);
        let inverted = random_bool(rng);
        let kind = random_element(rng, &options);
        Condition { inverted, kind }
    }
}

impl WhichCreature {
    /// The creature named, if it is still present.
    pub fn get<'a>(&self, state: &'a CombatState) -> (creature: Option<&'a Creature>)
        ensures
            match creature {
                Some(c) => spec_which_creature(*state, *self) == Some(*c),
                None => spec_which_creature(*state, *self) is None,
            },
    {
        match self {
            WhichCreature::Player => Some(&state.player.creature),
            WhichCreature::Monster(m) => match m.get(state) {
                Some(monster) => Some(&monster.creature),
                None => None,
            },
        }
    }
}

/// A 128-bit damage total read as an `i32`, saturating at the ends of the range.
pub open spec fn saturate_i32(x: i128) -> i32 {
    if x > i32::MAX {
        i32::MAX
    } else if x < i32::MIN {
        i32::MIN
    } else {
        x as i32
    }
}

/// `x` when positive, else 0.
pub open spec fn positive_part(x: i32) -> i32 {
    if x > 0 {
        x
    } else {
        0
    }
}

/// The value of a numeric property (subtractions wrap like `i32`): the turn number,
/// the player's energy, a creature's hitpoints or power amount (0 for a creature not
/// present), the damage a choice would deal a monster beyond its block, and the
/// incoming damage beyond the player's block.
pub open spec fn spec_numeric_property(
    state: CombatState,
    incoming_damage: i32,
    damage: Seq<i128>,
    property: NumericProperty,
) -> i32 {
    match property {
        NumericProperty::TurnNumber => state.turn_number,
        NumericProperty::Energy => state.player.energy,
        NumericProperty::CreatureHitpoints(c) => match spec_which_creature(state, c) {
            Some(creature) => creature.hitpoints,
            None => 0,
        },
        NumericProperty::IncomingUnblockedDamage => positive_part(
            i32_specs::wrapping_sub(incoming_damage, state.player.creature.block),
        ),
        NumericProperty::PowerAmount { creature, power } => match spec_which_creature(
            state,
            creature,
        ) {
            Some(c) => spec_power_amount(c.powers@, power),
            None => 0,
        },
        NumericProperty::UnblockedDamageToMonster(m) => match spec_which_monster(state, m) {
            Some(j) => positive_part(
                i32_specs::wrapping_sub(
                    saturate_i32(damage[j]),
                    state.monsters@[j].creature.block,
                ),
            ),
            None => 0,
        },
    }
}

/// Whether a numeric property can be read: the damage of a monster named must be known.
pub open spec fn spec_property_defined(
    state: CombatState,
    damage: Seq<i128>,
    property: NumericProperty,
) -> bool {
    match property {
        NumericProperty::UnblockedDamageToMonster(m) => match spec_which_monster(state, m) {
            Some(j) => j < damage.len(),
            None => true,
        },
        _ => true,
    }
}

/// Whether a condition kind holds of a choice (no choice uses a potion here).
pub open spec fn spec_kind_holds(
    state: CombatState,
    incoming_damage: i32,
    choice: DynAction,
    damage: Seq<i128>,
    kind: ConditionKind,
) -> bool {
    match kind {
        ConditionKind::EndTurn => choice is EndTurn,
        ConditionKind::PlayCard => choice is PlayCard,
        ConditionKind::PlayCardType(card_type) => match choice {
            DynAction::PlayCard(p) => spec_card_info(p.card.card_id).card_type == card_type,
            _ => false,
        },
        ConditionKind::PlayCardId(id) => match choice {
            DynAction::PlayCard(p) => p.card.card_id == id,
            _ => false,
        },
        ConditionKind::UsePotion => false,
        ConditionKind::UsePotionId(_) => false,
        ConditionKind::TargetsMonster(m) => match choice {
            DynAction::PlayCard(p) => spec_card_info(p.card.card_id).has_target
                && spec_which_monster(state, m) == Some(p.target as int),
            _ => false,
        },
        ConditionKind::Upgraded => match choice {
            DynAction::PlayCard(p) => p.card.upgrades > 0,
            _ => false,
        },
        ConditionKind::NumericPropertyGt { threshold, property } => spec_numeric_property(
            state,
            incoming_damage,
            damage,
            property,
        ) > threshold,
        ConditionKind::MonsterIntent { monster, intent_included } => match spec_which_monster(
            state,
            monster,
        ) {
            Some(j) => intent_included@[state.monsters@[j].move_history@.last() as int],
            None => false,
        },
        ConditionKind::HasPower { creature, power } => match spec_which_creature(state, creature) {
            Some(c) => spec_has_power(c.powers@, power),
            None => false,
        },
    }
}

/// Whether a condition kind can be evaluated: a monster whose intent is tested shows
/// an intent numbered below `MAX_INTENTS`, and a numeric property can be read.
pub open spec fn spec_kind_defined(state: CombatState, damage: Seq<i128>, kind: ConditionKind) -> bool {
    match kind {
        ConditionKind::NumericPropertyGt { property, .. } => spec_property_defined(
            state,
            damage,
            property,
        ),
        ConditionKind::MonsterIntent { monster, .. } => match spec_which_monster(state, monster) {
            Some(j) => {
                let history = state.monsters@[j].move_history@;
                history.len() > 0 && 0 <= history.last() < MAX_INTENTS
            },
            None => true,
        },
        _ => true,
    }
}

impl NumericProperty {
    /// The value of this property for a choice (see `spec_numeric_property`).
    pub fn evaluate(&self, state: &CombatState, context: &ChoiceEvaluationContext) -> (value: i32)
        requires
            spec_property_defined(*state, context.choice.stats.damage@, *self),
        ensures
            value == spec_numeric_property(
                *state,
                context.global.incoming_damage,
                context.choice.stats.damage@,
                *self,
            ),
    {
        match self {
            NumericProperty::TurnNumber => state.turn_number,
            NumericProperty::Energy => state.player.energy,
            NumericProperty::CreatureHitpoints(c) => match c.get(state) {
                Some(creature) => creature.hitpoints,
                None => 0,
            },
            NumericProperty::IncomingUnblockedDamage => {
                let d = context.global.incoming_damage.wrapping_sub(state.player.creature.block);
                if d > 0 {
                    d
                } else {
                    0
                }
            },
            NumericProperty::PowerAmount { creature, power } => match creature.get(state) {
                Some(c) => c.power_amount(*power),
                None => 0,
            },
            NumericProperty::UnblockedDamageToMonster(m) => match m.get_with_index(state) {
                Some((index, monster)) => {
                    let total = context.choice.stats.damage[index];
                    let dealt: i32 = if total > i32::MAX as i128 {
                        i32::MAX
                    } else if total < i32::MIN as i128 {
                        i32::MIN
                    } else {
                        total as i32
                    };
                    let d = dealt.wrapping_sub(monster.creature.block);
                    if d > 0 {
                        d
                    } else {
                        0
                    }
                },
                None => 0,
            },
        }
    }
}

impl Condition {
    /// Whether the condition holds of a choice: its kind holds, unless inverted.
    pub fn evaluate(&self, state: &CombatState, context: &ChoiceEvaluationContext) -> (holds: bool)
        requires
            spec_kind_defined(*state, context.choice.stats.damage@, self.kind),
        ensures
            holds == (self.inverted != spec_kind_holds(
                *state,
                context.global.incoming_damage,
                context.choice.choice,
                context.choice.stats.damage@,
                self.kind,
            )),
    {
        let choice = context.choice.choice;
        let kind_holds = match self.kind {
            ConditionKind::EndTurn => match choice {
                DynAction::EndTurn(_) => true,
                _ => false,
            },
            ConditionKind::PlayCard => match choice {
                DynAction::PlayCard(_) => true,
                _ => false,
            },
            ConditionKind::PlayCardType(card_type) => match choice {
                DynAction::PlayCard(p) => card_info(p.card.card_id).card_type == card_type,
                _ => false,
            },
            ConditionKind::PlayCardId(id) => match choice {
                DynAction::PlayCard(p) => p.card.card_id == id,
                _ => false,
            },
            ConditionKind::UsePotion => false,
            ConditionKind::UsePotionId(_) => false,
            ConditionKind::TargetsMonster(m) => match choice {
                DynAction::PlayCard(p) => {
                    if card_info(p.card.card_id).has_target {
                        match m.index(state) {
                            Some(i) => i == p.target,
                            None => false,
                        }
                    } else {
                        false
                    }
                },
                _ => false,
            },
            ConditionKind::Upgraded => match choice {
                DynAction::PlayCard(p) => p.card.upgrades > 0,
                _ => false,
            },
            ConditionKind::NumericPropertyGt { threshold, property } => property.evaluate(
                state,
                context,
            ) > threshold,
            ConditionKind::MonsterIntent { monster, intent_included } => match monster.get(state) {
                Some(m) => {
                    let intent = m.intent();
                    intent_included[intent as usize]
                },
                None => false,
            },
            ConditionKind::HasPower { creature, power } => match creature.get(state) {
                Some(c) => c.has_power(power),
                None => false,
            },
        };
        self.inverted != kind_holds
    }
}

/// What a choice would do, as `EvaluationData::new` records it: a card play's stats,
/// and no block or damage for other choices.
pub open spec fn spec_choice_data(state: CombatState, data: ChoiceEvaluationData, choice: DynAction) -> bool {
    &&& data.choice == choice
    &&& match choice {
        DynAction::PlayCard(PlayCard { card, target }) => {
            &&& data.stats.block_amount == spec_block_total(spec_card_actions(state, card, target))
            &&& data.stats.damage@.len() == state.monsters@.len()
            &&& forall|m: int|
                0 <= m < state.monsters@.len() ==> #[trigger] data.stats.damage@[m] == spec_damage_to(
                    state,
                    spec_card_actions(state, card, target),
                    m,
                )
        },
        _ => data.stats.block_amount == 0 && data.stats.damage@.len() == 0,
    }
}

impl EvaluationData {
    /// The evaluation data of a combat: the damage the monsters' intents would deal
    /// beyond the player's block (never below 0; subtraction wraps like `i32`), and every
    /// legal choice, in order, with what it would do.
    pub fn new(state: &CombatState) -> (data: EvaluationData)
        requires
            state.wf(),
            present_intents_valid(*state),
            state.monsters@.len() > 0 || forall|i: int|
                0 <= i < state.hand@.len() ==> !(#[trigger] state.hand@[i].card_id == CardId::Immolate
                    && spec_card_playable(*state, state.hand@[i])),
        ensures
            data.incoming_damage == positive_part(
                i32_specs::wrapping_sub(
                    spec_intent_damage_up_to(*state, state.monsters@.len() as int),
                    state.player.creature.block,
                ),
            ),
            data.choices@.len() == spec_legal_choices(*state).len(),
            forall|k: int|
                0 <= k < data.choices@.len() ==> spec_choice_data(
                    *state,
                    #[trigger] data.choices@[k],
                    spec_legal_choices(*state)[k],
                ),
    {
        let legal = state.legal_choices();
        let d = state.total_monster_attack_intent_damage().wrapping_sub(state.player.creature.block);
        let incoming_damage = if d > 0 {
            d
        } else {
            0
        };
        proof {
            lemma_legal_choice_targets(*state);
            assert forall|j: int| 0 <= j < legal@.len() implies (#[trigger] legal@[j] matches DynAction::PlayCard(p)
                ==> (spec_card_hits_target(p.card.card_id) ==> p.target < state.monsters@.len())) by {
                if let DynAction::PlayCard(p) = legal@[j] {
                    assert(spec_legal_choices(*state)[j] == legal@[j]);
                    let i = choose|i: int|
                        0 <= i < state.hand@.len() && state.hand@[i] == p.card && spec_card_playable(*state, p.card);
                    assert(state.hand@[i].card_id == p.card.card_id);
                }
            }
        }
        let mut choices: Vec<ChoiceEvaluationData> = Vec::new();
        let mut k: usize = 0;
        while k < legal.len()
            invariant
                k <= legal@.len(),
                legal@ == spec_legal_choices(*state),
                state.wf(),
                forall|j: int|
                    0 <= j < legal@.len() ==> (#[trigger] legal@[j] matches DynAction::PlayCard(p) ==> (
                    spec_card_hits_target(p.card.card_id) ==> p.target < state.monsters@.len())),
                choices@.len() == k,
                forall|j: int|
                    0 <= j < k ==> spec_choice_data(*state, #[trigger] choices@[j], legal@[j]),
            decreases legal@.len() - k,
        {
            let choice = legal[k];
            let stats = match choice {
                DynAction::PlayCard(p) => {
                    assert(legal@[k as int] == choice);
                    card_play_stats(state, &p.card, p.target)
                },
                _ => CardPlayStats::default(),
            };
            choices.push(ChoiceEvaluationData { choice, stats });
            k = k + 1;
        }
        EvaluationData { incoming_damage, choices }
    }

    /// The context of the choice at `index`.
    pub fn context(&self, index: usize) -> (context: ChoiceEvaluationContext)
        requires
            index < self.choices@.len(),
        ensures
            *context.global == *self,
            *context.choice == self.choices@[index as int],
    {
        ChoiceEvaluationContext { global: self, choice: &self.choices[index] }
    }
}

} // verus!
