//! How the random outcomes of a combat are grouped into lineages, and where the values
//! of each lineage are kept.
use vstd::prelude::*;

use crate::actions::{ChooseMonsterIntent, DynAction, InitializeMonsterInnateDamageAmount};
use crate::seed_system::{ChoiceLineageIdentity, ChoiceLineages, ChoiceLineagesKind, GameState};
use crate::simulation_state::cards::{card_id_number, card_id_rank, lemma_card_id_rank_inverse};
use crate::simulation_state::monsters::MAX_INTENTS;
use crate::simulation_state::{CardId, CombatState, MAX_MONSTERS};

verus! {

impl GameState for CombatState {
    type RandomForkType = DynAction;
    type RandomChoice = i32;
}

/// The number of card ids.
pub const NUM_CARD_IDS: usize = 74;

/// One value per turn, turns numbered from 1.
#[derive(Clone, Debug, Default)]
pub struct TurnMap<T> {
    pub values: Vec<T>,
}

/// The value of a turn, if one is kept.
pub open spec fn turn_slot<T>(map: TurnMap<T>, turn: u8) -> Option<T> {
    if 1 <= turn && turn - 1 < map.values@.len() {
        Some(map.values@[turn - 1])
    } else {
        None
    }
}

impl<T: Default> TurnMap<T> {
    /// The value of a turn; when none is kept yet, values up to this turn are created
    /// with `T::default()`.
    pub fn get_mut(&mut self, turn: u8) -> (slot: &mut T)
        requires
            turn >= 1,
        ensures
            final(self).values@.len() == if old(self).values@.len() >= turn {
                old(self).values@.len() as int
            } else {
                turn as int
            },
            turn_slot(*old(self), turn) matches Some(v) ==> *slot == v,
            turn_slot(*old(self), turn) is None ==> call_ensures(T::default, (), *slot),
            forall|k: int|
                0 <= k < old(self).values@.len() && k != turn - 1 ==> #[trigger] final(self).values@[k]
                    == old(self).values@[k],
            forall|k: int|
                old(self).values@.len() <= k < turn - 1 ==> call_ensures(
                    T::default,
                    (),
                    #[trigger] final(self).values@[k],
                ),
            final(self).values@[turn - 1] == *final(slot),
    {
        let index = (turn - 1) as usize;
        while self.values.len() <= index
            invariant
                old(self).values@.len() <= self.values@.len(),
                self.values@.len() > old(self).values@.len() ==> self.values@.len() <= index + 1,
                index == turn - 1,
                forall|k: int|
                    old(self).values@.len() <= k < self.values@.len() ==> call_ensures(
                        T::default,
                        (),
                        #[trigger] self.values@[k],
                    ),
                forall|k: int|
                    0 <= k < old(self).values@.len() ==> #[trigger] self.values@[k]
                    == old(self).values@[k],
            decreases index + 1 - self.values@.len(),
        {
            let value = T::default();
            self.values.push(value);
        }
        &mut self.values[index]
    }
}

/// The lineage of a random outcome of a combat.
#[derive(Clone, Copy, Debug, Hash, PartialEq, Eq, Structural)]
pub enum CombatChoiceLineageIdentity {
    DrawCard { card: CardId, turn: u8, reshuffles: u8 },
    ChooseMonsterIntent { turn: u8, monster_index: u8, intent: u8 },
    AttackRandomEnemy { target: u8 },
    InitializeMonsterInnateDamageAmount { monster_index: u8 },
    GainBlockRandomMonster { turn: u8, target: u8 },
    Uncategorized,
}

/// The lineage of an outcome: a drawn card by its id, turn and reshuffle count; a
/// monster's intent by turn, monster and intent; a random attack by its target; a
/// monster's rolled damage by the monster; a random block by turn and target; anything
/// else shares one lineage. Numbers are taken modulo 256.
pub open spec fn spec_lineage_identity(state: CombatState, action: DynAction, choice: i32) -> CombatChoiceLineageIdentity {
    match action {
        DynAction::DrawCardRandom(_) => CombatChoiceLineageIdentity::DrawCard {
            card: state.draw_pile@[choice as int].card_id,
            turn: state.turn_number as u8,
            reshuffles: state.num_reshuffles as u8,
        },
        DynAction::ChooseMonsterIntent(ChooseMonsterIntent(monster_index)) =>
            CombatChoiceLineageIdentity::ChooseMonsterIntent {
            turn: state.turn_number as u8,
            monster_index: monster_index as u8,
            intent: choice as u8,
        },
        DynAction::AttackDamageRandomEnemyAction(_) => CombatChoiceLineageIdentity::AttackRandomEnemy {
            target: choice as u8,
        },
        DynAction::InitializeMonsterInnateDamageAmount(a) =>
            CombatChoiceLineageIdentity::InitializeMonsterInnateDamageAmount {
            monster_index: a.monster_index as u8,
        },
        DynAction::GainBlockRandomMonsterAction(_) => CombatChoiceLineageIdentity::GainBlockRandomMonster {
            turn: state.turn_number as u8,
            target: choice as u8,
        },
        _ => CombatChoiceLineageIdentity::Uncategorized,
    }
}

impl ChoiceLineageIdentity<CombatState> for CombatChoiceLineageIdentity {
    /// A drawn card must be in the draw pile.
    open spec fn identity_defined(state: &CombatState, action: &DynAction, choice: &i32) -> bool {
        action is DrawCardRandom ==> 0 <= *choice < state.draw_pile@.len()
    }

    fn lineage_identity(state: &CombatState, action: &DynAction, choice: &i32) -> (identity: Self)
        ensures
            identity == spec_lineage_identity(*state, *action, *choice),
    {
        let choice = *choice;
        #[verifier::truncate]
        let turn = state.turn_number as u8;
        match action {
            DynAction::DrawCardRandom(_) => {
                #[verifier::truncate]
                let reshuffles = state.num_reshuffles as u8;
                CombatChoiceLineageIdentity::DrawCard {
                    card: state.draw_pile[choice as usize].card_id,
                    turn,
                    reshuffles,
                }
            },
            DynAction::ChooseMonsterIntent(ChooseMonsterIntent(monster_index)) => {
                #[verifier::truncate]
                let monster_index = *monster_index as u8;
                #[verifier::truncate]
                let intent = choice as u8;
                CombatChoiceLineageIdentity::ChooseMonsterIntent { turn, monster_index, intent }
            },
            DynAction::AttackDamageRandomEnemyAction(_) => {
                #[verifier::truncate]
                let target = choice as u8;
                CombatChoiceLineageIdentity::AttackRandomEnemy { target }
            },
            DynAction::InitializeMonsterInnateDamageAmount(a) => {
                #[verifier::truncate]
                let monster_index = a.monster_index as u8;
                CombatChoiceLineageIdentity::InitializeMonsterInnateDamageAmount { monster_index }
            },
            DynAction::GainBlockRandomMonsterAction(_) => {
                #[verifier::truncate]
                let target = choice as u8;
                CombatChoiceLineageIdentity::GainBlockRandomMonster { turn, target }
            },
            _ => CombatChoiceLineageIdentity::Uncategorized,
        }
    }
}

/// The value of every lineage of a combat: per card id a turn map of values by
/// reshuffle count; per monster and intent a turn map; per target of a random attack,
/// per monster for rolled damage, per target of random block (by turn), and one value
/// for everything else.
#[derive(Clone, Debug)]
pub struct CombatChoiceLineages<T> {
    pub draw_card: Vec<TurnMap<Vec<(u8, T)>>>,
    pub choose_monster_intent: Vec<TurnMap<T>>,
    pub attack_random_enemy: Vec<T>,
    pub initialize_monster_innate_damage_amount: Vec<T>,
    pub gain_block_random_monster: Vec<TurnMap<T>>,
    pub uncategorized: T,
}

/// Whether a list of values by reshuffle count has one for `reshuffles`.
pub open spec fn has_reshuffle<T>(list: Seq<(u8, T)>, reshuffles: u8) -> bool {
    exists|k: int| 0 <= k < list.len() && #[trigger] list[k].0 == reshuffles
}

/// The first place of the value for `reshuffles`.
pub open spec fn reshuffle_position<T>(list: Seq<(u8, T)>, reshuffles: u8) -> int {
    choose|k: int|
        0 <= k < list.len() && #[trigger] list[k].0 == reshuffles && forall|j: int|
            0 <= j < k ==> list[j].0 != reshuffles
}

/// The value kept for `reshuffles`, if any.
pub open spec fn reshuffle_slot<T>(list: Seq<(u8, T)>, reshuffles: u8) -> Option<T> {
    if has_reshuffle(list, reshuffles) {
        Some(list[reshuffle_position(list, reshuffles)].1)
    } else {
        None
    }
}

proof fn lemma_reshuffle_position<T>(list: Seq<(u8, T)>, reshuffles: u8, k: int)
    requires
        0 <= k < list.len(),
        list[k].0 == reshuffles,
        forall|j: int| 0 <= j < k ==> list[j].0 != reshuffles,
    ensures
        has_reshuffle(list, reshuffles),
        reshuffle_position(list, reshuffles) == k,
{
    let p = reshuffle_position(list, reshuffles);
    assert(list[k].0 == reshuffles);
    if p < k {
        assert(list[p].0 != reshuffles);
    } else if p > k {
        assert(list[k].0 != reshuffles);
    }
}

/// The value kept for a turn of the map at `index`, if any.
pub open spec fn maps_slot<U>(maps: Seq<TurnMap<U>>, index: int, turn: u8) -> Option<U> {
    turn_slot(maps[index], turn)
}

/// The value kept for a turn and reshuffle count of the map at `index`, if any.
pub open spec fn draw_slot<U>(maps: Seq<TurnMap<Vec<(u8, U)>>>, index: int, turn: u8, reshuffles: u8) -> Option<U> {
    match turn_slot(maps[index], turn) {
        Some(list) => reshuffle_slot(list@, reshuffles),
        None => None,
    }
}

impl<T> CombatChoiceLineages<T> {
    /// The lists have their fixed lengths.
    pub open spec fn wf(&self) -> bool {
        &&& self.draw_card@.len() == NUM_CARD_IDS
        &&& self.choose_monster_intent@.len() == MAX_MONSTERS * MAX_INTENTS
        &&& self.attack_random_enemy@.len() == MAX_MONSTERS
        &&& self.initialize_monster_innate_damage_amount@.len() == MAX_MONSTERS
        &&& self.gain_block_random_monster@.len() == MAX_MONSTERS
    }

    /// The value kept for a lineage, if any.
    pub open spec fn slot(&self, identity: CombatChoiceLineageIdentity) -> Option<T> {
        match identity {
            CombatChoiceLineageIdentity::DrawCard { card, turn, reshuffles } => draw_slot(
                self.draw_card@,
                card_id_rank(card),
                turn,
                reshuffles,
            ),
            CombatChoiceLineageIdentity::ChooseMonsterIntent { turn, monster_index, intent } =>
                maps_slot(
                self.choose_monster_intent@,
                monster_index * MAX_INTENTS + intent,
                turn,
            ),
            CombatChoiceLineageIdentity::AttackRandomEnemy { target } => Some(
                self.attack_random_enemy@[target as int],
            ),
            CombatChoiceLineageIdentity::InitializeMonsterInnateDamageAmount { monster_index } =>
                Some(self.initialize_monster_innate_damage_amount@[monster_index as int]),
            CombatChoiceLineageIdentity::GainBlockRandomMonster { turn, target } => maps_slot(
                self.gain_block_random_monster@,
                target as int,
                turn,
            ),
            CombatChoiceLineageIdentity::Uncategorized => Some(self.uncategorized),
        }
    }
}

/// Whether a lineage can be kept: monsters and targets are below `MAX_MONSTERS`,
/// intents below `MAX_INTENTS`, and turns are numbered from 1.
pub open spec fn identity_in_range(identity: CombatChoiceLineageIdentity) -> bool {
    match identity {
        CombatChoiceLineageIdentity::DrawCard { turn, .. } => turn >= 1,
        CombatChoiceLineageIdentity::ChooseMonsterIntent { turn, monster_index, intent } => turn
            >= 1 && monster_index < MAX_MONSTERS && intent < MAX_INTENTS,
        CombatChoiceLineageIdentity::AttackRandomEnemy { target } => target < MAX_MONSTERS,
        CombatChoiceLineageIdentity::InitializeMonsterInnateDamageAmount { monster_index } =>
            monster_index < MAX_MONSTERS,
        CombatChoiceLineageIdentity::GainBlockRandomMonster { turn, target } => turn >= 1 && target
            < MAX_MONSTERS,
        CombatChoiceLineageIdentity::Uncategorized => true,
    }
}

fn new_turn_maps<U>(count: usize) -> (maps: Vec<TurnMap<U>>)
    ensures
        maps@.len() == count,
        forall|k: int| 0 <= k < count ==> (#[trigger] maps@[k]).values@.len() == 0,
{
    let mut maps: Vec<TurnMap<U>> = Vec::new();
    let mut i: usize = 0;
    while i < count
        invariant
            i <= count,
            maps@.len() == i,
            forall|k: int| 0 <= k < i ==> (#[trigger] maps@[k]).values@.len() == 0,
        decreases count - i,
    {
        maps.push(TurnMap { values: Vec::new() });
        i = i + 1;
    }
    maps
}

fn new_defaults<U: Default>(count: usize) -> (values: Vec<U>)
    ensures
        values@.len() == count,
{
    let mut values: Vec<U> = Vec::new();
    let mut i: usize = 0;
    while i < count
        invariant
            i <= count,
            values@.len() == i,
        decreases count - i,
    {
        values.push(U::default());
        i = i + 1;
    }
    values
}

impl<T: Default> Default for CombatChoiceLineages<T> {
    /// No lineage has a value yet but those kept in fixed places, which start at
    /// `T::default()`.
    fn default() -> (lineages: CombatChoiceLineages<T>)
        ensures
            lineages.wf(),
            forall|k: int| 0 <= k < NUM_CARD_IDS ==> (#[trigger] lineages.draw_card@[k]).values@.len() == 0,
            forall|k: int|
                0 <= k < MAX_MONSTERS * MAX_INTENTS ==> (
                #[trigger] lineages.choose_monster_intent@[k]).values@.len() == 0,
            forall|k: int|
                0 <= k < MAX_MONSTERS ==> (
                #[trigger] lineages.gain_block_random_monster@[k]).values@.len() == 0,
    {
        CombatChoiceLineages {
            draw_card: new_turn_maps(NUM_CARD_IDS),
            choose_monster_intent: new_turn_maps(MAX_MONSTERS * MAX_INTENTS),
            attack_random_enemy: new_defaults(MAX_MONSTERS),
            initialize_monster_innate_damage_amount: new_defaults(MAX_MONSTERS),
            gain_block_random_monster: new_turn_maps(MAX_MONSTERS),
            uncategorized: T::default(),
        }
    }
}

/// The lineages of a combat.
pub struct CombatChoiceLineagesKind;

impl ChoiceLineagesKind for CombatChoiceLineagesKind {
    type LineageIdentity = CombatChoiceLineageIdentity;
}


proof fn lemma_first_reshuffle<T>(list: Seq<(u8, T)>, reshuffles: u8, bound: int)
    requires
        0 <= bound <= list.len(),
        exists|k: int| 0 <= k < bound && #[trigger] list[k].0 == reshuffles,
    ensures
        ({
            let p = reshuffle_position(list, reshuffles);
            0 <= p < list.len() && list[p].0 == reshuffles && forall|j: int|
                0 <= j < p ==> list[j].0 != reshuffles
        }),
    decreases bound,
{
    if exists|k: int| 0 <= k < bound - 1 && #[trigger] list[k].0 == reshuffles {
        lemma_first_reshuffle(list, reshuffles, bound - 1);
    } else {
        let k = bound - 1;
        assert(list[k].0 == reshuffles);
        assert(forall|j: int| 0 <= j < k ==> list[j].0 != reshuffles);
        lemma_reshuffle_position(list, reshuffles, k);
    }
}

proof fn lemma_reshuffle_keep<T>(
    kept: Seq<(u8, T)>,
    list: Seq<(u8, T)>,
    reshuffles: u8,
    k: int,
    x: T,
    r: u8,
)
    requires
        0 <= k < list.len(),
        list[k].0 == reshuffles,
        kept.len() <= list.len(),
        forall|j: int| 0 <= j < kept.len() ==> list[j] == kept[j],
        r != reshuffles,
        has_reshuffle(kept, r),
    ensures
        reshuffle_slot(list.update(k, (reshuffles, x)), r) == reshuffle_slot(kept, r),
{
    let fin = list.update(k, (reshuffles, x));
    lemma_first_reshuffle(kept, r, kept.len() as int);
    let p = reshuffle_position(kept, r);
    assert(p != k) by {
        if p == k {
            assert(list[k] == kept[k]);
        }
    }
    assert(fin[p] == kept[p]);
    assert forall|j: int| 0 <= j < p implies fin[j].0 != r by {
        if j == k {
            assert(fin[j].0 == reshuffles);
        } else {
            assert(fin[j] == kept[j]);
        }
    }
    lemma_reshuffle_position(fin, r, p);
}

proof fn lemma_reshuffle_found<T>(list: Seq<(u8, T)>, reshuffles: u8, k: int, x: T)
    requires
        0 <= k < list.len(),
        list[k].0 == reshuffles,
        forall|j: int| 0 <= j < k ==> list[j].0 != reshuffles,
    ensures
        reshuffle_slot(list.update(k, (reshuffles, x)), reshuffles) == Some(x),
{
    let fin = list.update(k, (reshuffles, x));
    assert forall|j: int| 0 <= j < k implies fin[j].0 != reshuffles by {
        assert(fin[j] == list[j]);
    }
    lemma_reshuffle_position(fin, reshuffles, k);
}

proof fn lemma_reshuffle_set<T>(kept: Seq<(u8, T)>, list: Seq<(u8, T)>, reshuffles: u8, k: int)
    requires
        0 <= k < list.len(),
        list[k].0 == reshuffles,
        forall|j: int| 0 <= j < k ==> list[j].0 != reshuffles,
        kept.len() <= list.len(),
        forall|j: int| 0 <= j < kept.len() ==> list[j] == kept[j],
    ensures
        forall|x: T|
            #![trigger list.update(k, (reshuffles, x))]
            reshuffle_slot(list.update(k, (reshuffles, x)), reshuffles) == Some(x),
        forall|x: T, r: u8|
            r != reshuffles && has_reshuffle(kept, r) ==> #[trigger] reshuffle_slot(
                list.update(k, (reshuffles, x)),
                r,
            ) == reshuffle_slot(kept, r),
{
    assert forall|x: T| #![trigger list.update(k, (reshuffles, x))]
        reshuffle_slot(list.update(k, (reshuffles, x)), reshuffles) == Some(x) by {
        lemma_reshuffle_found(list, reshuffles, k, x);
    }
    assert forall|x: T, r: u8| r != reshuffles && has_reshuffle(kept, r) implies #[trigger] reshuffle_slot(
        list.update(k, (reshuffles, x)),
        r,
    ) == reshuffle_slot(kept, r) by {
        lemma_reshuffle_keep(kept, list, reshuffles, k, x, r);
    }
}

/// The value for `reshuffles` in a list of values by reshuffle count, added with
/// `T::default()` when missing.
fn reshuffle_get_mut<T: Default>(list: &mut Vec<(u8, T)>, reshuffles: u8) -> (slot: &mut T)
    ensures
        reshuffle_slot(old(list)@, reshuffles) matches Some(v) ==> *slot == v,
        reshuffle_slot(old(list)@, reshuffles) is None ==> call_ensures(T::default, (), *slot),
        reshuffle_slot(final(list)@, reshuffles) == Some(*final(slot)),
        forall|r: u8|
            r != reshuffles && has_reshuffle(old(list)@, r) ==> #[trigger] reshuffle_slot(
                final(list)@,
                r,
            ) == reshuffle_slot(old(list)@, r),
{
    let mut k: usize = 0;
    while k < list.len() && list[k].0 != reshuffles
        invariant
            k <= list@.len(),
            list@ == old(list)@,
            forall|j: int| 0 <= j < k ==> list@[j].0 != reshuffles,
        decreases list@.len() - k,
    {
        k = k + 1;
    }
    let ghost before = list@;
    if k == list.len() {
        let value = T::default();
        list.push((reshuffles, value));
        proof {
            assert(!has_reshuffle(old(list)@, reshuffles)) by {
                if has_reshuffle(old(list)@, reshuffles) {
                    let j = choose|j: int| 0 <= j < old(list)@.len() && #[trigger] old(list)@[j].0
                        == reshuffles;
                    assert(old(list)@[j].0 != reshuffles);
                }
            }
        }
    }
    let ghost pushed = list@;
    proof {
        lemma_reshuffle_position(pushed, reshuffles, k as int);
        if k < old(list)@.len() {
            lemma_reshuffle_position(old(list)@, reshuffles, k as int);
        }
    }
    proof {
        lemma_reshuffle_set(old(list)@, pushed, reshuffles, k as int);
    }
    &mut list[k].1
}

fn turn_maps_get_mut<U: Default>(maps: &mut Vec<TurnMap<U>>, index: usize, turn: u8) -> (slot: &mut U)
    requires
        index < old(maps)@.len(),
        turn >= 1,
    ensures
        final(maps)@.len() == old(maps)@.len(),
        maps_slot(old(maps)@, index as int, turn) matches Some(v) ==> *slot == v,
        maps_slot(old(maps)@, index as int, turn) is None ==> call_ensures(U::default, (), *slot),
        maps_slot(final(maps)@, index as int, turn) == Some(*final(slot)),
        forall|i: int, t: u8|
            0 <= i < old(maps)@.len() && (i != index || t != turn) && maps_slot(old(maps)@, i, t) is Some
                ==> #[trigger] maps_slot(final(maps)@, i, t) == maps_slot(old(maps)@, i, t),
{
    maps[index].get_mut(turn)
}

fn draw_maps_get_mut<U: Default>(
    maps: &mut Vec<TurnMap<Vec<(u8, U)>>>,
    index: usize,
    turn: u8,
    reshuffles: u8,
) -> (slot: &mut U)
    requires
        index < old(maps)@.len(),
        turn >= 1,
    ensures
        final(maps)@.len() == old(maps)@.len(),
        draw_slot(old(maps)@, index as int, turn, reshuffles) matches Some(v) ==> *slot == v,
        draw_slot(old(maps)@, index as int, turn, reshuffles) is None ==> call_ensures(
            U::default,
            (),
            *slot,
        ),
        draw_slot(final(maps)@, index as int, turn, reshuffles) == Some(*final(slot)),
        forall|i: int, t: u8, r: u8|
            0 <= i < old(maps)@.len() && (i != index || t != turn || r != reshuffles) && draw_slot(
                old(maps)@,
                i,
                t,
                r,
            ) is Some ==> #[trigger] draw_slot(final(maps)@, i, t, r) == draw_slot(old(maps)@, i, t, r),
{
    let list = maps[index].get_mut(turn);
    reshuffle_get_mut(list, reshuffles)
}

/// Card ids and their places in the declaration order correspond one to one.
proof fn lemma_card_ranks()
    ensures
        forall|a: CardId, b: CardId| card_id_rank(a) == card_id_rank(b) ==> a == b,
        forall|a: CardId| 0 <= #[trigger] card_id_rank(a) < NUM_CARD_IDS,
{
    assert forall|a: CardId, b: CardId| card_id_rank(a) == card_id_rank(b) implies a == b by {
        lemma_card_id_rank_inverse(a);
        lemma_card_id_rank_inverse(b);
    }
    assert forall|a: CardId| 0 <= #[trigger] card_id_rank(a) < NUM_CARD_IDS by {
        lemma_card_id_rank_inverse(a);
    }
}

impl<T: Default> ChoiceLineages for CombatChoiceLineages<T> {
    type LineageIdentity = CombatChoiceLineageIdentity;
    type Lineage = T;

    open spec fn holds_identity(&self, identity: CombatChoiceLineageIdentity) -> bool {
        self.wf() && identity_in_range(identity)
    }

    /// The value of a lineage, created with `T::default()` (and the turns before it) when
    /// first asked for; the values of the other lineages kept so far stay as they are.
    fn get_mut(&mut self, identity: CombatChoiceLineageIdentity) -> (lineage: &mut T)
        ensures
            final(self).wf(),
            old(self).slot(identity) matches Some(v) ==> *lineage == v,
            old(self).slot(identity) is None ==> call_ensures(T::default, (), *lineage),
            final(self).slot(identity) == Some(*final(lineage)),
            forall|other: CombatChoiceLineageIdentity|
                old(self).holds_identity(other) && other != identity && old(self).slot(other) is Some
                    ==> #[trigger] final(self).slot(other) == old(self).slot(other),
    {
        proof {
            lemma_card_ranks();
        }
        match identity {
            CombatChoiceLineageIdentity::DrawCard { card, turn, reshuffles } => {
                let c = card_id_number(card) as usize;
                draw_maps_get_mut(&mut self.draw_card, c, turn, reshuffles)
            },
            CombatChoiceLineageIdentity::ChooseMonsterIntent { turn, monster_index, intent } => {
                let index = (monster_index as usize) * MAX_INTENTS + (intent as usize);
                turn_maps_get_mut(&mut self.choose_monster_intent, index, turn)
            },
            CombatChoiceLineageIdentity::AttackRandomEnemy { target } => {
                &mut self.attack_random_enemy[target as usize]
            },
            CombatChoiceLineageIdentity::InitializeMonsterInnateDamageAmount { monster_index } => {
                &mut self.initialize_monster_innate_damage_amount[monster_index as usize]
            },
            CombatChoiceLineageIdentity::GainBlockRandomMonster { turn, target } => {
                turn_maps_get_mut(&mut self.gain_block_random_monster, target as usize, turn)
            },
            CombatChoiceLineageIdentity::Uncategorized => &mut self.uncategorized,
        }
    }
}


/// The values a seed has drawn so far for one lineage, in the order they were asked for.
#[derive(Clone, Debug)]
pub struct SingleSeedLineage {
    pub generated_values: Vec<u64>,
}

impl Default for SingleSeedLineage {
    /// No value drawn yet.
    fn default() -> (lineage: SingleSeedLineage)
        ensures
            lineage.generated_values@.len() == 0,
    {
        SingleSeedLineage { generated_values: Vec::new() }
    }
}

/// `seahash::SeaHasher::with_seeds(k1, k2, k3, k4)` fed the request number and then
/// the lineage (through `Hash::hash`), finished. Nothing is claimed of the value: the
/// lineage's derived hash writes its variant number as an `isize`, whose width is the
/// machine's word size, so the value differs between machines.
#[verifier::external_body]
fn request_hash(
    hasher_seeds: [u64; 4],
    prior_requests: u32,
    identity: CombatChoiceLineageIdentity,
) -> u64 {
    let mut hasher = seahash::SeaHasher::with_seeds(
        hasher_seeds[0],
        hasher_seeds[1],
        hasher_seeds[2],
        hasher_seeds[3],
    );
    std::hash::Hash::hash(&prior_requests, &mut hasher);
    std::hash::Hash::hash(&identity, &mut hasher);
    std::hash::Hasher::finish(&hasher)
}

/// The number of requests a view has made for a lineage (none yet when not kept).
pub open spec fn requests_made(prior_requests: CombatChoiceLineages<u32>, identity: CombatChoiceLineageIdentity) -> u32 {
    match prior_requests.slot(identity) {
        Some(n) => n,
        None => 0,
    }
}

/// The values a seed has drawn for a lineage (none when not kept).
pub open spec fn values_drawn(caches: CombatChoiceLineages<SingleSeedLineage>, identity: CombatChoiceLineageIdentity) -> Seq<u64> {
    match caches.slot(identity) {
        Some(lineage) => lineage.generated_values@,
        None => seq![],
    }
}

/// A seed's next value for a lineage, as one view of the seed asks for it: the view's
/// `n`-th request for the lineage gets the seed's `n`-th value for it, drawn (hashed
/// from the seed, `n` and the lineage) and kept when the seed has no such value yet.
/// The view counts the request (counts wrap like `u32`); values already kept for any
/// lineage stay as they are, as do the view's counts for the other lineages.
pub fn seed_request(
    hasher_seeds: [u64; 4],
    prior_requests: &mut CombatChoiceLineages<u32>,
    caches: &mut CombatChoiceLineages<SingleSeedLineage>,
    identity: CombatChoiceLineageIdentity,
) -> (value: u64)
    requires
        old(prior_requests).holds_identity(identity),
        old(caches).holds_identity(identity),
    ensures
        final(prior_requests).wf(),
        final(caches).wf(),
        ({
            let n = requests_made(*old(prior_requests), identity);
            let drawn = values_drawn(*old(caches), identity);
            &&& requests_made(*final(prior_requests), identity) == vstd::wrapping::u32_specs::wrapping_add(n, 1)
            &&& n < drawn.len() ==> value == drawn[n as int] && values_drawn(*final(caches), identity) == drawn
            &&& n >= drawn.len() ==> values_drawn(*final(caches), identity) == drawn.push(value)
            &&& final(caches).slot(identity) is Some
            &&& final(prior_requests).slot(identity) is Some
        }),
        forall|other: CombatChoiceLineageIdentity|
            old(prior_requests).holds_identity(other) && other != identity && old(prior_requests).slot(other) is Some
                ==> #[trigger] final(prior_requests).slot(other) == old(prior_requests).slot(other),
        forall|other: CombatChoiceLineageIdentity|
            old(caches).holds_identity(other) && other != identity && old(caches).slot(other) is Some
                ==> #[trigger] final(caches).slot(other) == old(caches).slot(other),
{
    let prior = prior_requests.get_mut(identity);
    let cache = caches.get_mut(identity);
    let n = *prior;
    let value = if (n as usize) < cache.generated_values.len() {
        cache.generated_values[n as usize]
    } else {
        let h = request_hash(hasher_seeds, n, identity);
        cache.generated_values.push(h);
        h
    };
    *prior = n.wrapping_add(1);
    value
}

} // verus!
