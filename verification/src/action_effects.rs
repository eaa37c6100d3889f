//! What each action does to a combat when it runs on its own: the effects that
//! queue further actions but never run one.
use vstd::prelude::*;
use vstd::wrapping::i32_specs;

use crate::actions::{
    action_bottom, action_top, creature_frame, creature_power_hooks, hook_frame,
    lemma_hook_frame_trans, lemma_hook_frame_wf, lemma_powers_frame_unique, monster_frame,
    on_specific_trigger_hook, power_at, powers_frame, wear_off_action, DamageAction, DynAction,
    PowerHook, RemoveSpecificPowerAction, hooked_powers, hooks_front, hooks_back, all_hooks_ran,
    monsters_hooks_ran,
};
use crate::simulation::{spec_has_power, PowerType};
use crate::simulation_state::cards::{card_behavior_actions, spec_card_actions, CardId};
use crate::simulation_state::powers::spec_inherent_energy;
use crate::actions::all_monsters_power_hooks;
use crate::actions::all_creatures_power_hooks;
use crate::simulation_state::powers::{
    spec_power_type, spec_priority, spec_reduced_amount, spec_stacked_amount,
};
use crate::simulation::{CreatureIndex, DamageInfoAllPowers, DamageType};
use crate::simulation_state::cards::spec_card_info;
use crate::simulation_state::powers::unique_power_ids;
use crate::simulation_state::{
    CardType, CombatState, Creature, Monster, Player, Power, PowerId, SingleCard, MAX_HAND_SIZE,
    MAX_MONSTERS,
};

verus! {

/// The card piles and the card in play are the same.
pub open spec fn same_cards(a: CombatState, b: CombatState) -> bool {
    &&& b.draw_pile@ == a.draw_pile@
    &&& b.discard_pile@ == a.discard_pile@
    &&& b.exhaust_pile@ == a.exhaust_pile@
    &&& b.hand@ == a.hand@
    &&& b.limbo@ == a.limbo@
    &&& b.card_in_play == a.card_in_play
}

/// The three action queues are the same.
pub open spec fn same_queues(a: CombatState, b: CombatState) -> bool {
    &&& b.fresh_subaction_queue@ == a.fresh_subaction_queue@
    &&& b.stale_subaction_stack@ == a.stale_subaction_stack@
    &&& b.actions@ == a.actions@
}

/// The turn and the counters are the same.
pub open spec fn same_counters(a: CombatState, b: CombatState) -> bool {
    &&& b.turn_number == a.turn_number
    &&& b.turn_has_ended == a.turn_has_ended
    &&& b.num_reshuffles == a.num_reshuffles
    &&& b.num_actions == a.num_actions
    &&& b.num_choices == a.num_choices
}

/// The player and every monster are the same.
pub open spec fn same_creatures(a: CombatState, b: CombatState) -> bool {
    b.player == a.player && b.monsters@ == a.monsters@
}

/// The player and the monsters are as before, but for the creature at `index`,
/// which is now `creature`.
pub open spec fn creature_replaced(
    a: CombatState,
    b: CombatState,
    index: CreatureIndex,
    creature: Creature,
) -> bool {
    match index {
        CreatureIndex::Player => b.player == (Player { creature, ..a.player }) && b.monsters@
            == a.monsters@,
        CreatureIndex::Monster(i) => b.player == a.player && b.monsters@ == a.monsters@.update(
            i as int,
            Monster { creature, ..a.monsters@[i as int] },
        ),
    }
}

/// The player and the monsters are as before, but for the monster at `i`, which is now `monster`.
pub open spec fn monster_replaced(a: CombatState, b: CombatState, i: int, monster: Monster) -> bool {
    b.player == a.player && b.monsters@ == a.monsters@.update(i, monster)
}

/// Whether the creature has a power with this id.
pub open spec fn has_power_id(powers: Seq<Power>, id: PowerId) -> bool {
    exists|k: int| 0 <= k < powers.len() && #[trigger] powers[k].power_id == id
}

/// The place of the power with this id.
pub open spec fn power_index(powers: Seq<Power>, id: PowerId) -> int {
    choose|k: int| 0 <= k < powers.len() && #[trigger] powers[k].power_id == id
}

/// A card after an upgrade: an unupgraded card gets its first upgrade.
pub open spec fn upgraded(card: SingleCard) -> SingleCard {
    SingleCard { upgrades: if card.upgrades == 0 { 1 } else { card.upgrades }, ..card }
}

/// Looks for the power with this id.
pub fn find_power(powers: &Vec<Power>, id: PowerId) -> (found: Option<usize>)
    requires
        unique_power_ids(powers@),
    ensures
        found is Some <==> has_power_id(powers@, id),
        found matches Some(k) ==> k < powers@.len() && powers@[k as int].power_id == id && k
            == power_index(powers@, id),
{
    let mut i: usize = 0;
    while i < powers.len()
        invariant
            i <= powers@.len(),
            unique_power_ids(powers@),
            forall|k: int| 0 <= k < i ==> #[trigger] powers@[k].power_id != id,
        decreases powers@.len() - i,
    {
        if powers[i].power_id == id {
            proof {
                let k = power_index(powers@, id);
                assert(powers@[i as int].power_id == id);
                assert(0 <= k < powers@.len() && powers@[k].power_id == id);
                if k != i {
                    if k < i {
                        assert(powers@[k].power_id != powers@[i as int].power_id);
                    } else {
                        assert(powers@[i as int].power_id != powers@[k].power_id);
                    }
                }
            }
            return Some(i);
        }
        i = i + 1;
    }
    None
}

/// What `finish_playing_card` does.
pub open spec fn spec_card_put_away(pre: CombatState, post: CombatState) -> bool {
    &&& ({
        let card = pre.card_in_play->0;
        let info = spec_card_info(card.card_id);
        let kept = info.card_type != CardType::Power;
        &&& post.card_in_play is None
        &&& post.discard_pile@ == if kept && !info.exhausts {
            pre.discard_pile@.push(card)
        } else {
            pre.discard_pile@
        }
        &&& post.exhaust_pile@ == if kept && info.exhausts {
            pre.exhaust_pile@.push(card)
        } else {
            pre.exhaust_pile@
        }
    })
    &&& post.draw_pile@ == pre.draw_pile@
    &&& post.hand@ == pre.hand@
    &&& post.limbo@ == pre.limbo@
    &&& same_creatures(pre, post)
    &&& same_queues(pre, post)
    &&& same_counters(pre, post)
}

/// Puts the card in play where it belongs once played: power cards vanish,
/// exhausting cards go to the exhaust pile, the rest to the discard pile.
pub fn finish_playing_card(state: &mut CombatState)
    requires
        old(state).card_in_play is Some,
    ensures
        spec_card_put_away(*old(state), *final(state)),
{
    let card = state.card_in_play.take().unwrap();
    let info = card.card_info();
    if info.card_type == CardType::Power {
    } else if info.exhausts {
        state.exhaust_pile.push(card);
    } else {
        state.discard_pile.push(card);
    }
}

/// What `gain_block` does.
pub open spec fn spec_block_gained(pre: CombatState, post: CombatState, index: CreatureIndex, amount: i32) -> bool {
    &&& creature_replaced(
        pre,
        post,
        index,
        Creature {
            block: if amount > 0 {
                i32_specs::wrapping_add(pre.creature(index).block, amount)
            } else {
                pre.creature(index).block
            },
            ..pre.creature(index)
        },
    )
    &&& same_cards(pre, post)
    &&& same_queues(pre, post)
    &&& same_counters(pre, post)
}

/// A creature gains `amount` block (nothing when it is not positive; sums wrap like `i32`).
pub fn gain_block(state: &mut CombatState, index: CreatureIndex, amount: i32)
    requires
        old(state).valid_creature_index(index),
    ensures
        spec_block_gained(*old(state), *final(state), index, amount),
{
    if amount > 0 {
        match index {
            CreatureIndex::Player => {
                state.player.creature.block = state.player.creature.block.wrapping_add(amount);
            },
            CreatureIndex::Monster(i) => {
                let block = state.monsters[i].creature.block.wrapping_add(amount);
                state.monsters[i].creature.block = block;
            },
        }
    }
    proof {
        if let CreatureIndex::Monster(i) = index {
            assert(state.monsters@ =~= old(state).monsters@.update(
                i as int,
                Monster { creature: state.monsters@[i as int].creature, ..old(state).monsters@[i as int] },
            ));
        }
    }
}

/// What `gain_energy` does.
pub open spec fn spec_energy_gained(pre: CombatState, post: CombatState, amount: i32) -> bool {
    &&& post.player == (Player {
        energy: i32_specs::wrapping_add(pre.player.energy, amount),
        ..pre.player
    })
    &&& post.monsters@ == pre.monsters@
    &&& same_cards(pre, post)
    &&& same_queues(pre, post)
    &&& same_counters(pre, post)
}

/// The player gains `amount` energy (sums wrap like `i32`).
pub fn gain_energy(state: &mut CombatState, amount: i32)
    ensures
        spec_energy_gained(*old(state), *final(state), amount),
{
    state.player.energy = state.player.energy.wrapping_add(amount);
}

/// What `discard_new_card` does.
pub open spec fn spec_card_discarded(pre: CombatState, post: CombatState, card: SingleCard) -> bool {
    &&& post.discard_pile@ == pre.discard_pile@.push(card)
    &&& post.draw_pile@ == pre.draw_pile@
    &&& post.exhaust_pile@ == pre.exhaust_pile@
    &&& post.hand@ == pre.hand@
    &&& post.limbo@ == pre.limbo@
    &&& post.card_in_play == pre.card_in_play
    &&& same_creatures(pre, post)
    &&& same_queues(pre, post)
    &&& same_counters(pre, post)
}

/// A new card goes onto the discard pile.
pub fn discard_new_card(state: &mut CombatState, card: SingleCard)
    ensures
        spec_card_discarded(*old(state), *final(state), card),
{
    state.discard_pile.push(card);
}

/// What `escape` does.
pub open spec fn spec_escaped(pre: CombatState, post: CombatState, index: usize) -> bool {
    &&& monster_replaced(
        pre,
        post,
        index as int,
        Monster { gone: true, ..pre.monsters@[index as int] },
    )
    &&& same_cards(pre, post)
    &&& same_queues(pre, post)
    &&& same_counters(pre, post)
}

/// A monster escapes the combat: it is gone.
pub fn escape(state: &mut CombatState, index: usize)
    requires
        index < old(state).monsters@.len(),
    ensures
        spec_escaped(*old(state), *final(state), index),
{
    state.monsters[index].gone = true;
}

/// What `initialize_innate_damage` does.
pub open spec fn spec_innate_damage_set(pre: CombatState, post: CombatState, index: usize, value: i32) -> bool {
    &&& monster_replaced(
        pre,
        post,
        index as int,
        Monster { innate_damage_amount: Some(value), ..pre.monsters@[index as int] },
    )
    &&& same_cards(pre, post)
    &&& same_queues(pre, post)
    &&& same_counters(pre, post)
}

/// A monster's rolled base damage is fixed at `value`.
pub fn initialize_innate_damage(state: &mut CombatState, index: usize, value: i32)
    requires
        index < old(state).monsters@.len(),
    ensures
        spec_innate_damage_set(*old(state), *final(state), index, value),
{
    state.monsters[index].innate_damage_amount = Some(value);
}

/// What `choose_intent` does.
pub open spec fn spec_intent_chosen(pre: CombatState, post: CombatState, index: usize, intent: i32) -> bool {
    &&& pre.monsters@[index as int].gone ==> same_creatures(pre, post)
    &&& !pre.monsters@[index as int].gone ==> {
        &&& monster_replaced(
            pre,
            post,
            index as int,
            Monster {
                move_history: post.monsters@[index as int].move_history,
                ..pre.monsters@[index as int]
            },
        )
        &&& post.monsters@[index as int].move_history@ == pre.monsters@[index as int].move_history@.push(intent)
    }
    &&& same_cards(pre, post)
    &&& same_queues(pre, post)
    &&& same_counters(pre, post)
}

/// A monster still present takes `intent` as its next intent; a gone one is left alone.
pub fn choose_intent(state: &mut CombatState, index: usize, intent: i32)
    requires
        index < old(state).monsters@.len(),
    ensures
        spec_intent_chosen(*old(state), *final(state), index, intent),
{
    if !state.monsters[index].gone {
        state.monsters[index].push_intent(intent);
    }
}

/// What `upgrade_hand` does.
pub open spec fn spec_hand_upgraded(pre: CombatState, post: CombatState) -> bool {
    &&& post.hand@ == pre.hand@.map_values(|c: SingleCard| upgraded(c))
    &&& post.draw_pile@ == pre.draw_pile@
    &&& post.discard_pile@ == pre.discard_pile@
    &&& post.exhaust_pile@ == pre.exhaust_pile@
    &&& post.limbo@ == pre.limbo@
    &&& post.card_in_play == pre.card_in_play
    &&& same_creatures(pre, post)
    &&& same_queues(pre, post)
    &&& same_counters(pre, post)
}

/// Every card in hand is upgraded.
pub fn upgrade_hand(state: &mut CombatState)
    ensures
        spec_hand_upgraded(*old(state), *final(state)),
{
    let mut i: usize = 0;
    while i < state.hand.len()
        invariant
            i <= state.hand@.len(),
            state.hand@.len() == old(state).hand@.len(),
            forall|k: int| 0 <= k < i ==> state.hand@[k] == upgraded(#[trigger] old(state).hand@[k]),
            forall|k: int| i <= k < state.hand@.len() ==> state.hand@[k] == #[trigger] old(state).hand@[k],
            state.draw_pile@ == old(state).draw_pile@,
            state.discard_pile@ == old(state).discard_pile@,
            state.exhaust_pile@ == old(state).exhaust_pile@,
            state.limbo@ == old(state).limbo@,
            state.card_in_play == old(state).card_in_play,
            same_creatures(*old(state), *state),
            same_queues(*old(state), *state),
            same_counters(*old(state), *state),
        decreases state.hand@.len() - i,
    {
        let mut card = state.hand[i];
        card.upgrade();
        state.hand.set(i, card);
        i = i + 1;
    }
    assert(state.hand@ =~= old(state).hand@.map_values(|c: SingleCard| upgraded(c)));
}

/// What `upgrade_hand_card` does.
pub open spec fn spec_hand_card_upgraded(pre: CombatState, post: CombatState, index: usize) -> bool {
    &&& post.hand@ == pre.hand@.update(
        index as int,
        upgraded(pre.hand@[index as int]),
    )
    &&& post.draw_pile@ == pre.draw_pile@
    &&& post.discard_pile@ == pre.discard_pile@
    &&& post.exhaust_pile@ == pre.exhaust_pile@
    &&& post.limbo@ == pre.limbo@
    &&& post.card_in_play == pre.card_in_play
    &&& same_creatures(pre, post)
    &&& same_queues(pre, post)
    &&& same_counters(pre, post)
}

/// The card at `index` of the hand is upgraded.
pub fn upgrade_hand_card(state: &mut CombatState, index: usize)
    requires
        index < old(state).hand@.len(),
    ensures
        spec_hand_card_upgraded(*old(state), *final(state), index),
{
    let mut card = state.hand[index];
    card.upgrade();
    state.hand.set(index, card);
}

/// What `draw_card_at` does.
pub open spec fn spec_card_drawn(pre: CombatState, post: CombatState, index: usize) -> bool {
    &&& post.draw_pile@ == pre.draw_pile@.remove(index as int)
    &&& post.hand@ == pre.hand@.push(pre.draw_pile@[index as int])
    &&& post.discard_pile@ == pre.discard_pile@
    &&& post.exhaust_pile@ == pre.exhaust_pile@
    &&& post.limbo@ == pre.limbo@
    &&& post.card_in_play == pre.card_in_play
    &&& same_creatures(pre, post)
    &&& same_queues(pre, post)
    &&& same_counters(pre, post)
}

/// The card at `index` of the draw pile moves to the end of the hand.
pub fn draw_card_at(state: &mut CombatState, index: usize)
    requires
        index < old(state).draw_pile@.len(),
        old(state).hand@.len() < MAX_HAND_SIZE,
    ensures
        spec_card_drawn(*old(state), *final(state), index),
{
    let card = state.draw_pile.remove(index);
    state.hand.push(card);
}

/// What `split_monster` does.
pub open spec fn spec_monster_split(pre: CombatState, post: CombatState, index: usize, ids: [crate::simulation_state::MonsterId; 2]) -> bool {
    &&& ({
        let a = pre.monsters@;
        let b = post.monsters@;
        let splitting = a[index as int];
        &&& b.len() == a.len() + 2
        &&& forall|j: int| 0 <= j < a.len() && j != index ==> #[trigger] b[j] == a[j]
        &&& b[index as int] == (Monster {
            gone: true,
            creature: Creature { hitpoints: 0, ..splitting.creature },
            ..splitting
        })
        &&& forall|k: int|
            0 <= k < 2 ==> {
                let m = #[trigger] b[a.len() + k];
                &&& m.monster_id == ids@[k]
                &&& m.innate_damage_amount is None
                &&& m.ascension == splitting.ascension
                &&& m.move_history@.len() == 0
                &&& !m.gone
                &&& m.creature.hitpoints == splitting.creature.hitpoints
                &&& m.creature.max_hitpoints == splitting.creature.hitpoints
                &&& m.creature.block == 0
                &&& m.creature.powers@.len() == 0
            }
    })
    &&& post.player == pre.player
    &&& same_cards(pre, post)
    &&& same_queues(pre, post)
    &&& same_counters(pre, post)
}

/// The monster at `index` splits in two: it leaves with 0 hitpoints, and two new
/// monsters of the given kinds join with its hitpoints as their hitpoints and maximum.
pub fn split_monster(state: &mut CombatState, index: usize, ids: [crate::simulation_state::MonsterId; 2])
    requires
        index < old(state).monsters@.len(),
        old(state).monsters@.len() + 2 <= MAX_MONSTERS,
    ensures
        spec_monster_split(*old(state), *final(state), index, ids),
{
    let ascension = state.monsters[index].ascension;
    let hitpoints = state.monsters[index].creature.hitpoints;
    state.monsters[index].creature.hitpoints = 0;
    state.monsters[index].gone = true;
    let mut k: usize = 0;
    while k < 2
        invariant
            k <= 2,
            index < old(state).monsters@.len(),
            ascension == old(state).monsters@[index as int].ascension,
            hitpoints == old(state).monsters@[index as int].creature.hitpoints,
            state.monsters@.len() == old(state).monsters@.len() + k,
            forall|j: int|
                0 <= j < old(state).monsters@.len() && j != index ==> #[trigger] state.monsters@[j]
                    == old(state).monsters@[j],
            state.monsters@[index as int] == (Monster {
                gone: true,
                creature: Creature { hitpoints: 0, ..old(state).monsters@[index as int].creature },
                ..old(state).monsters@[index as int]
            }),
            forall|j: int|
                0 <= j < k ==> {
                    let m = #[trigger] state.monsters@[old(state).monsters@.len() + j];
                    &&& m.monster_id == ids@[j]
                    &&& m.innate_damage_amount is None
                    &&& m.ascension == ascension
                    &&& m.move_history@.len() == 0
                    &&& !m.gone
                    &&& m.creature.hitpoints == hitpoints
                    &&& m.creature.max_hitpoints == hitpoints
                    &&& m.creature.block == 0
                    &&& m.creature.powers@.len() == 0
                },
            state.player == old(state).player,
            same_cards(*old(state), *state),
            same_queues(*old(state), *state),
            same_counters(*old(state), *state),
        decreases 2 - k,
    {
        let monster = Monster {
            monster_id: ids[k],
            innate_damage_amount: None,
            ascension,
            move_history: Vec::new(),
            gone: false,
            creature: Creature {
                hitpoints,
                max_hitpoints: hitpoints,
                block: 0,
                powers: Vec::new(),
            },
        };
        state.monsters.push(monster);
        k = k + 1;
    }
}


/// The powers whose priority is `p`, in their order.
pub open spec fn with_priority(powers: Seq<Power>, p: i32) -> Seq<Power>
    decreases powers.len(),
{
    if powers.len() == 0 {
        seq![]
    } else {
        let rest = with_priority(powers.drop_last(), p);
        if spec_priority(powers.last().power_id) == p {
            rest.push(powers.last())
        } else {
            rest
        }
    }
}

/// Powers sorted by priority, powers of equal priority keeping their order
/// (priorities are 5, 6, 10 and 99, so this is the stable sort by priority).
pub open spec fn priority_sorted(powers: Seq<Power>) -> Seq<Power> {
    with_priority(powers, 5) + with_priority(powers, 6) + with_priority(powers, 10)
        + with_priority(powers, 99)
}

/// Each entry of `result` is the entry of `powers` at the matching place of `origin`,
/// no place is used twice, and every entry's priority is at most `p`.
spec fn traced(result: Seq<Power>, powers: Seq<Power>, origin: Seq<int>, p: int) -> bool {
    &&& origin.len() == result.len()
    &&& forall|k: int|
        0 <= k < result.len() ==> 0 <= #[trigger] origin[k] < powers.len() && result[k]
            == powers[origin[k]] && spec_priority(result[k].power_id) <= p
    &&& forall|k1: int, k2: int|
        0 <= k1 < k2 < result.len() ==> #[trigger] origin[k1] != #[trigger] origin[k2]
}

proof fn lemma_traced_unique(result: Seq<Power>, powers: Seq<Power>, origin: Seq<int>, p: int)
    requires
        traced(result, powers, origin, p),
        unique_power_ids(powers),
    ensures
        unique_power_ids(result),
{
    assert forall|k1: int, k2: int| 0 <= k1 < k2 < result.len() implies #[trigger] result[k1].power_id
        != #[trigger] result[k2].power_id by {
        let o1 = origin[k1];
        let o2 = origin[k2];
        assert(o1 != o2);
        if o1 < o2 {
            assert(powers[o1].power_id != powers[o2].power_id);
        } else {
            assert(powers[o2].power_id != powers[o1].power_id);
        }
    }
}

/// Appends the powers of priority `p`, in order.
fn append_with_priority(
    powers: &Vec<Power>,
    result: &mut Vec<Power>,
    p: i32,
    Ghost(origin): Ghost<Seq<int>>,
) -> (new_origin: Ghost<Seq<int>>)
    requires
        traced(old(result)@, powers@, origin, p - 1),
        p >= 1,
    ensures
        final(result)@ == old(result)@ + with_priority(powers@, p),
        traced(final(result)@, powers@, new_origin@, p as int),
{
    let ghost start = result@;
    let ghost mut o = origin;
    let mut i: usize = 0;
    proof {
        assert forall|k: int| 0 <= k < start.len() implies spec_priority(#[trigger] start[k].power_id)
            <= p by {
            assert(0 <= origin[k] < powers@.len());
        }
    }
    while i < powers.len()
        invariant
            i <= powers@.len(),
            p >= 1,
            result@ == start + with_priority(powers@.subrange(0, i as int), p),
            start.len() == origin.len(),
            traced(start, powers@, origin, p - 1),
            o.len() == result@.len(),
            o.subrange(0, start.len() as int) == origin,
            forall|k: int|
                0 <= k < result@.len() ==> 0 <= #[trigger] o[k] < powers@.len() && result@[k]
                    == powers@[o[k]],
            forall|k: int|
                0 <= k < result@.len() ==> spec_priority(#[trigger] result@[k].power_id) <= p,
            forall|k: int| start.len() <= k < result@.len() ==> #[trigger] o[k] < i,
            forall|k: int|
                start.len() <= k < result@.len() ==> spec_priority(#[trigger] result@[k].power_id)
                    == p,
            forall|k1: int, k2: int|
                0 <= k1 < k2 < result@.len() ==> #[trigger] o[k1] != #[trigger] o[k2],
        decreases powers@.len() - i,
    {
        proof {
            assert(powers@.subrange(0, i + 1).drop_last() =~= powers@.subrange(0, i as int));
            assert(forall|k: int| 0 <= k < start.len() ==> o[k] == #[trigger] origin[k]);
        }
        let power = powers[i];
        if power.power_id.priority() == p {
            proof {
                assert forall|k: int| 0 <= k < result@.len() implies #[trigger] o[k] != i by {
                    if k < start.len() {
                        assert(o[k] == origin[k]);
                        assert(start[k] == result@[k]);
                        assert(spec_priority(start[k].power_id) <= p - 1);
                    }
                }
            }
            let ghost before = result@;
            let ghost o_before = o;
            result.push(power);
            proof {
                o = o.push(i as int);
                assert(o.subrange(0, start.len() as int) =~= origin);
                assert(result@[before.len() as int] == power);
                assert(o[before.len() as int] == i);
                assert(forall|k: int| 0 <= k < before.len() ==> #[trigger] result@[k] == before[k]);
                assert(forall|k: int| 0 <= k < before.len() ==> #[trigger] o[k] == o_before[k]);
            }
        }
        i = i + 1;
    }
    proof {
        assert(powers@.subrange(0, powers@.len() as int) =~= powers@);
    }
    Ghost(o)
}

/// The powers sorted by priority, powers of equal priority keeping their order.
pub fn sort_by_priority(powers: &Vec<Power>) -> (sorted: Vec<Power>)
    requires
        unique_power_ids(powers@),
    ensures
        sorted@ == priority_sorted(powers@),
        unique_power_ids(sorted@),
{
    let mut result: Vec<Power> = Vec::new();
    let o = append_with_priority(powers, &mut result, 5, Ghost(Seq::empty()));
    let o = append_with_priority(powers, &mut result, 6, o);
    let o = append_with_priority(powers, &mut result, 10, o);
    let o = append_with_priority(powers, &mut result, 99, o);
    proof {
        lemma_traced_unique(result@, powers@, o@, 99);
        assert(result@ =~= priority_sorted(powers@));
    }
    result
}


/// The creature at `index` now holds `powers`; nothing else about it or about the
/// other creatures changed.
pub open spec fn powers_replaced(
    a: CombatState,
    b: CombatState,
    index: CreatureIndex,
    powers: Seq<Power>,
) -> bool {
    &&& creature_replaced(a, b, index, b.creature(index))
    &&& b.creature(index).powers@ == powers
    &&& b.creature(index).hitpoints == a.creature(index).hitpoints
    &&& b.creature(index).max_hitpoints == a.creature(index).max_hitpoints
    &&& b.creature(index).block == a.creature(index).block
}

/// A combat stays well formed when one creature's powers are replaced by powers
/// with distinct ids.
pub proof fn lemma_powers_replaced_wf(
    a: CombatState,
    b: CombatState,
    index: CreatureIndex,
    powers: Seq<Power>,
)
    requires
        a.wf(),
        a.valid_creature_index(index),
        powers_replaced(a, b, index, powers),
        unique_power_ids(powers),
        b.hand@.len() == a.hand@.len(),
        b.num_actions == a.num_actions,
    ensures
        b.wf(),
{
    assert forall|i: int| 0 <= i < b.monsters@.len() implies unique_power_ids(
        #[trigger] b.monsters@[i].creature.powers@,
    ) by {
        assert(unique_power_ids(a.monsters@[i].creature.powers@));
    }
}

/// The creature at `index` gets the powers `powers`.
fn set_powers(state: &mut CombatState, index: CreatureIndex, powers: Vec<Power>)
    requires
        old(state).valid_creature_index(index),
    ensures
        powers_replaced(*old(state), *final(state), index, powers@),
        same_cards(*old(state), *final(state)),
        same_queues(*old(state), *final(state)),
        same_counters(*old(state), *final(state)),
{
    let ghost new_powers = powers@;
    match index {
        CreatureIndex::Player => {
            state.player.creature.powers = powers;
        },
        CreatureIndex::Monster(i) => {
            state.monsters[i].creature.powers = powers;
            assert(state.monsters@ =~= old(state).monsters@.update(
                i as int,
                Monster { creature: state.monsters@[i as int].creature, ..old(state).monsters@[i as int] },
            ));
        },
    }
}

/// The creature at `index` gets `power` in place of its power at `k`.
fn set_power_at(state: &mut CombatState, index: CreatureIndex, k: usize, power: Power)
    requires
        old(state).valid_creature_index(index),
        k < old(state).creature(index).powers@.len(),
    ensures
        powers_replaced(
            *old(state),
            *final(state),
            index,
            old(state).creature(index).powers@.update(k as int, power),
        ),
        same_cards(*old(state), *final(state)),
        same_queues(*old(state), *final(state)),
        same_counters(*old(state), *final(state)),
{
    match index {
        CreatureIndex::Player => {
            state.player.creature.powers.set(k, power);
        },
        CreatureIndex::Monster(i) => {
            state.monsters[i].creature.powers.set(k, power);
            assert(state.monsters@ =~= old(state).monsters@.update(
                i as int,
                Monster { creature: state.monsters@[i as int].creature, ..old(state).monsters@[i as int] },
            ));
        },
    }
}

/// The creature at `index` loses its power at `k`.
fn remove_power_at(state: &mut CombatState, index: CreatureIndex, k: usize)
    requires
        old(state).valid_creature_index(index),
        k < old(state).creature(index).powers@.len(),
    ensures
        powers_replaced(
            *old(state),
            *final(state),
            index,
            old(state).creature(index).powers@.remove(k as int),
        ),
        same_cards(*old(state), *final(state)),
        same_queues(*old(state), *final(state)),
        same_counters(*old(state), *final(state)),
{
    match index {
        CreatureIndex::Player => {
            state.player.creature.powers.remove(k);
        },
        CreatureIndex::Monster(i) => {
            state.monsters[i].creature.powers.remove(k);
            assert(state.monsters@ =~= old(state).monsters@.update(
                i as int,
                Monster { creature: state.monsters@[i as int].creature, ..old(state).monsters@[i as int] },
            ));
        },
    }
}

/// The powers without the power of this id.
pub open spec fn spec_without_power(powers: Seq<Power>, id: PowerId) -> Seq<Power> {
    if has_power_id(powers, id) {
        powers.remove(power_index(powers, id))
    } else {
        powers
    }
}

/// What `remove_specific_power` does.
pub open spec fn spec_power_removed(pre: CombatState, post: CombatState, target: CreatureIndex, power_id: PowerId) -> bool {
    &&& powers_replaced(
        pre,
        post,
        target,
        spec_without_power(pre.creature(target).powers@, power_id),
    )
    &&& same_cards(pre, post)
    &&& same_queues(pre, post)
    &&& same_counters(pre, post)
}

/// A creature loses its power of this id, if it has one.
pub fn remove_specific_power(state: &mut CombatState, target: CreatureIndex, power_id: PowerId)
    requires
        old(state).wf(),
        old(state).valid_creature_index(target),
    ensures
        final(state).wf(),
        spec_power_removed(*old(state), *final(state), target, power_id),
{
    proof {
        old(state).lemma_wf_creature(target);
    }
    match find_power(&state.get_creature(target).powers, power_id) {
        Some(k) => {
            remove_power_at(state, target, k);
        },
        None => {
            proof {
                if let CreatureIndex::Monster(i) = target {
                    assert(state.monsters@ =~= old(state).monsters@.update(
                        i as int,
                        Monster { creature: state.monsters@[i as int].creature, ..old(state).monsters@[i as int] },
                    ));
                }
            }
        },
    }
    proof {
        let ps = old(state).creature(target).powers@;
        let out = spec_without_power(ps, power_id);
        if has_power_id(ps, power_id) {
            let k = power_index(ps, power_id);
            assert forall|x: int, y: int| 0 <= x < y < out.len() implies #[trigger] out[x].power_id
                != #[trigger] out[y].power_id by {
                let ox = if x < k { x } else { x + 1 };
                let oy = if y < k { y } else { y + 1 };
                assert(out[x] == ps[ox]);
                assert(out[y] == ps[oy]);
            }
        }
        lemma_powers_replaced_wf(*old(state), *final(state), target, out);
    }
}

/// The power that `amount` is taken off, when the creature has one of that id.
pub open spec fn reduced_power(power: Power, amount: i32) -> Power {
    Power { amount: spec_reduced_amount(power.power_id, power.amount, amount), ..power }
}

/// What `reduce_power_action` does.
pub open spec fn spec_power_reduced(pre: CombatState, post: CombatState, target: CreatureIndex, power_id: PowerId, amount: i32) -> bool {
    &&& ({
        let powers = pre.creature(target).powers@;
        let k = power_index(powers, power_id);
        if !has_power_id(powers, power_id) {
            same_creatures(pre, post) && same_queues(
                pre,
                post,
            )
        } else if amount < powers[k].amount {
            powers_replaced(
                pre,
                post,
                target,
                powers.update(k, reduced_power(powers[k], amount)),
            ) && same_queues(pre, post)
        } else {
            &&& same_creatures(pre, post)
            &&& post.actions@ == seq![
                DynAction::RemoveSpecificPowerAction(
                    RemoveSpecificPowerAction { target, power_id },
                ),
            ] + pre.actions@
            &&& post.fresh_subaction_queue@ == pre.fresh_subaction_queue@
            &&& post.stale_subaction_stack@ == pre.stale_subaction_stack@
        }
    })
    &&& same_cards(pre, post)
    &&& same_counters(pre, post)
}

/// Takes `amount` off a creature's power of this id; when the power has no more
/// than `amount`, its removal is queued at the front of the queue instead.
pub fn reduce_power_action(
    state: &mut CombatState,
    target: CreatureIndex,
    power_id: PowerId,
    amount: i32,
)
    requires
        old(state).wf(),
        old(state).valid_creature_index(target),
    ensures
        final(state).wf(),
        spec_power_reduced(*old(state), *final(state), target, power_id, amount),
{
    proof {
        old(state).lemma_wf_creature(target);
    }
    match find_power(&state.get_creature(target).powers, power_id) {
        Some(k) => {
            let mut power = state.get_creature(target).powers[k];
            if amount < power.amount {
                power_id.reduce_power(&mut power, amount);
                set_power_at(state, target, k, power);
                proof {
                    let ps = old(state).creature(target).powers@;
                    let out = ps.update(k as int, power);
                    assert(powers_frame(ps, out));
                    lemma_powers_frame_unique(ps, out);
                    lemma_powers_replaced_wf(*old(state), *final(state), target, out);
                }
            } else {
                action_top(
                    state,
                    DynAction::RemoveSpecificPowerAction(RemoveSpecificPowerAction { target, power_id }),
                );
            }
        },
        None => {},
    }
}

/// A list of powers with `power` added, sorted by priority.
fn with_power_sorted(powers: &Vec<Power>, power: Power) -> (sorted: Vec<Power>)
    requires
        unique_power_ids(powers@),
        !has_power_id(powers@, power.power_id),
    ensures
        sorted@ == priority_sorted(powers@.push(power)),
        unique_power_ids(sorted@),
{
    let mut all: Vec<Power> = Vec::new();
    let mut i: usize = 0;
    while i < powers.len()
        invariant
            i <= powers@.len(),
            all@ == powers@.subrange(0, i as int),
        decreases powers@.len() - i,
    {
        all.push(powers[i]);
        i = i + 1;
        assert(all@ =~= powers@.subrange(0, i as int));
    }
    all.push(power);
    proof {
        assert(all@ =~= powers@.push(power));
        assert forall|x: int, y: int| 0 <= x < y < all@.len() implies #[trigger] all@[x].power_id
            != #[trigger] all@[y].power_id by {
            if y == powers@.len() {
                assert(all@[x] == powers@[x]);
            } else {
                assert(all@[x] == powers@[x]);
                assert(all@[y] == powers@[y]);
            }
        }
    }
    sort_by_priority(&all)
}

/// A creature's powers after `amount` of a power is applied: an existing power of
/// that id stacks; otherwise a new power joins and the powers are sorted by priority.
pub open spec fn spec_power_applied(
    powers: Seq<Power>,
    power_id: PowerId,
    amount: i32,
    just_applied: bool,
) -> Seq<Power> {
    if has_power_id(powers, power_id) {
        let k = power_index(powers, power_id);
        powers.update(
            k,
            Power { amount: spec_stacked_amount(power_id, powers[k].amount, amount), ..powers[k] },
        )
    } else {
        priority_sorted(
            powers.push(
                Power { power_id, amount, damage: 0, card: None, misc: 0, just_applied },
            ),
        )
    }
}

/// What `apply_power` does.
pub open spec fn spec_power_application(pre: CombatState, post: CombatState, target: CreatureIndex, power_id: PowerId, amount: i32) -> bool {
    &&& ({
        let powers = pre.creature(target).powers@;
        if target matches CreatureIndex::Monster(i) && pre.monsters@[i as int].gone {
            same_creatures(pre, post) && same_queues(
                pre,
                post,
            )
        } else if has_power_id(powers, PowerId::Artifact) && spec_power_type(power_id)
            == PowerType::Debuff {
            &&& same_creatures(pre, post)
            &&& post.actions@ == seq![
                wear_off_action(target, powers[power_index(powers, PowerId::Artifact)]),
            ] + pre.actions@
            &&& post.fresh_subaction_queue@ == pre.fresh_subaction_queue@
            &&& post.stale_subaction_stack@ == pre.stale_subaction_stack@
        } else {
            &&& powers_replaced(
                pre,
                post,
                target,
                spec_power_applied(powers, power_id, amount, pre.turn_has_ended),
            )
            &&& same_queues(pre, post)
        }
    })
    &&& same_cards(pre, post)
    &&& same_counters(pre, post)
}

/// Applies `amount` of a power to a creature. A gone monster is left alone; a debuff
/// on a creature with Artifact wears the Artifact off instead (queued at the front);
/// otherwise the power stacks onto one of its id or joins the creature's powers,
/// marked just applied when the player's turn has ended.
pub fn apply_power(
    state: &mut CombatState,
    target: CreatureIndex,
    power_id: PowerId,
    amount: i32,
)
    requires
        old(state).wf(),
        old(state).valid_creature_index(target),
    ensures
        final(state).wf(),
        spec_power_application(*old(state), *final(state), target, power_id, amount),
{
    proof {
        old(state).lemma_wf_creature(target);
    }
    if let CreatureIndex::Monster(i) = target {
        if state.monsters[i].gone {
            return ;
        }
    }
    match find_power(&state.get_creature(target).powers, PowerId::Artifact) {
        Some(k) => {
            if power_id.power_type() == PowerType::Debuff {
                on_specific_trigger_hook(state, target, k);
                return ;
            }
        },
        None => {},
    }
    let just_applied = state.turn_has_ended;
    match find_power(&state.get_creature(target).powers, power_id) {
        Some(k) => {
            let mut power = state.get_creature(target).powers[k];
            power_id.stack_power(&mut power, amount);
            set_power_at(state, target, k, power);
            proof {
                let ps = old(state).creature(target).powers@;
                let out = ps.update(k as int, power);
                assert(powers_frame(ps, out));
                lemma_powers_frame_unique(ps, out);
                lemma_powers_replaced_wf(*old(state), *final(state), target, out);
            }
        },
        None => {
            let power = Power {
                power_id,
                amount,
                damage: 0,
                card: None,
                misc: 0,
                just_applied,
            };
            let sorted = with_power_sorted(&state.get_creature(target).powers, power);
            set_powers(state, target, sorted);
            proof {
                lemma_powers_replaced_wf(*old(state), *final(state), target, sorted@);
            }
        },
    }
}


/// A creature that kept its maximum hitpoints and the ids of its powers.
pub open spec fn health_frame(a: Creature, b: Creature) -> bool {
    b.max_hitpoints == a.max_hitpoints && powers_frame(a.powers@, b.powers@)
}

/// A monster that kept its kind, rolled damage, ascension and move history.
pub open spec fn monster_identity_same(a: Monster, b: Monster) -> bool {
    &&& b.monster_id == a.monster_id
    &&& b.innate_damage_amount == a.innate_damage_amount
    &&& b.ascension == a.ascension
    &&& b.move_history@ == a.move_history@
}

/// The creatures changed only as damage changes them: every creature kept its maximum
/// hitpoints and the ids of its powers, every creature but `t` its hitpoints and block,
/// and every monster its identity; only amounts of powers and whether monsters are gone
/// may have changed besides.
pub open spec fn creatures_frame(a: CombatState, b: CombatState, t: CreatureIndex) -> bool {
    &&& if t == CreatureIndex::Player {
        health_frame(a.player.creature, b.player.creature)
    } else {
        creature_frame(a.player.creature, b.player.creature)
    }
    &&& b.monsters@.len() == a.monsters@.len()
    &&& forall|i: int|
        0 <= i < a.monsters@.len() ==> monster_identity_same(a.monsters@[i], #[trigger] b.monsters@[i])
            && if t == CreatureIndex::Monster(i as usize) {
            health_frame(a.monsters@[i].creature, b.monsters@[i].creature)
        } else {
            creature_frame(a.monsters@[i].creature, b.monsters@[i].creature)
        }
}

/// No monster's presence changed.
pub open spec fn same_presence(a: CombatState, b: CombatState) -> bool {
    forall|i: int| 0 <= i < a.monsters@.len() ==> #[trigger] b.monsters@[i].gone == a.monsters@[i].gone
}

/// A creatures frame holds across power hooks.
pub proof fn lemma_hook_creatures_frame(a: CombatState, b: CombatState, t: CreatureIndex)
    requires
        hook_frame(a, b),
    ensures
        creatures_frame(a, b, t),
        same_presence(a, b),
{
    assert forall|i: int| 0 <= i < a.monsters@.len() implies monster_identity_same(
        a.monsters@[i],
        #[trigger] b.monsters@[i],
    ) && if t == CreatureIndex::Monster(i as usize) {
        health_frame(a.monsters@[i].creature, b.monsters@[i].creature)
    } else {
        creature_frame(a.monsters@[i].creature, b.monsters@[i].creature)
    } by {
        assert(monster_frame(a.monsters@[i], b.monsters@[i]));
    }
    assert forall|i: int| 0 <= i < a.monsters@.len() implies #[trigger] b.monsters@[i].gone
        == a.monsters@[i].gone by {
        assert(monster_frame(a.monsters@[i], b.monsters@[i]));
    }
}

/// Two creatures frames for the same creature make one.
pub proof fn lemma_creatures_frame_trans(
    a: CombatState,
    b: CombatState,
    c: CombatState,
    t: CreatureIndex,
)
    requires
        creatures_frame(a, b, t),
        creatures_frame(b, c, t),
    ensures
        creatures_frame(a, c, t),
{
    assert forall|i: int| 0 <= i < a.monsters@.len() implies monster_identity_same(
        a.monsters@[i],
        #[trigger] c.monsters@[i],
    ) && if t == CreatureIndex::Monster(i as usize) {
        health_frame(a.monsters@[i].creature, c.monsters@[i].creature)
    } else {
        creature_frame(a.monsters@[i].creature, c.monsters@[i].creature)
    } by {
        assert(monster_identity_same(a.monsters@[i], b.monsters@[i]));
        assert(monster_identity_same(b.monsters@[i], c.monsters@[i]));
    }
}

/// A creatures frame keeps a combat well formed.
pub proof fn lemma_creatures_frame_wf(a: CombatState, b: CombatState, t: CreatureIndex)
    requires
        a.wf(),
        creatures_frame(a, b, t),
        b.hand@.len() == a.hand@.len(),
        b.num_actions == a.num_actions,
    ensures
        b.wf(),
{
    lemma_powers_frame_unique(a.player.creature.powers@, b.player.creature.powers@);
    assert forall|i: int| 0 <= i < b.monsters@.len() implies unique_power_ids(
        #[trigger] b.monsters@[i].creature.powers@,
    ) by {
        assert(unique_power_ids(a.monsters@[i].creature.powers@));
        assert(monster_identity_same(a.monsters@[i], b.monsters@[i]));
        lemma_powers_frame_unique(a.monsters@[i].creature.powers@, b.monsters@[i].creature.powers@);
    }
}

/// Sets the hitpoints and block of a creature.
fn set_health(state: &mut CombatState, index: CreatureIndex, hitpoints: i32, block: i32)
    requires
        old(state).valid_creature_index(index),
    ensures
        creature_replaced(
            *old(state),
            *final(state),
            index,
            Creature { hitpoints, block, ..old(state).creature(index) },
        ),
        creatures_frame(*old(state), *final(state), index),
        same_presence(*old(state), *final(state)),
        final(state).player.energy == old(state).player.energy,
        same_cards(*old(state), *final(state)),
        same_queues(*old(state), *final(state)),
        same_counters(*old(state), *final(state)),
{
    match index {
        CreatureIndex::Player => {
            state.player.creature.hitpoints = hitpoints;
            state.player.creature.block = block;
        },
        CreatureIndex::Monster(i) => {
            state.monsters[i].creature.hitpoints = hitpoints;
            state.monsters[i].creature.block = block;
            assert(state.monsters@ =~= old(state).monsters@.update(
                i as int,
                Monster {
                    creature: Creature { hitpoints, block, ..old(state).monsters@[i as int].creature },
                    ..old(state).monsters@[i as int]
                },
            ));
        },
    }
    proof {
        assert forall|j: int| 0 <= j < old(state).monsters@.len() implies #[trigger] state.monsters@[j].gone
            == old(state).monsters@[j].gone by {
        }
    }
}

/// Damage after block: a negative output counts as none; block absorbs what it can.
/// The result is the damage that reaches hitpoints and the block left.
pub open spec fn spec_damage_split(output: i32, block: i32) -> (i32, i32) {
    let d: i32 = if output < 0 { 0 } else { output };
    if d >= block {
        (i32_specs::wrapping_sub(d, block), 0i32)
    } else {
        (0i32, (block - d) as i32)
    }
}

/// Whether damage reaching hitpoints takes them to 0 or below (subtraction wraps like `i32`).
pub open spec fn spec_killed(hitpoints: i32, damage: i32) -> bool {
    i32_specs::wrapping_sub(hitpoints, damage) <= 0
}

/// Hitpoints after damage reaches them: never below 0.
pub open spec fn spec_hitpoints_after(hitpoints: i32, damage: i32) -> i32 {
    if spec_killed(hitpoints, damage) {
        0
    } else {
        i32_specs::wrapping_sub(hitpoints, damage)
    }
}

/// Every creature but `t` is as it was.
pub open spec fn others_kept(a: CombatState, b: CombatState, t: CreatureIndex) -> bool {
    forall|o: CreatureIndex| o != t && a.valid_creature_index(o) ==> #[trigger] b.creature(o) == a.creature(o)
}

proof fn lemma_others_kept_trans(a: CombatState, b: CombatState, c: CombatState, t: CreatureIndex)
    requires
        others_kept(a, b, t),
        others_kept(b, c, t),
        b.monsters@.len() == a.monsters@.len(),
    ensures
        others_kept(a, c, t),
{
    assert forall|o: CreatureIndex| o != t && a.valid_creature_index(o) implies #[trigger] c.creature(o) == a.creature(o) by {
        assert(b.creature(o) == a.creature(o));
        assert(b.valid_creature_index(o));
    }
}

proof fn lemma_replaced_others_kept(a: CombatState, b: CombatState, t: CreatureIndex, creature: Creature)
    requires
        creature_replaced(a, b, t, creature),
        a.valid_creature_index(t),
    ensures
        others_kept(a, b, t),
        b.monsters@.len() == a.monsters@.len(),
{
    assert forall|o: CreatureIndex| o != t && a.valid_creature_index(o) implies #[trigger] b.creature(o) == a.creature(o) by {
        if let CreatureIndex::Monster(j) = o {
            if let CreatureIndex::Monster(i) = t {
                assert(b.monsters@[j as int] == a.monsters@[j as int]);
            }
        }
    }
}

/// The start-of-turn hook of every power of `index` ran, then (after block) its post-draw
/// hook: each power is what the two hooks leave, and their actions are queued around the
/// main queue, the post-draw hooks' outermost.
pub open spec fn turn_start_hooks_ran(a: CombatState, b: CombatState, index: CreatureIndex) -> bool {
    let c = a.creature(index);
    let start = PowerHook::AtStartOfTurn;
    let post_draw = PowerHook::AtStartOfTurnPostDraw;
    let started = hooked_powers(index, c.powers@, c.hitpoints, start);
    let queued = hooks_front(index, c.powers@, c.hitpoints, start) + a.actions@ + hooks_back(
        index,
        c.powers@,
        c.hitpoints,
        start,
    );
    &&& b.creature(index).powers@ == hooked_powers(index, started, c.hitpoints, post_draw)
    &&& b.actions@ == hooks_front(index, started, c.hitpoints, post_draw) + queued + hooks_back(
        index,
        started,
        c.hitpoints,
        post_draw,
    )
}

/// The powers of the monster at `j` after its end-of-turn and end-of-round hooks ran
/// (a gone monster's are untouched).
pub open spec fn monsters_hooked_twice(monsters: Seq<Monster>, j: int) -> Seq<Power> {
    let m = monsters[j];
    let o = CreatureIndex::Monster(j as usize);
    if m.gone {
        m.creature.powers@
    } else {
        hooked_powers(
            o,
            hooked_powers(o, m.creature.powers@, m.creature.hitpoints, PowerHook::AtEndOfTurn),
            m.creature.hitpoints,
            PowerHook::AtEndOfRound,
        )
    }
}

/// The player's powers after its end-of-round, start-of-turn and post-draw hooks ran.
pub open spec fn player_powers_after_round(player: Creature) -> Seq<Power> {
    let o = CreatureIndex::Player;
    let hp = player.hitpoints;
    hooked_powers(
        o,
        hooked_powers(o, hooked_powers(o, player.powers@, hp, PowerHook::AtEndOfRound), hp, PowerHook::AtStartOfTurn),
        hp,
        PowerHook::AtStartOfTurnPostDraw,
    )
}

/// The monsters' end-of-turn hooks, everyone's end-of-round hooks and the player's
/// turn-start hooks ran in this order, through the states `first` and `second`.
pub open spec fn round_end_hooks_ran(a: CombatState, first: CombatState, second: CombatState, b: CombatState) -> bool {
    &&& monsters_hooks_ran(a, first, PowerHook::AtEndOfTurn)
    &&& all_hooks_ran(first, second, PowerHook::AtEndOfRound)
    &&& turn_start_hooks_ran(second, b, CreatureIndex::Player)
}

/// What `damage` does.
pub open spec fn spec_damage_dealt(pre: CombatState, post: CombatState, target: CreatureIndex, info: DamageInfoAllPowers) -> bool {
    &&& creatures_frame(pre, post, target)
    &&& post.player.energy == pre.player.energy
    &&& same_cards(pre, post)
    &&& same_counters(pre, post)
    &&& post.fresh_subaction_queue@ == pre.fresh_subaction_queue@
    &&& post.stale_subaction_stack@ == pre.stale_subaction_stack@
    &&& ({
        let before = pre.creature(target);
        let (d, block) = spec_damage_split(info.output, before.block);
        &&& post.creature(target).block == block
        &&& post.creature(target).hitpoints == spec_hitpoints_after(before.hitpoints, d)
        &&& forall|i: int|
            0 <= i < pre.monsters@.len() ==> #[trigger] post.monsters@[i].gone == (
            pre.monsters@[i].gone || (target == CreatureIndex::Monster(i as usize)
                && spec_killed(before.hitpoints, d)))
    })
    &&& spec_damage_hooks_ran(pre, post, target, info)
    &&& forall|o: CreatureIndex|
        o != target && pre.valid_creature_index(o) ==> #[trigger] post.creature(o).powers@ == pre.creature(o).powers@
}

/// How the target's powers react to damage: each runs its attacked hook, told the damage
/// that got through block; a monster that dies then runs the death hook of each power.
pub open spec fn spec_damage_hooks_ran(pre: CombatState, post: CombatState, target: CreatureIndex, info: DamageInfoAllPowers) -> bool {
    let before = pre.creature(target);
    let d = spec_damage_split(info.output, before.block).0;
    let attacked = PowerHook::OnAttacked(info, d);
    let powers = before.powers@;
    let hooked = hooked_powers(target, powers, before.hitpoints, attacked);
    let queued = hooks_front(target, powers, before.hitpoints, attacked) + pre.actions@ + hooks_back(
        target,
        powers,
        before.hitpoints,
        attacked,
    );
    if target is Monster && spec_killed(before.hitpoints, d) {
        &&& post.creature(target).powers@ == hooked_powers(target, hooked, 0, PowerHook::OnDeath)
        &&& post.actions@ == hooks_front(target, hooked, 0, PowerHook::OnDeath) + queued + hooks_back(
            target,
            hooked,
            0,
            PowerHook::OnDeath,
        )
    } else {
        &&& post.creature(target).powers@ == hooked
        &&& post.actions@ == queued
    }
}

/// Deals damage to a creature: block absorbs it first, the target's powers react to
/// the damage that gets through (possibly queueing actions), hitpoints fall, and a
/// monster taken to 0 hitpoints is gone and its death hooks run.
#[verifier::spinoff_prover]
#[verifier::rlimit(40)]
pub fn damage(state: &mut CombatState, target: CreatureIndex, info: DamageInfoAllPowers)
    requires
        old(state).wf(),
        old(state).valid_creature_index(target),
    ensures
        final(state).wf(),
        spec_damage_dealt(*old(state), *final(state), target, info),
{
    let ghost s0 = *state;
    let before_block = state.get_creature(target).block;
    let before_hitpoints = state.get_creature(target).hitpoints;
    let output = info.output;
    let mut d: i32 = if output < 0 {
        0
    } else {
        output
    };
    let block: i32;
    if d >= before_block {
        d = d.wrapping_sub(before_block);
        block = 0;
    } else {
        block = before_block - d;
        d = 0;
    }
    set_health(state, target, before_hitpoints, block);
    let ghost s1 = *state;
    proof {
        lemma_creatures_frame_wf(s0, s1, target);
        lemma_replaced_others_kept(s0, s1, target, Creature { hitpoints: before_hitpoints, block, ..s0.creature(target) });
    }
    creature_power_hooks(state, target, PowerHook::OnAttacked(info, d));
    let ghost s2 = *state;
    proof {
        lemma_others_kept_trans(s0, s1, s2, target);
        lemma_hook_frame_wf(s1, s2);
        lemma_hook_creatures_frame(s1, s2, target);
        lemma_creatures_frame_trans(s0, s1, s2, target);
        assert(creature_frame(s1.creature(target), s2.creature(target))) by {
            if let CreatureIndex::Monster(i) = target {
                assert(monster_frame(s1.monsters@[i as int], s2.monsters@[i as int]));
            }
        }
    }
    let hitpoints = state.get_creature(target).hitpoints.wrapping_sub(d);
    if hitpoints <= 0 {
        set_health(state, target, 0, block);
        let ghost s3 = *state;
        proof {
            lemma_replaced_others_kept(s2, s3, target, Creature { hitpoints: 0, block, ..s2.creature(target) });
            lemma_others_kept_trans(s0, s2, s3, target);
            lemma_creatures_frame_trans(s0, s2, s3, target);
            lemma_creatures_frame_wf(s2, s3, target);
        }
        if let CreatureIndex::Monster(i) = target {
            state.monsters[i].gone = true;
            let ghost s4 = *state;
            proof {
                assert(creatures_frame(s3, s4, target)) by {
                    assert forall|j: int| 0 <= j < s3.monsters@.len() implies monster_identity_same(
                        s3.monsters@[j],
                        #[trigger] s4.monsters@[j],
                    ) && if target == CreatureIndex::Monster(j as usize) {
                        health_frame(s3.monsters@[j].creature, s4.monsters@[j].creature)
                    } else {
                        creature_frame(s3.monsters@[j].creature, s4.monsters@[j].creature)
                    } by {
                        if j == i {
                            assert(s4.monsters@[j] == Monster { gone: true, ..s3.monsters@[j] });
                        } else {
                            assert(s4.monsters@[j] == s3.monsters@[j]);
                        }
                    }
                }
                lemma_creatures_frame_trans(s0, s3, s4, target);
                lemma_creatures_frame_wf(s3, s4, target);
                assert(others_kept(s3, s4, target)) by {
                    assert forall|o: CreatureIndex| o != target && s3.valid_creature_index(o) implies #[trigger] s4.creature(o)
                        == s3.creature(o) by {
                        if let CreatureIndex::Monster(j) = o {
                            assert(s4.monsters@[j as int] == s3.monsters@[j as int]);
                        }
                    }
                }
                lemma_others_kept_trans(s0, s3, s4, target);
            }
            creature_power_hooks(state, target, PowerHook::OnDeath);
            proof {
                let s5 = *state;
                lemma_others_kept_trans(s0, s4, s5, target);
                lemma_hook_frame_wf(s4, s5);
                lemma_hook_creatures_frame(s4, s5, target);
                lemma_creatures_frame_trans(s0, s4, s5, target);
                assert(monster_frame(s4.monsters@[i as int], s5.monsters@[i as int]));
                assert forall|j: int| 0 <= j < s0.monsters@.len() implies #[trigger] s5.monsters@[j].gone
                    == (s0.monsters@[j].gone || (target == CreatureIndex::Monster(j as usize)
                    && spec_killed(before_hitpoints, d))) by {
                    assert(monster_frame(s4.monsters@[j], s5.monsters@[j]));
                    assert(s2.monsters@[j].gone == s1.monsters@[j].gone);
                    assert(s1.monsters@[j].gone == s0.monsters@[j].gone);
                    if j != i {
                        assert(s4.monsters@[j] == s3.monsters@[j]);
                    }
                }
            }
        } else {
            proof {
                assert forall|j: int| 0 <= j < s0.monsters@.len() implies #[trigger] s3.monsters@[j].gone
                    == s0.monsters@[j].gone by {
                    assert(s2.monsters@[j].gone == s1.monsters@[j].gone);
                }
            }
        }
    } else {
        set_health(state, target, hitpoints, block);
        proof {
            let s3 = *state;
            lemma_replaced_others_kept(s2, s3, target, Creature { hitpoints, block, ..s2.creature(target) });
            lemma_others_kept_trans(s0, s2, s3, target);
            lemma_creatures_frame_trans(s0, s2, s3, target);
            lemma_creatures_frame_wf(s2, s3, target);
            assert forall|j: int| 0 <= j < s0.monsters@.len() implies #[trigger] s3.monsters@[j].gone
                == s0.monsters@[j].gone by {
                assert(s2.monsters@[j].gone == s1.monsters@[j].gone);
            }
        }
    }
}


/// What `start_creature_turn` does.
pub open spec fn spec_turn_started(pre: CombatState, post: CombatState, index: CreatureIndex) -> bool {
    &&& creatures_frame(pre, post, index)
    &&& same_presence(pre, post)
    &&& post.player.energy == pre.player.energy
    &&& same_cards(pre, post)
    &&& same_counters(pre, post)
    &&& post.fresh_subaction_queue@ == pre.fresh_subaction_queue@
    &&& post.stale_subaction_stack@ == pre.stale_subaction_stack@
    &&& post.creature(index).hitpoints == pre.creature(index).hitpoints
    &&& post.creature(index).block == if spec_has_power(
        pre.creature(index).powers@,
        PowerId::Barricade,
    ) {
        pre.creature(index).block
    } else {
        0
    }
    &&& turn_start_hooks_ran(pre, post, index)
    &&& others_kept(pre, post, index)
}

/// The start of a creature's turn: its start-of-turn hooks run, it loses its block
/// unless it has Barricade, then its post-draw hooks run.
pub fn start_creature_turn(state: &mut CombatState, index: CreatureIndex)
    requires
        old(state).wf(),
        old(state).valid_creature_index(index),
    ensures
        final(state).wf(),
        spec_turn_started(*old(state), *final(state), index),
{
    let ghost s0 = *state;
    creature_power_hooks(state, index, PowerHook::AtStartOfTurn);
    let ghost s1 = *state;
    proof {
        lemma_hook_frame_wf(s0, s1);
        lemma_hook_creatures_frame(s0, s1, index);
        assert(creature_frame(s0.creature(index), s1.creature(index))) by {
            if let CreatureIndex::Monster(i) = index {
                assert(monster_frame(s0.monsters@[i as int], s1.monsters@[i as int]));
            }
        }
        assert(spec_has_power(s1.creature(index).powers@, PowerId::Barricade) == spec_has_power(
            s0.creature(index).powers@,
            PowerId::Barricade,
        )) by {
            let p0 = s0.creature(index).powers@;
            let p1 = s1.creature(index).powers@;
            if spec_has_power(p0, PowerId::Barricade) {
                let j = choose|j: int| 0 <= j < p0.len() && #[trigger] p0[j].power_id == PowerId::Barricade;
                assert(p1[j].power_id == PowerId::Barricade);
            }
            if spec_has_power(p1, PowerId::Barricade) {
                let j = choose|j: int| 0 <= j < p1.len() && #[trigger] p1[j].power_id == PowerId::Barricade;
                assert(p0[j].power_id == PowerId::Barricade);
            }
        }
    }
    if !state.get_creature(index).has_power(PowerId::Barricade) {
        let hitpoints = state.get_creature(index).hitpoints;
        set_health(state, index, hitpoints, 0);
        proof {
            lemma_replaced_others_kept(s1, *state, index, Creature { hitpoints, block: 0, ..s1.creature(index) });
            lemma_others_kept_trans(s0, s1, *state, index);
        }
    } else {
        proof {
            lemma_hook_creatures_frame(s1, s1, index);
        }
    }
    let ghost s2 = *state;
    proof {
        lemma_creatures_frame_trans(s0, s1, s2, index);
        lemma_creatures_frame_wf(s1, s2, index);
    }
    creature_power_hooks(state, index, PowerHook::AtStartOfTurnPostDraw);
    proof {
        let s3 = *state;
        lemma_others_kept_trans(s0, s2, s3, index);
        lemma_hook_frame_wf(s2, s3);
        lemma_hook_creatures_frame(s2, s3, index);
        lemma_creatures_frame_trans(s0, s2, s3, index);
        assert(creature_frame(s2.creature(index), s3.creature(index))) by {
            if let CreatureIndex::Monster(i) = index {
                assert(monster_frame(s2.monsters@[i as int], s3.monsters@[i as int]));
            }
        }
        assert forall|j: int| 0 <= j < s0.monsters@.len() implies #[trigger] s3.monsters@[j].gone
            == s0.monsters@[j].gone by {
            assert(s1.monsters@[j].gone == s0.monsters@[j].gone);
            assert(s2.monsters@[j].gone == s1.monsters@[j].gone);
            assert(s3.monsters@[j].gone == s2.monsters@[j].gone);
        }
    }
}

/// The cards of a hand whose ethereal flag is `ethereal`, in order.
pub open spec fn cards_by_ethereal(cards: Seq<SingleCard>, ethereal: bool) -> Seq<SingleCard>
    decreases cards.len(),
{
    if cards.len() == 0 {
        seq![]
    } else {
        let rest = cards_by_ethereal(cards.drop_last(), ethereal);
        if spec_card_info(cards.last().card_id).ethereal == ethereal {
            rest.push(cards.last())
        } else {
            rest
        }
    }
}

/// The damage a Burn left in hand deals the player at the end of the turn:
/// 2, plus 2 per upgrade (arithmetic wraps like `i32`), ignoring powers.
pub open spec fn burn_damage(card: SingleCard) -> DynAction {
    let amount = i32_specs::wrapping_add(2, i32_specs::wrapping_mul(card.upgrades, 2));
    DynAction::DamageAction(
        DamageAction {
            target: CreatureIndex::Player,
            info: DamageInfoAllPowers {
                damage_type: DamageType::Thorns,
                owner: Some(CreatureIndex::Player),
                base: amount,
                output: amount,
            },
        },
    )
}

/// One Burn damage for each Burn in the cards, in order.
pub open spec fn burn_damages(cards: Seq<SingleCard>) -> Seq<DynAction>
    decreases cards.len(),
{
    if cards.len() == 0 {
        seq![]
    } else {
        let rest = burn_damages(cards.drop_last());
        if cards.last().card_id == CardId::Burn {
            rest.push(burn_damage(cards.last()))
        } else {
            rest
        }
    }
}

/// What `end_turn_cards` does.
pub open spec fn spec_hand_put_away(pre: CombatState, post: CombatState) -> bool {
    &&& post.turn_has_ended
    &&& post.hand@.len() == 0
    &&& post.exhaust_pile@ == pre.exhaust_pile@ + cards_by_ethereal(
        pre.hand@,
        true,
    )
    &&& post.discard_pile@ == pre.discard_pile@ + cards_by_ethereal(
        pre.hand@,
        false,
    )
    &&& post.actions@ == pre.actions@ + burn_damages(pre.hand@)
    &&& post.draw_pile@ == pre.draw_pile@
    &&& post.limbo@ == pre.limbo@
    &&& post.card_in_play == pre.card_in_play
    &&& same_creatures(pre, post)
    &&& post.fresh_subaction_queue@ == pre.fresh_subaction_queue@
    &&& post.stale_subaction_stack@ == pre.stale_subaction_stack@
    &&& post.turn_number == pre.turn_number
    &&& post.num_reshuffles == pre.num_reshuffles
    &&& post.num_actions == pre.num_actions
    &&& post.num_choices == pre.num_choices
}

/// The hand at the end of the player's turn: the turn is marked ended, ethereal cards
/// are exhausted and the rest discarded, in hand order, and each Burn's damage is
/// queued at the back.
pub fn end_turn_cards(state: &mut CombatState)
    ensures
        spec_hand_put_away(*old(state), *final(state)),
{
    state.turn_has_ended = true;
    let ghost hand = state.hand@;
    let mut burns: Vec<DynAction> = Vec::new();
    let mut i: usize = 0;
    while i < state.hand.len()
        invariant
            i <= state.hand@.len(),
            state.hand@ == hand,
            hand == old(state).hand@,
            state.turn_has_ended,
            state.exhaust_pile@ == old(state).exhaust_pile@ + cards_by_ethereal(
                hand.subrange(0, i as int),
                true,
            ),
            state.discard_pile@ == old(state).discard_pile@ + cards_by_ethereal(
                hand.subrange(0, i as int),
                false,
            ),
            burns@ == burn_damages(hand.subrange(0, i as int)),
            state.actions@ == old(state).actions@,
            state.draw_pile@ == old(state).draw_pile@,
            state.limbo@ == old(state).limbo@,
            state.card_in_play == old(state).card_in_play,
            same_creatures(*old(state), *state),
            state.fresh_subaction_queue@ == old(state).fresh_subaction_queue@,
            state.stale_subaction_stack@ == old(state).stale_subaction_stack@,
            state.turn_number == old(state).turn_number,
            state.num_reshuffles == old(state).num_reshuffles,
            state.num_actions == old(state).num_actions,
            state.num_choices == old(state).num_choices,
        decreases state.hand@.len() - i,
    {
        proof {
            assert(hand.subrange(0, i + 1).drop_last() =~= hand.subrange(0, i as int));
        }
        let card = state.hand[i];
        let info = card.card_info();
        if card.card_id == CardId::Burn {
            let amount = 2i32.wrapping_add(card.upgrades.wrapping_mul(2));
            burns.push(
                DynAction::DamageAction(
                    DamageAction {
                        target: CreatureIndex::Player,
                        info: DamageInfoAllPowers {
                            damage_type: DamageType::Thorns,
                            owner: Some(CreatureIndex::Player),
                            base: amount,
                            output: amount,
                        },
                    },
                ),
            );
        }
        if info.ethereal {
            state.exhaust_pile.push(card);
        } else {
            state.discard_pile.push(card);
        }
        i = i + 1;
    }
    proof {
        assert(hand.subrange(0, hand.len() as int) =~= hand);
    }
    state.hand.clear();
    let mut k: usize = 0;
    while k < burns.len()
        invariant
            k <= burns@.len(),
            burns@ == burn_damages(hand),
            hand == old(state).hand@,
            state.hand@.len() == 0,
            state.turn_has_ended,
            state.exhaust_pile@ == old(state).exhaust_pile@ + cards_by_ethereal(hand, true),
            state.discard_pile@ == old(state).discard_pile@ + cards_by_ethereal(hand, false),
            state.actions@ == old(state).actions@ + burns@.subrange(0, k as int),
            state.draw_pile@ == old(state).draw_pile@,
            state.limbo@ == old(state).limbo@,
            state.card_in_play == old(state).card_in_play,
            same_creatures(*old(state), *state),
            state.fresh_subaction_queue@ == old(state).fresh_subaction_queue@,
            state.stale_subaction_stack@ == old(state).stale_subaction_stack@,
            state.turn_number == old(state).turn_number,
            state.num_reshuffles == old(state).num_reshuffles,
            state.num_actions == old(state).num_actions,
            state.num_choices == old(state).num_choices,
        decreases burns@.len() - k,
    {
        action_bottom(state, burns[k]);
        k = k + 1;
        assert(state.actions@ =~= old(state).actions@ + burns@.subrange(0, k as int));
    }
    assert(burns@.subrange(0, burns@.len() as int) =~= burns@);
}

/// The energy the player's powers add each turn (sums wrap like `i32`).
pub open spec fn spec_inherent_total(powers: Seq<Power>) -> i32
    decreases powers.len(),
{
    if powers.len() == 0 {
        0
    } else {
        i32_specs::wrapping_add(
            spec_inherent_total(powers.drop_last()),
            spec_inherent_energy(powers.last().power_id),
        )
    }
}

fn inherent_total(powers: &Vec<Power>) -> (total: i32)
    ensures
        total == spec_inherent_total(powers@),
{
    let mut total: i32 = 0;
    let mut i: usize = 0;
    while i < powers.len()
        invariant
            i <= powers@.len(),
            total == spec_inherent_total(powers@.subrange(0, i as int)),
        decreases powers@.len() - i,
    {
        assert(powers@.subrange(0, i + 1).drop_last() =~= powers@.subrange(0, i as int));
        total = total.wrapping_add(powers[i].power_id.inherent_energy());
        i = i + 1;
    }
    assert(powers@.subrange(0, powers@.len() as int) =~= powers@);
    total
}

proof fn lemma_inherent_total_frame(a: Seq<Power>, b: Seq<Power>)
    requires
        powers_frame(a, b),
    ensures
        spec_inherent_total(a) == spec_inherent_total(b),
    decreases a.len(),
{
    if a.len() > 0 {
        lemma_inherent_total_frame(a.drop_last(), b.drop_last());
    }
}

/// What `end_monsters_turns_effects` does.
pub open spec fn spec_monsters_turns_ended(pre: CombatState, post: CombatState) -> bool {
    &&& creatures_frame(pre, post, CreatureIndex::Player)
    &&& same_presence(pre, post)
    &&& same_cards(pre, post)
    &&& post.fresh_subaction_queue@ == pre.fresh_subaction_queue@
    &&& post.stale_subaction_stack@ == pre.stale_subaction_stack@
    &&& post.turn_number == i32_specs::wrapping_add(pre.turn_number, 1)
    &&& !post.turn_has_ended
    &&& post.num_reshuffles == pre.num_reshuffles
    &&& post.num_actions == pre.num_actions
    &&& post.num_choices == pre.num_choices
    &&& post.player.creature.hitpoints == pre.player.creature.hitpoints
    &&& post.player.creature.block == if spec_has_power(
        pre.player.creature.powers@,
        PowerId::Barricade,
    ) {
        pre.player.creature.block
    } else {
        0
    }
    &&& post.player.energy == i32_specs::wrapping_add(
        3,
        spec_inherent_total(pre.player.creature.powers@),
    )
    &&& exists|first: CombatState, second: CombatState|
        #[trigger] round_end_hooks_ran(pre, first, second, post)
    &&& forall|j: int|
        0 <= j < pre.monsters@.len() ==> (#[trigger] post.monsters@[j]).creature.powers@
            == monsters_hooked_twice(pre.monsters@, j)
    &&& post.player.creature.powers@ == player_powers_after_round(pre.player.creature)
}

/// The end of the monsters' turns, before the player draws: the monsters' end-of-turn
/// hooks and every creature's end-of-round hooks run, the turn number rises by one,
/// the player's turn starts (see `start_creature_turn`), and the player's energy is
/// reset to 3 plus what its powers add.
pub fn end_monsters_turns_effects(state: &mut CombatState)
    requires
        old(state).wf(),
    ensures
        final(state).wf(),
        spec_monsters_turns_ended(*old(state), *final(state)),
{
    let ghost s0 = *state;
    all_monsters_power_hooks(state, PowerHook::AtEndOfTurn);
    let ghost s1 = *state;
    all_creatures_power_hooks(state, PowerHook::AtEndOfRound);
    let ghost s2 = *state;
    proof {
        lemma_hook_frame_trans(s0, s1, s2);
        lemma_hook_frame_wf(s0, s2);
    }
    state.turn_number = state.turn_number.wrapping_add(1);
    state.turn_has_ended = false;
    let ghost s3 = *state;
    proof {
        lemma_hook_creatures_frame(s0, s2, CreatureIndex::Player);
        assert(creature_frame(s0.player.creature, s2.player.creature));
        assert(creatures_frame(s0, s3, CreatureIndex::Player));
        assert(same_presence(s0, s3));
        assert(s3.wf());
    }
    start_creature_turn(state, CreatureIndex::Player);
    let ghost s4 = *state;
    proof {
        lemma_creatures_frame_trans(s0, s3, s4, CreatureIndex::Player);
        lemma_inherent_total_frame(s0.player.creature.powers@, s4.player.creature.powers@);
        assert(spec_has_power(s3.player.creature.powers@, PowerId::Barricade) == spec_has_power(
            s0.player.creature.powers@,
            PowerId::Barricade,
        )) by {
            let p0 = s0.player.creature.powers@;
            let p3 = s3.player.creature.powers@;
            if spec_has_power(p0, PowerId::Barricade) {
                let j = choose|j: int| 0 <= j < p0.len() && #[trigger] p0[j].power_id == PowerId::Barricade;
                assert(p3[j].power_id == PowerId::Barricade);
            }
            if spec_has_power(p3, PowerId::Barricade) {
                let j = choose|j: int| 0 <= j < p3.len() && #[trigger] p3[j].power_id == PowerId::Barricade;
                assert(p0[j].power_id == PowerId::Barricade);
            }
        }
    }
    let total = inherent_total(&state.player.creature.powers);
    state.player.energy = 3i32.wrapping_add(total);
    proof {
        let s5 = *state;
        assert(creatures_frame(s4, s5, CreatureIndex::Player)) by {
            assert forall|i: int| 0 <= i < s4.monsters@.len() implies monster_identity_same(
                s4.monsters@[i],
                #[trigger] s5.monsters@[i],
            ) && creature_frame(s4.monsters@[i].creature, s5.monsters@[i].creature) by {
                assert(s5.monsters@[i] == s4.monsters@[i]);
            }
        }
        lemma_creatures_frame_trans(s0, s4, s5, CreatureIndex::Player);
        assert forall|j: int| 0 <= j < s0.monsters@.len() implies #[trigger] s5.monsters@[j].gone
            == s0.monsters@[j].gone by {
            assert(s4.monsters@[j].gone == s3.monsters@[j].gone);
        }
        assert(round_end_hooks_ran(s0, s1, s2, s5)) by {
            assert(s3.player.creature == s2.player.creature);
            assert(s5.player.creature == s4.player.creature);
        }
        assert(s0.monsters@.len() <= usize::MAX) by {
            assert(s0.monsters@.len() == s0.monsters.len());
        }
        assert forall|j: int| 0 <= j < s0.monsters@.len() implies (#[trigger] s5.monsters@[j]).creature.powers@
            == monsters_hooked_twice(s0.monsters@, j) by {
            assert(monster_frame(s0.monsters@[j], s1.monsters@[j]));
            assert(s4.creature(CreatureIndex::Monster(j as usize)) == s3.creature(CreatureIndex::Monster(j as usize)));
            assert(s5.monsters@[j] == s4.monsters@[j]);
            assert(s3.monsters@[j] == s2.monsters@[j]);
        }
    }
}

/// The first place in the cards holding this card.
pub open spec fn card_position(cards: Seq<SingleCard>, card: SingleCard) -> int {
    choose|k: int|
        0 <= k < cards.len() && cards[k] == card && forall|j: int| 0 <= j < k ==> cards[j] != card
}

/// Whether the cards hold this card.
pub open spec fn holds_card(cards: Seq<SingleCard>, card: SingleCard) -> bool {
    exists|k: int| 0 <= k < cards.len() && cards[k] == card
}

/// Finds the first place of a card.
pub fn find_card(cards: &Vec<SingleCard>, card: SingleCard) -> (found: Option<usize>)
    ensures
        found is Some <==> holds_card(cards@, card),
        found matches Some(k) ==> k == card_position(cards@, card) && k < cards@.len(),
{
    let mut i: usize = 0;
    while i < cards.len()
        invariant
            i <= cards@.len(),
            forall|j: int| 0 <= j < i ==> cards@[j] != card,
        decreases cards@.len() - i,
    {
        if cards[i] == card {
            proof {
                let k = card_position(cards@, card);
                assert(cards@[i as int] == card && forall|j: int| 0 <= j < i ==> cards@[j] != card);
                if k != i {
                    if k < i {
                        assert(cards@[k] != card);
                    } else {
                        assert(cards@[i as int] != card);
                    }
                }
            }
            return Some(i);
        }
        i = i + 1;
    }
    None
}

/// What `play_card_from_hand` does.
pub open spec fn spec_card_played(pre: CombatState, post: CombatState, card: SingleCard, target: usize) -> bool {
    &&& post.hand@ == pre.hand@.remove(card_position(pre.hand@, card))
    &&& post.card_in_play == Some(card)
    &&& post.player == (Player {
        energy: i32_specs::wrapping_sub(pre.player.energy, card.cost),
        ..pre.player
    })
    &&& post.monsters@ == pre.monsters@
    &&& post.actions@ == pre.actions@ + spec_card_actions(pre, card, target)
    &&& post.draw_pile@ == pre.draw_pile@
    &&& post.discard_pile@ == pre.discard_pile@
    &&& post.exhaust_pile@ == pre.exhaust_pile@
    &&& post.limbo@ == pre.limbo@
    &&& post.fresh_subaction_queue@ == pre.fresh_subaction_queue@
    &&& post.stale_subaction_stack@ == pre.stale_subaction_stack@
    &&& same_counters(pre, post)
}

/// Playing a card from the hand, after the card-played hooks: the card leaves the hand
/// (its first copy), its cost is paid (subtraction wraps like `i32`; an X-cost card's
/// cost is -1), it is in play, and its effects are queued at the back.
pub fn play_card_from_hand(state: &mut CombatState, card: SingleCard, target: usize)
    requires
        old(state).wf(),
        target < old(state).monsters@.len(),
        holds_card(old(state).hand@, card),
    ensures
        final(state).wf(),
        spec_card_played(*old(state), *final(state), card, target),
{
    let behavior = card_behavior_actions(state, &card, target);
    let k = find_card(&state.hand, card).unwrap();
    state.hand.remove(k);
    state.player.energy = state.player.energy.wrapping_sub(card.cost);
    state.card_in_play = Some(card);
    let ghost mid = *state;
    let mut i: usize = 0;
    while i < behavior.len()
        invariant
            i <= behavior@.len(),
            behavior@ == spec_card_actions(*old(state), card, target),
            state.actions@ == mid.actions@ + behavior@.subrange(0, i as int),
            mid.actions@ == old(state).actions@,
            state.hand@ == mid.hand@,
            state.card_in_play == mid.card_in_play,
            state.player == mid.player,
            state.monsters@ == mid.monsters@,
            state.draw_pile@ == mid.draw_pile@,
            state.discard_pile@ == mid.discard_pile@,
            state.exhaust_pile@ == mid.exhaust_pile@,
            state.limbo@ == mid.limbo@,
            state.fresh_subaction_queue@ == mid.fresh_subaction_queue@,
            state.stale_subaction_stack@ == mid.stale_subaction_stack@,
            same_counters(mid, *state),
        decreases behavior@.len() - i,
    {
        action_bottom(state, behavior[i]);
        i = i + 1;
        assert(state.actions@ =~= mid.actions@ + behavior@.subrange(0, i as int));
    }
    assert(behavior@.subrange(0, behavior@.len() as int) =~= behavior@);
}

/// What `prepare_draw` does.
pub open spec fn spec_draw_prepared(pre: CombatState, post: CombatState, count: i32, draw: bool) -> bool {
    &&& ({
        let stops = spec_has_power(pre.player.creature.powers@, PowerId::NoDraw)
            || count <= 0 || pre.hand@.len() == MAX_HAND_SIZE;
        let reshuffles = !stops && pre.draw_pile@.len() == 0;
        &&& draw == (!stops && (pre.draw_pile@.len() > 0
            || pre.discard_pile@.len() > 0))
        &&& post.draw_pile@ == if reshuffles {
            pre.discard_pile@
        } else {
            pre.draw_pile@
        }
        &&& post.discard_pile@ == if reshuffles {
            pre.draw_pile@
        } else {
            pre.discard_pile@
        }
        &&& post.num_reshuffles == if reshuffles {
            i32_specs::wrapping_add(pre.num_reshuffles, 1)
        } else {
            pre.num_reshuffles
        }
    })
    &&& post.hand@ == pre.hand@
    &&& post.exhaust_pile@ == pre.exhaust_pile@
    &&& post.limbo@ == pre.limbo@
    &&& post.card_in_play == pre.card_in_play
    &&& same_creatures(pre, post)
    &&& same_queues(pre, post)
    &&& post.turn_number == pre.turn_number
    &&& post.turn_has_ended == pre.turn_has_ended
    &&& post.num_actions == pre.num_actions
    &&& post.num_choices == pre.num_choices
}

/// The checks before drawing: nothing is drawn under No Draw, for a count that is not
/// positive, or into a full hand. Otherwise an empty draw pile is first swapped with the
/// discard pile (one more reshuffle). The result says whether a card is to be drawn.
pub fn prepare_draw(state: &mut CombatState, count: i32) -> (draw: bool)
    ensures
        spec_draw_prepared(*old(state), *final(state), count, draw),
{
    if state.player.creature.has_power(PowerId::NoDraw) {
        return false;
    }
    if count <= 0 {
        return false;
    }
    if state.hand.len() == MAX_HAND_SIZE {
        return false;
    }
    if state.draw_pile.len() == 0 {
        state.num_reshuffles = state.num_reshuffles.wrapping_add(1);
        std::mem::swap(&mut state.draw_pile, &mut state.discard_pile);
    }
    state.draw_pile.len() > 0
}

} // verus!
