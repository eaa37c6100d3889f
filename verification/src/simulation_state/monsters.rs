//! Monster identities, their intents, and how monsters choose what to do next.
use vstd::prelude::*;
use crate::seed_system::{
    lemma_merge_one, lemma_scale_total, lemma_total_weight_nonneg_entry, merge_all, merge_one, scale_entries, total_weight,
    unique_values, Distribution, WEIGHT_ONE,
};
use crate::actions::{ApplyPowerAction, DamageAction, DynAction};
use crate::simulation::{
    spec_damage_output, spec_has_power, spec_owner_amount, spec_target_amount, CreatureIndex,
    DamageInfoAllPowers, DamageInfoNoPowers, DamageType,
};
use crate::simulation_state::{CombatState, IntentId, Monster, PowerId};
use crate::string_match::str_equals;

verus! {

/// Every monster species the simulator knows.
#[derive(Clone, Copy, PartialEq, Eq, PartialOrd, Ord, Hash, Debug, Structural)]
pub enum MonsterId {
    RedLouse,
    GreenLouse,
    Cultist,
    JawWorm,
    AcidSlimeS,
    AcidSlimeM,
    AcidSlimeL,
    SpikeSlimeS,
    SpikeSlimeM,
    SpikeSlimeL,
    FungiBeast,
    Looter,
    SlaverBlue,
    SlaverRed,
    MadGremlin,
    SneakyGremlin,
    GremlinWizard,
    FatGremlin,
    ShieldGremlin,
    Sentry,
    GremlinNob,
    Lagavulin,
    TheGuardian,
    Hexaghost,
    SlimeBoss,
    Byrd,
}

/// The monster named by a CommunicationMod monster id; unknown names read as `Cultist`.
pub open spec fn spec_monster_id_from_str(s: Seq<char>) -> MonsterId {
    if s == "FuzzyLouseNormal"@ {
        MonsterId::RedLouse
    } else if s == "FuzzyLouseDefensive"@ {
        MonsterId::GreenLouse
    } else if s == "Cultist"@ {
        MonsterId::Cultist
    } else if s == "JawWorm"@ {
        MonsterId::JawWorm
    } else if s == "AcidSlime_S"@ {
        MonsterId::AcidSlimeS
    } else if s == "AcidSlime_M"@ {
        MonsterId::AcidSlimeM
    } else if s == "AcidSlime_L"@ {
        MonsterId::AcidSlimeL
    } else if s == "SpikeSlime_S"@ {
        MonsterId::SpikeSlimeS
    } else if s == "SpikeSlime_M"@ {
        MonsterId::SpikeSlimeM
    } else if s == "SpikeSlime_L"@ {
        MonsterId::SpikeSlimeL
    } else if s == "FungiBeast"@ {
        MonsterId::FungiBeast
    } else if s == "Looter"@ {
        MonsterId::Looter
    } else if s == "SlaverBlue"@ {
        MonsterId::SlaverBlue
    } else if s == "SlaverRed"@ {
        MonsterId::SlaverRed
    } else if s == "GremlinWarrior"@ {
        MonsterId::MadGremlin
    } else if s == "GremlinThief"@ {
        MonsterId::SneakyGremlin
    } else if s == "GremlinWizard"@ {
        MonsterId::GremlinWizard
    } else if s == "GremlinFat"@ {
        MonsterId::FatGremlin
    } else if s == "GremlinTsundere"@ {
        MonsterId::ShieldGremlin
    } else if s == "Sentry"@ {
        MonsterId::Sentry
    } else if s == "GremlinNob"@ {
        MonsterId::GremlinNob
    } else if s == "Lagavulin"@ {
        MonsterId::Lagavulin
    } else if s == "TheGuardian"@ {
        MonsterId::TheGuardian
    } else if s == "Hexaghost"@ {
        MonsterId::Hexaghost
    } else if s == "SlimeBoss"@ {
        MonsterId::SlimeBoss
    } else if s == "Byrd"@ {
        MonsterId::Byrd
    } else {
        MonsterId::Cultist
    }
}

/// Reads a CommunicationMod monster id.
pub fn monster_id_from_str(s: &str) -> (id: MonsterId)
    ensures
        id == spec_monster_id_from_str(s@),
{
    if str_equals(s, "FuzzyLouseNormal") {
        MonsterId::RedLouse
    } else if str_equals(s, "FuzzyLouseDefensive") {
        MonsterId::GreenLouse
    } else if str_equals(s, "Cultist") {
        MonsterId::Cultist
    } else if str_equals(s, "JawWorm") {
        MonsterId::JawWorm
    } else if str_equals(s, "AcidSlime_S") {
        MonsterId::AcidSlimeS
    } else if str_equals(s, "AcidSlime_M") {
        MonsterId::AcidSlimeM
    } else if str_equals(s, "AcidSlime_L") {
        MonsterId::AcidSlimeL
    } else if str_equals(s, "SpikeSlime_S") {
        MonsterId::SpikeSlimeS
    } else if str_equals(s, "SpikeSlime_M") {
        MonsterId::SpikeSlimeM
    } else if str_equals(s, "SpikeSlime_L") {
        MonsterId::SpikeSlimeL
    } else if str_equals(s, "FungiBeast") {
        MonsterId::FungiBeast
    } else if str_equals(s, "Looter") {
        MonsterId::Looter
    } else if str_equals(s, "SlaverBlue") {
        MonsterId::SlaverBlue
    } else if str_equals(s, "SlaverRed") {
        MonsterId::SlaverRed
    } else if str_equals(s, "GremlinWarrior") {
        MonsterId::MadGremlin
    } else if str_equals(s, "GremlinThief") {
        MonsterId::SneakyGremlin
    } else if str_equals(s, "GremlinWizard") {
        MonsterId::GremlinWizard
    } else if str_equals(s, "GremlinFat") {
        MonsterId::FatGremlin
    } else if str_equals(s, "GremlinTsundere") {
        MonsterId::ShieldGremlin
    } else if str_equals(s, "Sentry") {
        MonsterId::Sentry
    } else if str_equals(s, "GremlinNob") {
        MonsterId::GremlinNob
    } else if str_equals(s, "Lagavulin") {
        MonsterId::Lagavulin
    } else if str_equals(s, "TheGuardian") {
        MonsterId::TheGuardian
    } else if str_equals(s, "Hexaghost") {
        MonsterId::Hexaghost
    } else if str_equals(s, "SlimeBoss") {
        MonsterId::SlimeBoss
    } else if str_equals(s, "Byrd") {
        MonsterId::Byrd
    } else {
        MonsterId::Cultist
    }
}


/// An ascension level from which a monster acts differently.
#[derive(Clone, Copy, PartialEq, Eq, PartialOrd, Ord, Hash, Debug, Structural)]
pub struct Ascension(pub i32);

/// How many times in a row a monster may repeat a move.
#[derive(Clone, Copy, PartialEq, Eq, PartialOrd, Ord, Hash, Debug, Structural)]
pub struct Repeats(pub usize);

/// The most intents any monster species has.
pub const MAX_INTENTS: usize = 7;

/// A monster species' intents, numbered in declaration order.
pub trait Intent: Sized {
    /// The number of this intent.
    fn id(self) -> IntentId;

    /// The intent with this number.
    fn from_id(intent_id: IntentId) -> Option<Self>;

    /// The intent CommunicationMod reports under this move id, if any.
    fn from_communication_mod(intent_id: i32) -> Option<Self>;
}

/// What a Byrd can do.
#[derive(Clone, Copy, PartialEq, Eq, PartialOrd, Ord, Hash, Debug, Structural)]
pub enum ByrdIntent {
    Caw,
    Peck,
    Swoop,
    Fly,
    Headbutt,
    Stunned,
}

pub open spec fn spec_byrd_intent_id(intent: ByrdIntent) -> IntentId {
    match intent {
        ByrdIntent::Caw => 0,
        ByrdIntent::Peck => 1,
        ByrdIntent::Swoop => 2,
        ByrdIntent::Fly => 3,
        ByrdIntent::Headbutt => 4,
        ByrdIntent::Stunned => 5,
    }
}

/// The Byrd intent with a number, if the number names one.
pub open spec fn spec_byrd_intent_from_id(id: IntentId) -> Option<ByrdIntent> {
    if id == 0 {
        Some(ByrdIntent::Caw)
    } else if id == 1 {
        Some(ByrdIntent::Peck)
    } else if id == 2 {
        Some(ByrdIntent::Swoop)
    } else if id == 3 {
        Some(ByrdIntent::Fly)
    } else if id == 4 {
        Some(ByrdIntent::Headbutt)
    } else if id == 5 {
        Some(ByrdIntent::Stunned)
    } else {
        None
    }
}

/// The Byrd intent behind a CommunicationMod move id.
pub open spec fn spec_byrd_intent_from_communication_mod(id: i32) -> Option<ByrdIntent> {
    if id == 6 {
        Some(ByrdIntent::Caw)
    } else if id == 1 {
        Some(ByrdIntent::Peck)
    } else if id == 3 {
        Some(ByrdIntent::Swoop)
    } else if id == 2 {
        Some(ByrdIntent::Fly)
    } else if id == 5 {
        Some(ByrdIntent::Headbutt)
    } else if id == 4 {
        Some(ByrdIntent::Stunned)
    } else {
        None
    }
}

impl Intent for ByrdIntent {
    fn id(self) -> (id: IntentId)
        ensures
            id == spec_byrd_intent_id(self),
    {
        match self {
            ByrdIntent::Caw => 0,
            ByrdIntent::Peck => 1,
            ByrdIntent::Swoop => 2,
            ByrdIntent::Fly => 3,
            ByrdIntent::Headbutt => 4,
            ByrdIntent::Stunned => 5,
        }
    }

    fn from_id(intent_id: IntentId) -> (intent: Option<ByrdIntent>)
        ensures
            intent == spec_byrd_intent_from_id(intent_id),
    {
        if intent_id == 0 {
            Some(ByrdIntent::Caw)
        } else if intent_id == 1 {
            Some(ByrdIntent::Peck)
        } else if intent_id == 2 {
            Some(ByrdIntent::Swoop)
        } else if intent_id == 3 {
            Some(ByrdIntent::Fly)
        } else if intent_id == 4 {
            Some(ByrdIntent::Headbutt)
        } else if intent_id == 5 {
            Some(ByrdIntent::Stunned)
        } else {
            None
        }
    }

    fn from_communication_mod(intent_id: i32) -> (intent: Option<ByrdIntent>)
        ensures
            intent == spec_byrd_intent_from_communication_mod(intent_id),
    {
        if intent_id == 6 {
            Some(ByrdIntent::Caw)
        } else if intent_id == 1 {
            Some(ByrdIntent::Peck)
        } else if intent_id == 3 {
            Some(ByrdIntent::Swoop)
        } else if intent_id == 2 {
            Some(ByrdIntent::Fly)
        } else if intent_id == 5 {
            Some(ByrdIntent::Headbutt)
        } else if intent_id == 4 {
            Some(ByrdIntent::Stunned)
        } else {
            None
        }
    }
}

/// Whether the simulator knows how this monster species chooses and performs its intents.
pub open spec fn spec_behavior_known(id: MonsterId) -> bool {
    id == MonsterId::Byrd
}

impl MonsterId {
    /// Whether the simulator knows how this monster species chooses and performs its intents.
    pub fn behavior_known(self) -> (known: bool)
        ensures
            known == spec_behavior_known(self),
    {
        match self {
            MonsterId::Byrd => true,
            _ => false,
        }
    }

    /// The intent number behind a CommunicationMod move id, for the species whose intents are known.
    pub fn intent_from_communication_mod(self, spire_intent: i32) -> (intent: Option<IntentId>)
        ensures
            intent == spec_intent_from_communication_mod(self, spire_intent),
    {
        match self {
            MonsterId::Byrd => match ByrdIntent::from_communication_mod(spire_intent) {
                Some(i) => Some(i.id()),
                None => None,
            },
            _ => None,
        }
    }
}

/// The intent number behind a CommunicationMod move id.
pub open spec fn spec_intent_from_communication_mod(id: MonsterId, spire_intent: i32) -> Option<
    IntentId,
> {
    match id {
        MonsterId::Byrd => match spec_byrd_intent_from_communication_mod(spire_intent) {
            Some(i) => Some(spec_byrd_intent_id(i)),
            None => None,
        },
        _ => None,
    }
}

/// A certain outcome.
pub open spec fn spec_single(v: i32) -> Seq<(u64, i32)> {
    seq![(WEIGHT_ONE, v)]
}

/// `a` with probability `p` (in millionths), else `b`.
pub open spec fn spec_split(p: u64, a: i32, b: i32) -> Seq<(u64, i32)> {
    merge_all(
        scale_entries(spec_single(a), p, WEIGHT_ONE),
        scale_entries(spec_single(b), (WEIGHT_ONE - p) as u64, WEIGHT_ONE),
    )
}

/// Whether the last `repeats` moves were all `intent`.
pub open spec fn spec_did_repeats(history: Seq<IntentId>, repeats: usize, intent: IntentId) -> bool {
    history.len() >= repeats && forall|k: int|
        history.len() - repeats <= k < history.len() ==> #[trigger] history[k] == intent
}

/// `intent`, unless the monster already did it `repeats` times in a row: then `alternative`.
pub open spec fn spec_with_max_repeats(
    history: Seq<IntentId>,
    repeats: usize,
    intent: IntentId,
    alternative: Seq<(u64, i32)>,
) -> Seq<(u64, i32)> {
    if spec_did_repeats(history, repeats, intent) {
        alternative
    } else {
        spec_single(intent)
    }
}

/// The upper threshold of the last band, or 0.
pub open spec fn last_threshold(bands: Seq<(i32, Seq<(u64, i32)>)>) -> i32 {
    if bands.len() == 0 {
        0
    } else {
        bands.last().0
    }
}

/// Adds the band "a roll below `threshold`" unless an earlier band already covers it.
pub open spec fn push_band(
    bands: Seq<(i32, Seq<(u64, i32)>)>,
    threshold: i32,
    value: Seq<(u64, i32)>,
) -> Seq<(i32, Seq<(u64, i32)>)> {
    if threshold > last_threshold(bands) {
        bands.push((threshold, value))
    } else {
        bands
    }
}

/// The lower threshold of band `k`.
pub open spec fn band_start(bands: Seq<(i32, Seq<(u64, i32)>)>, k: int) -> i32 {
    if k == 0 {
        0
    } else {
        bands[k - 1].0
    }
}

/// The first `k` bands combined: each band's outcomes weighted by its share of the
/// 100 possible rolls.
pub open spec fn combine_bands(bands: Seq<(i32, Seq<(u64, i32)>)>, k: int) -> Seq<(u64, i32)>
    decreases k,
{
    if k <= 0 {
        seq![]
    } else {
        merge_all(
            combine_bands(bands, k - 1),
            scale_entries(bands[k - 1].1, (bands[k - 1].0 - band_start(bands, k - 1)) as u64, 100),
        )
    }
}

/// The distribution the bands describe; none when no band was added.
pub open spec fn spec_final_distribution(bands: Seq<(i32, Seq<(u64, i32)>)>) -> Option<
    Seq<(u64, i32)>,
> {
    if bands.len() == 0 {
        None
    } else {
        Some(combine_bands(bands, bands.len() as int))
    }
}

/// The bands of a Byrd's next-intent roll: a first move caws or pecks; a flying
/// Byrd pecks, swoops or caws without repeating too often; a grounded Byrd
/// headbutts, then flies.
pub open spec fn spec_byrd_bands(monster: Monster) -> Seq<(i32, Seq<(u64, i32)>)> {
    let h = monster.move_history@;
    if h.len() == 0 {
        push_band(seq![], 100, spec_split(375000, 0, 1))
    } else if spec_has_power(monster.creature.powers@, PowerId::Flight) {
        let b1 = push_band(seq![], 50, spec_with_max_repeats(h, 2, 1, spec_split(400000, 2, 0)));
        let b2 = push_band(b1, 70, spec_with_max_repeats(h, 1, 2, spec_split(375000, 0, 1)));
        push_band(b2, 100, spec_with_max_repeats(h, 1, 0, spec_split(285700, 2, 1)))
    } else {
        push_band(seq![], 100, spec_with_max_repeats(h, 1, 4, spec_single(3)))
    }
}

/// The distribution of a monster's next intent; none means the intent stays.
pub open spec fn spec_intent_choice_distribution(state: CombatState, monster_index: int) -> Option<
    Seq<(u64, i32)>,
> {
    let monster = state.monsters@[monster_index];
    match monster.monster_id {
        MonsterId::Byrd => spec_final_distribution(spec_byrd_bands(monster)),
        _ => None,
    }
}

/// A distribution whose outcomes are listed once, with weights and total at most one.
pub open spec fn proper_distribution(entries: Seq<(u64, i32)>) -> bool {
    &&& unique_values(entries)
    &&& total_weight(entries) <= WEIGHT_ONE
    &&& forall|i: int| 0 <= i < entries.len() ==> #[trigger] entries[i].0 <= WEIGHT_ONE
}

/// The bands of a roll out of 100, as pairs of upper threshold and distribution.
pub open spec fn bands_view(bands: Seq<(i32, Distribution)>) -> Seq<(i32, Seq<(u64, i32)>)> {
    bands.map_values(|b: (i32, Distribution)| (b.0, b.1.0@))
}

/// Bands with rising thresholds within 1..=100, each a proper distribution.
pub open spec fn proper_bands(bands: Seq<(i32, Seq<(u64, i32)>)>) -> bool {
    &&& forall|k: int| #![trigger bands[k]] 0 <= k < bands.len() ==> 0 < bands[k].0 <= 100
    &&& forall|k: int| 0 < k < bands.len() ==> bands[k - 1].0 < #[trigger] bands[k].0
    &&& forall|k: int| #![trigger bands[k]] 0 <= k < bands.len() ==> proper_distribution(bands[k].1)
}

/// What a monster choosing its next intent can look at, plus the bands chosen so far.
pub struct IntentChoiceContext<'a> {
    pub state: &'a CombatState,
    pub monster_index: usize,
    pub ascension: i32,
    pub num_distribution: Vec<(i32, Distribution)>,
}

impl<'a> IntentChoiceContext<'a> {
    /// The bands of the roll added so far.
    pub open spec fn bands(&self) -> Seq<(i32, Seq<(u64, i32)>)> {
        bands_view(self.num_distribution@)
    }

    /// The context is about an existing monster and its bands are proper.
    pub open spec fn wf(&self) -> bool {
        &&& self.monster_index < self.state.monsters@.len()
        &&& proper_bands(self.bands())
    }

    /// The monster choosing.
    pub open spec fn spec_monster(&self) -> Monster {
        self.state.monsters@[self.monster_index as int]
    }

    /// Rolls below `threshold` (out of 100) not yet covered give `value`.
    pub fn if_num_lt(&mut self, threshold: i32, value: Distribution)
        requires
            old(self).wf(),
            0 < threshold <= 100,
            proper_distribution(value.0@),
        ensures
            final(self).wf(),
            final(self).state == old(self).state,
            final(self).monster_index == old(self).monster_index,
            final(self).ascension == old(self).ascension,
            final(self).bands() == push_band(old(self).bands(), threshold, value.0@),
    {
        let last = if self.num_distribution.len() == 0 {
            0
        } else {
            self.num_distribution[self.num_distribution.len() - 1].0
        };
        let ghost before = self.num_distribution@;
        if threshold > last {
            self.num_distribution.push((threshold, value));
            proof {
                assert(bands_view(self.num_distribution@) =~= bands_view(before).push((threshold, value.0@)));
            }
        }
    }

    /// Rolls of at most `threshold` give `value`.
    pub fn if_num_leq(&mut self, threshold: i32, value: Distribution)
        requires
            old(self).wf(),
            0 <= threshold < 100,
            proper_distribution(value.0@),
        ensures
            final(self).wf(),
            final(self).state == old(self).state,
            final(self).monster_index == old(self).monster_index,
            final(self).bands() == push_band(old(self).bands(), (threshold + 1) as i32, value.0@),
    {
        self.if_num_lt(threshold + 1, value);
    }

    /// Rolls of at least `threshold` give `value` (the band is counted from the top).
    pub fn if_num_geq(&mut self, threshold: i32, value: Distribution)
        requires
            old(self).wf(),
            0 <= threshold < 100,
            proper_distribution(value.0@),
        ensures
            final(self).wf(),
            final(self).state == old(self).state,
            final(self).monster_index == old(self).monster_index,
            final(self).bands() == push_band(old(self).bands(), (100 - threshold) as i32, value.0@),
    {
        self.if_num_lt(100 - threshold, value);
    }

    /// Every roll not yet covered gives `value`.
    pub fn else_num(&mut self, value: Distribution)
        requires
            old(self).wf(),
            proper_distribution(value.0@),
        ensures
            final(self).wf(),
            final(self).state == old(self).state,
            final(self).monster_index == old(self).monster_index,
            final(self).bands() == push_band(old(self).bands(), 100, value.0@),
    {
        self.if_num_lt(100, value);
    }

    /// Every roll gives `value` (unless bands were already added).
    pub fn always(&mut self, value: Distribution)
        requires
            old(self).wf(),
            proper_distribution(value.0@),
        ensures
            final(self).wf(),
            final(self).state == old(self).state,
            final(self).monster_index == old(self).monster_index,
            final(self).bands() == push_band(old(self).bands(), 100, value.0@),
    {
        self.if_num_lt(100, value);
    }

    /// Whether the monster has not moved yet.
    pub fn first_move(&self) -> (first: bool)
        requires
            self.wf(),
        ensures
            first == (self.spec_monster().move_history@.len() == 0),
    {
        self.state.monsters[self.monster_index].move_history.len() == 0
    }

    /// The monster's last intent, if it has moved.
    pub fn last_intent(&self) -> (intent: Option<IntentId>)
        requires
            self.wf(),
        ensures
            intent == (if self.spec_monster().move_history@.len() == 0 {
                None
            } else {
                Some(self.spec_monster().move_history@.last())
            }),
    {
        let history = &self.state.monsters[self.monster_index].move_history;
        if history.len() == 0 {
            None
        } else {
            Some(history[history.len() - 1])
        }
    }

    /// Whether the monster's last `repeats.0` moves were all `intent`.
    pub fn did_repeats(&self, repeats: Repeats, intent: IntentId) -> (did: bool)
        requires
            self.wf(),
        ensures
            did == spec_did_repeats(self.spec_monster().move_history@, repeats.0, intent),
    {
        let history = &self.state.monsters[self.monster_index].move_history;
        if history.len() < repeats.0 {
            return false;
        }
        let mut k: usize = history.len() - repeats.0;
        while k < history.len()
            invariant
                history@ == self.spec_monster().move_history@,
                history@.len() >= repeats.0,
                history@.len() - repeats.0 <= k <= history@.len(),
                forall|j: int| history@.len() - repeats.0 <= j < k ==> #[trigger] history@[j] == intent,
            decreases history@.len() - k,
        {
            if history[k] != intent {
                assert(!spec_did_repeats(history@, repeats.0, intent)) by {
                    assert(history@[k as int] != intent);
                }
                return false;
            }
            k = k + 1;
        }
        true
    }

    /// `intent`, unless the monster already did it `max_repeats.0` times in a row.
    pub fn with_max_repeats(&self, max_repeats: Repeats, intent: IntentId, alternative: Distribution) -> (d: Distribution)
        requires
            self.wf(),
        ensures
            d.0@ == spec_with_max_repeats(self.spec_monster().move_history@, max_repeats.0, intent, alternative.0@),
    {
        if self.did_repeats(max_repeats, intent) {
            alternative
        } else {
            Distribution::from_value(intent)
        }
    }

    /// `upgraded` from the given ascension level on, else `normal`.
    pub fn with_ascension(&self, threshold: Ascension, upgraded: i32, normal: i32) -> (value: i32)
        ensures
            value == (if self.ascension >= threshold.0 { upgraded } else { normal }),
    {
        if self.ascension >= threshold.0 {
            upgraded
        } else {
            normal
        }
    }

    /// The distribution the bands describe, or none when no band was added.
    pub fn final_distribution(self) -> (d: Option<Distribution>)
        requires
            self.wf(),
        ensures
            match d {
                Some(d) => spec_final_distribution(self.bands()) == Some(d.0@) && unique_values(d.0@),
                None => spec_final_distribution(self.bands()) is None,
            },
    {
        let bands = self.num_distribution;
        let ghost view = bands_view(bands@);
        if bands.len() == 0 {
            return None;
        }
        let mut result = Distribution::new();
        let mut start: i32 = 0;
        let mut k: usize = 0;
        while k < bands.len()
            invariant
                view == bands_view(bands@),
                proper_bands(view),
                k <= bands@.len(),
                start == band_start(view, k as int),
                result.0@ == combine_bands(view, k as int),
                unique_values(result.0@),
                total_weight(result.0@) <= k * WEIGHT_ONE,
                bands@.len() <= 100 || k <= 100,
            decreases bands@.len() - k,
        {
            let excluded = bands[k].0;
            let d = bands[k].1.duplicate();
            proof {
                assert(view.len() == bands@.len());
                assert(view[k as int] == (bands@[k as int].0, bands@[k as int].1.0@));
                assert(0 <= k < view.len());
                assert(proper_bands(view));
                let kk = k as int;
                assert(proper_distribution(view[kk].1));
                assert(0 < excluded <= 100);
                if k > 0 {
                    assert(view[k - 1].0 < view[k as int].0);
                }
                assert(start < excluded);
                lemma_bands_bound(view, k as int);
            }
            let scaled = d.scaled((excluded - start) as u64, 100);
            proof {
                lemma_scale_total(view[k as int].1, (excluded - start) as u64, 100);
            }
            result.add_assign(scaled);
            start = excluded;
            k = k + 1;
        }
        Some(result)
    }
}

/// A split between two outcomes is a proper distribution.
pub fn split_intents(probability: u64, then_value: IntentId, else_value: IntentId) -> (d: Distribution)
    requires
        probability <= WEIGHT_ONE,
    ensures
        d.0@ == spec_split(probability, then_value, else_value),
        proper_distribution(d.0@),
{
    let d = Distribution::split(
        probability,
        Distribution::from_value(then_value),
        Distribution::from_value(else_value),
    );
    proof {
        assert forall|i: int| 0 <= i < d.0@.len() implies #[trigger] d.0@[i].0 <= WEIGHT_ONE by {
            lemma_total_weight_nonneg_entry(d.0@, i);
        }
    }
    d
}

/// A certain outcome is a proper distribution.
proof fn lemma_single_proper(v: i32)
    ensures
        proper_distribution(spec_single(v)),
{
    let s = spec_single(v);
    assert(s.drop_last() =~= Seq::<(u64, i32)>::empty());
    assert(total_weight(s.drop_last()) == 0);
    assert(total_weight(s) == WEIGHT_ONE);
    assert(unique_values(s));
}

/// Adds the bands of a Byrd's next-intent roll.
fn byrd_intent_bands(context: &mut IntentChoiceContext)
    requires
        old(context).wf(),
        old(context).bands() == Seq::<(i32, Seq<(u64, i32)>)>::empty(),
        old(context).spec_monster().monster_id == MonsterId::Byrd,
    ensures
        final(context).wf(),
        final(context).bands() == spec_byrd_bands(old(context).spec_monster()),
        final(context).state == old(context).state,
        final(context).monster_index == old(context).monster_index,
{
    proof {
        lemma_single_proper(0);
        lemma_single_proper(1);
        lemma_single_proper(2);
        lemma_single_proper(4);
        lemma_single_proper(3);
    }
    let ghost monster = context.spec_monster();
    let index = context.monster_index;
    if context.first_move() {
        let d = split_intents(375000, ByrdIntent::Caw.id(), ByrdIntent::Peck.id());
        context.always(d);
    } else if context.state.monsters[index].creature.has_power(PowerId::Flight) {
        let d1 = context.with_max_repeats(
            Repeats(2),
            ByrdIntent::Peck.id(),
            split_intents(400000, ByrdIntent::Swoop.id(), ByrdIntent::Caw.id()),
        );
        context.if_num_lt(50, d1);
        let d2 = context.with_max_repeats(
            Repeats(1),
            ByrdIntent::Swoop.id(),
            split_intents(375000, ByrdIntent::Caw.id(), ByrdIntent::Peck.id()),
        );
        context.if_num_lt(70, d2);
        let d3 = context.with_max_repeats(
            Repeats(1),
            ByrdIntent::Caw.id(),
            split_intents(285700, ByrdIntent::Swoop.id(), ByrdIntent::Peck.id()),
        );
        context.else_num(d3);
    } else {
        let d = context.with_max_repeats(
            Repeats(1),
            ByrdIntent::Headbutt.id(),
            Distribution::from_value(ByrdIntent::Fly.id()),
        );
        context.always(d);
    }
}

/// The distribution of a monster's next intent; none means its intent stays as it is.
pub fn intent_choice_distribution(state: &CombatState, monster_index: usize) -> (d: Option<
    Distribution,
>)
    requires
        monster_index < state.monsters@.len(),
    ensures
        match d {
            Some(d) => spec_intent_choice_distribution(*state, monster_index as int) == Some(d.0@)
                && unique_values(d.0@),
            None => spec_intent_choice_distribution(*state, monster_index as int) is None,
        },
{
    let monster = &state.monsters[monster_index];
    let mut context = IntentChoiceContext {
        state,
        monster_index,
        ascension: monster.ascension,
        num_distribution: Vec::new(),
    };
    proof {
        assert(context.bands() =~= Seq::<(i32, Seq<(u64, i32)>)>::empty());
    }
    match monster.monster_id {
        MonsterId::Byrd => {
            byrd_intent_bands(&mut context);
            context.final_distribution()
        },
        _ => None,
    }
}

/// A monster's attack on the player for `base` damage, after all powers.
pub open spec fn spec_monster_attack(state: CombatState, monster_index: usize, base: i32) -> DynAction {
    let info = DamageInfoNoPowers {
        damage_type: DamageType::Normal,
        owner: Some(CreatureIndex::Monster(monster_index)),
        base,
    };
    DynAction::DamageAction(
        DamageAction {
            target: CreatureIndex::Player,
            info: DamageInfoAllPowers {
                damage_type: DamageType::Normal,
                owner: Some(CreatureIndex::Monster(monster_index)),
                base,
                output: spec_damage_output(
                    spec_target_amount(
                        state,
                        DamageType::Normal,
                        spec_owner_amount(state, info),
                        CreatureIndex::Player,
                    ),
                ),
            },
        },
    )
}

/// A monster applying a power to itself.
pub open spec fn spec_monster_power_self(monster_index: usize, power_id: PowerId, amount: i32) -> DynAction {
    DynAction::ApplyPowerAction(
        ApplyPowerAction {
            source: CreatureIndex::Monster(monster_index),
            target: CreatureIndex::Monster(monster_index),
            power_id,
            amount,
        },
    )
}

/// What a Byrd's current intent queues: Peck attacks 5 times for 1 (6 times from
/// ascension 2), Headbutt attacks for 3, Fly gains 3 Flight (4 from ascension 17),
/// Caw gains 1 Strength, Swoop attacks for 12 (14 from ascension 2), Stunned does nothing.
pub open spec fn spec_byrd_actions(state: CombatState, monster_index: usize) -> Seq<DynAction> {
    let m = state.monsters@[monster_index as int];
    let ascension = m.ascension;
    match spec_byrd_intent_from_id(m.move_history@.last()) {
        Some(ByrdIntent::Peck) => Seq::new(
            (if ascension >= 2 { 6nat } else { 5nat }),
            |k: int| spec_monster_attack(state, monster_index, 1),
        ),
        Some(ByrdIntent::Headbutt) => seq![spec_monster_attack(state, monster_index, 3)],
        Some(ByrdIntent::Fly) => seq![spec_monster_power_self(monster_index, PowerId::Flight, if ascension >= 17 { 4i32 } else { 3i32 })],
        Some(ByrdIntent::Caw) => seq![spec_monster_power_self(monster_index, PowerId::Strength, 1)],
        Some(ByrdIntent::Swoop) => seq![spec_monster_attack(state, monster_index, if ascension >= 2 { 14i32 } else { 12i32 })],
        _ => seq![],
    }
}

/// What a monster's current intent queues, for the species whose behaviour is known.
pub open spec fn spec_intent_actions(state: CombatState, monster_index: usize) -> Seq<DynAction> {
    match state.monsters@[monster_index as int].monster_id {
        MonsterId::Byrd => spec_byrd_actions(state, monster_index),
        _ => seq![],
    }
}

/// Whether a monster's current intent is one its species has.
pub open spec fn spec_intent_valid(monster: Monster) -> bool {
    &&& monster.move_history@.len() > 0
    &&& match monster.monster_id {
        MonsterId::Byrd => spec_byrd_intent_from_id(monster.move_history@.last()) is Some,
        _ => false,
    }
}

fn monster_attack_action(state: &CombatState, monster_index: usize, base: i32) -> (action: DynAction)
    requires
        state.wf(),
        monster_index < state.monsters@.len(),
    ensures
        action == spec_monster_attack(*state, monster_index, base),
{
    let info = DamageInfoNoPowers::new(
        Some(CreatureIndex::Monster(monster_index)),
        base,
        DamageType::Normal,
    );
    DynAction::DamageAction(
        DamageAction {
            target: CreatureIndex::Player,
            info: info.apply_all_powers(state, CreatureIndex::Player),
        },
    )
}

/// The actions a monster's current intent queues, in order.
pub fn intent_effect_actions(state: &CombatState, monster_index: usize) -> (actions: Vec<DynAction>)
    requires
        state.wf(),
        monster_index < state.monsters@.len(),
        spec_intent_valid(state.monsters@[monster_index as int]),
    ensures
        actions@ == spec_intent_actions(*state, monster_index),
{
    let monster = &state.monsters[monster_index];
    let mut a: Vec<DynAction> = Vec::new();
    let ascension = monster.ascension;
    match monster.monster_id {
        MonsterId::Byrd => {
            match ByrdIntent::from_id(monster.intent()) {
                Some(ByrdIntent::Peck) => {
                    let times: usize = if ascension >= 2 { 6 } else { 5 };
                    let mut k: usize = 0;
                    while k < times
                        invariant
                            k <= times,
                            state.wf(),
                            monster_index < state.monsters@.len(),
                            a@ == Seq::new(k as nat, |j: int| spec_monster_attack(*state, monster_index, 1)),
                        decreases times - k,
                    {
                        a.push(monster_attack_action(state, monster_index, 1));
                        k = k + 1;
                        assert(a@ =~= Seq::new(k as nat, |j: int| spec_monster_attack(*state, monster_index, 1)));
                    }
                },
                Some(ByrdIntent::Headbutt) => {
                    a.push(monster_attack_action(state, monster_index, 3));
                },
                Some(ByrdIntent::Fly) => {
                    let amount: i32 = if ascension >= 17 { 4 } else { 3 };
                    a.push(DynAction::ApplyPowerAction(ApplyPowerAction {
                        source: CreatureIndex::Monster(monster_index),
                        target: CreatureIndex::Monster(monster_index),
                        power_id: PowerId::Flight,
                        amount,
                    }));
                },
                Some(ByrdIntent::Caw) => {
                    a.push(DynAction::ApplyPowerAction(ApplyPowerAction {
                        source: CreatureIndex::Monster(monster_index),
                        target: CreatureIndex::Monster(monster_index),
                        power_id: PowerId::Strength,
                        amount: 1,
                    }));
                },
                Some(ByrdIntent::Swoop) => {
                    let base: i32 = if ascension >= 2 { 14 } else { 12 };
                    a.push(monster_attack_action(state, monster_index, base));
                },
                _ => {},
            }
        },
        _ => {},
    }
    proof {
        assert(a@ =~= spec_intent_actions(*state, monster_index));
    }
    a
}

proof fn lemma_bands_bound(bands: Seq<(i32, Seq<(u64, i32)>)>, k: int)
    requires
        proper_bands(bands),
        0 <= k < bands.len(),
    ensures
        k < 100,
    decreases k,
{
    if k > 0 {
        lemma_bands_bound(bands, k - 1);
        assert(bands[k - 1].0 < bands[k].0);
    }
    lemma_band_rises(bands, k);
}

proof fn lemma_band_rises(bands: Seq<(i32, Seq<(u64, i32)>)>, k: int)
    requires
        proper_bands(bands),
        0 <= k < bands.len(),
    ensures
        bands[k].0 > k,
    decreases k,
{
    if k > 0 {
        lemma_band_rises(bands, k - 1);
        assert(bands[k - 1].0 < bands[k].0);
    }
}


/// The summed damage of the damage actions in a list (sums wrap like `i32`).
pub open spec fn spec_attack_damage_total(actions: Seq<DynAction>) -> i32
    decreases actions.len(),
{
    if actions.len() == 0 {
        0
    } else {
        let previous = spec_attack_damage_total(actions.drop_last());
        match actions.last() {
            DynAction::DamageAction(a) => vstd::wrapping::i32_specs::wrapping_add(
                previous,
                a.info.output,
            ),
            _ => previous,
        }
    }
}

/// The damage the intents of the first `k` monsters would deal, over those still
/// present (sums wrap like `i32`).
pub open spec fn spec_intent_damage_up_to(state: CombatState, k: int) -> i32
    decreases k,
{
    if k <= 0 {
        0
    } else {
        let previous = spec_intent_damage_up_to(state, k - 1);
        if !state.monsters@[k - 1].gone {
            vstd::wrapping::i32_specs::wrapping_add(
                previous,
                spec_attack_damage_total(spec_intent_actions(state, (k - 1) as usize)),
            )
        } else {
            previous
        }
    }
}

/// Every monster still present shows an intent of its species.
pub open spec fn present_intents_valid(state: CombatState) -> bool {
    forall|i: int|
        0 <= i < state.monsters@.len() && !state.monsters@[i].gone ==> spec_intent_valid(
            #[trigger] state.monsters@[i],
        )
}

impl CombatState {
    /// The damage the intents of the monsters still present would deal.
    pub fn total_monster_attack_intent_damage(&self) -> (total: i32)
        requires
            self.wf(),
            present_intents_valid(*self),
        ensures
            total == spec_intent_damage_up_to(*self, self.monsters@.len() as int),
    {
        let mut total: i32 = 0;
        let mut i: usize = 0;
        while i < self.monsters.len()
            invariant
                i <= self.monsters@.len(),
                self.wf(),
                present_intents_valid(*self),
                total == spec_intent_damage_up_to(*self, i as int),
            decreases self.monsters@.len() - i,
        {
            if !self.monsters[i].gone {
                let actions = intent_effect_actions(self, i);
                let mut sum: i32 = 0;
                let mut k: usize = 0;
                while k < actions.len()
                    invariant
                        k <= actions@.len(),
                        sum == spec_attack_damage_total(actions@.subrange(0, k as int)),
                    decreases actions@.len() - k,
                {
                    assert(actions@.subrange(0, k + 1).drop_last() =~= actions@.subrange(0, k as int));
                    match actions[k] {
                        DynAction::DamageAction(a) => {
                            sum = sum.wrapping_add(a.info.output);
                        },
                        _ => {},
                    }
                    k = k + 1;
                }
                assert(actions@.subrange(0, actions@.len() as int) =~= actions@);
                total = total.wrapping_add(sum);
            }
            i = i + 1;
        }
        total
    }
}

} // verus!
