//! Power identities and the bookkeeping rules each power follows.
use vstd::prelude::*;
use crate::simulation::PowerType;
use crate::string_match::str_equals;

verus! {

/// Every power (and every relic modelled as a power) the simulator knows.
#[derive(Clone, Copy, PartialEq, Eq, PartialOrd, Ord, Hash, Debug, Structural)]
pub enum PowerId {
    Dexterity,
    Frail,
    Strength,
    Vulnerable,
    Weak,
    Thorns,
    Metallicize,
    NoDraw,
    PlatedArmor,
    InkBottle,
    BustedCrown,
    CoffeeDripper,
    CursedKey,
    Ectoplasm,
    FusionHammer,
    MarkOfPain,
    PhilosophersStone,
    RunicPyramid,
    SacredBark,
    Sozu,
    Necronomicon,
    PenNib,
    Combust,
    Corruption,
    Evolve,
    FeelNoPain,
    FireBreathing,
    FlameBarrier,
    Rage,
    Rupture,
    Barricade,
    Berserk,
    Brutality,
    DarkEmbrace,
    DemonForm,
    DoubleTap,
    Juggernaut,
    Ritual,
    CurlUp,
    Thievery,
    SporeCloud,
    Entangled,
    Angry,
    Split,
    Enrage,
    Artifact,
    SharpHide,
    ModeShift,
    ModeShiftDamageThreshold,
    Flight,
    Unknown,
}

/// Whether a power is a buff, a debuff or a relic.
pub open spec fn spec_power_type(id: PowerId) -> PowerType {
    match id {
        PowerId::Dexterity => PowerType::Buff,
        PowerId::Frail => PowerType::Debuff,
        PowerId::Strength => PowerType::Buff,
        PowerId::Vulnerable => PowerType::Debuff,
        PowerId::Weak => PowerType::Debuff,
        PowerId::Thorns => PowerType::Buff,
        PowerId::Metallicize => PowerType::Buff,
        PowerId::NoDraw => PowerType::Debuff,
        PowerId::PlatedArmor => PowerType::Buff,
        PowerId::InkBottle => PowerType::Relic,
        PowerId::BustedCrown => PowerType::Relic,
        PowerId::CoffeeDripper => PowerType::Relic,
        PowerId::CursedKey => PowerType::Relic,
        PowerId::Ectoplasm => PowerType::Relic,
        PowerId::FusionHammer => PowerType::Relic,
        PowerId::MarkOfPain => PowerType::Relic,
        PowerId::PhilosophersStone => PowerType::Relic,
        PowerId::RunicPyramid => PowerType::Relic,
        PowerId::SacredBark => PowerType::Relic,
        PowerId::Sozu => PowerType::Relic,
        PowerId::Necronomicon => PowerType::Relic,
        PowerId::PenNib => PowerType::Buff,
        PowerId::Combust => PowerType::Buff,
        PowerId::Corruption => PowerType::Buff,
        PowerId::Evolve => PowerType::Buff,
        PowerId::FeelNoPain => PowerType::Buff,
        PowerId::FireBreathing => PowerType::Buff,
        PowerId::FlameBarrier => PowerType::Buff,
        PowerId::Rage => PowerType::Buff,
        PowerId::Rupture => PowerType::Buff,
        PowerId::Barricade => PowerType::Buff,
        PowerId::Berserk => PowerType::Buff,
        PowerId::Brutality => PowerType::Buff,
        PowerId::DarkEmbrace => PowerType::Buff,
        PowerId::DemonForm => PowerType::Buff,
        PowerId::DoubleTap => PowerType::Buff,
        PowerId::Juggernaut => PowerType::Buff,
        PowerId::Ritual => PowerType::Buff,
        PowerId::CurlUp => PowerType::Buff,
        PowerId::Thievery => PowerType::Buff,
        PowerId::SporeCloud => PowerType::Buff,
        PowerId::Entangled => PowerType::Debuff,
        PowerId::Angry => PowerType::Buff,
        PowerId::Split => PowerType::Buff,
        PowerId::Enrage => PowerType::Buff,
        PowerId::Artifact => PowerType::Buff,
        PowerId::SharpHide => PowerType::Buff,
        PowerId::ModeShift => PowerType::Buff,
        PowerId::ModeShiftDamageThreshold => PowerType::Buff,
        PowerId::Flight => PowerType::Buff,
        PowerId::Unknown => PowerType::Buff,
    }
}

impl PowerId {
    /// Whether this power is a buff, a debuff or a relic.
    pub fn power_type(&self) -> (t: PowerType)
        ensures
            t == spec_power_type(*self),
    {
        match self {
            PowerId::Dexterity => PowerType::Buff,
            PowerId::Frail => PowerType::Debuff,
            PowerId::Strength => PowerType::Buff,
            PowerId::Vulnerable => PowerType::Debuff,
            PowerId::Weak => PowerType::Debuff,
            PowerId::Thorns => PowerType::Buff,
            PowerId::Metallicize => PowerType::Buff,
            PowerId::NoDraw => PowerType::Debuff,
            PowerId::PlatedArmor => PowerType::Buff,
            PowerId::InkBottle => PowerType::Relic,
            PowerId::BustedCrown => PowerType::Relic,
            PowerId::CoffeeDripper => PowerType::Relic,
            PowerId::CursedKey => PowerType::Relic,
            PowerId::Ectoplasm => PowerType::Relic,
            PowerId::FusionHammer => PowerType::Relic,
            PowerId::MarkOfPain => PowerType::Relic,
            PowerId::PhilosophersStone => PowerType::Relic,
            PowerId::RunicPyramid => PowerType::Relic,
            PowerId::SacredBark => PowerType::Relic,
            PowerId::Sozu => PowerType::Relic,
            PowerId::Necronomicon => PowerType::Relic,
            PowerId::PenNib => PowerType::Buff,
            PowerId::Combust => PowerType::Buff,
            PowerId::Corruption => PowerType::Buff,
            PowerId::Evolve => PowerType::Buff,
            PowerId::FeelNoPain => PowerType::Buff,
            PowerId::FireBreathing => PowerType::Buff,
            PowerId::FlameBarrier => PowerType::Buff,
            PowerId::Rage => PowerType::Buff,
            PowerId::Rupture => PowerType::Buff,
            PowerId::Barricade => PowerType::Buff,
            PowerId::Berserk => PowerType::Buff,
            PowerId::Brutality => PowerType::Buff,
            PowerId::DarkEmbrace => PowerType::Buff,
            PowerId::DemonForm => PowerType::Buff,
            PowerId::DoubleTap => PowerType::Buff,
            PowerId::Juggernaut => PowerType::Buff,
            PowerId::Ritual => PowerType::Buff,
            PowerId::CurlUp => PowerType::Buff,
            PowerId::Thievery => PowerType::Buff,
            PowerId::SporeCloud => PowerType::Buff,
            PowerId::Entangled => PowerType::Debuff,
            PowerId::Angry => PowerType::Buff,
            PowerId::Split => PowerType::Buff,
            PowerId::Enrage => PowerType::Buff,
            PowerId::Artifact => PowerType::Buff,
            PowerId::SharpHide => PowerType::Buff,
            PowerId::ModeShift => PowerType::Buff,
            PowerId::ModeShiftDamageThreshold => PowerType::Buff,
            PowerId::Flight => PowerType::Buff,
            PowerId::Unknown => PowerType::Buff,
        }
    }
}

/// The power named by a CommunicationMod power or relic id; unknown names read as `Unknown`.
pub open spec fn spec_power_id_from_str(s: Seq<char>) -> PowerId {
    if s == "Dexterity"@ {
        PowerId::Dexterity
    } else if s == "Frail"@ {
        PowerId::Frail
    } else if s == "Strength"@ {
        PowerId::Strength
    } else if s == "Vulnerable"@ {
        PowerId::Vulnerable
    } else if s == "Weakened"@ {
        PowerId::Weak
    } else if s == "Thorns"@ {
        PowerId::Thorns
    } else if s == "Metallicize"@ {
        PowerId::Metallicize
    } else if s == "No Draw"@ {
        PowerId::NoDraw
    } else if s == "Plated Armor"@ {
        PowerId::PlatedArmor
    } else if s == "InkBottle"@ {
        PowerId::InkBottle
    } else if s == "Busted Crown"@ {
        PowerId::BustedCrown
    } else if s == "Coffee Dripper"@ {
        PowerId::CoffeeDripper
    } else if s == "Cursed Key"@ {
        PowerId::CursedKey
    } else if s == "Ectoplasm"@ {
        PowerId::Ectoplasm
    } else if s == "Fusion Hammer"@ {
        PowerId::FusionHammer
    } else if s == "Mark of Pain"@ {
        PowerId::MarkOfPain
    } else if s == "Philosopher's Stone"@ {
        PowerId::PhilosophersStone
    } else if s == "Runic Pyramid"@ {
        PowerId::RunicPyramid
    } else if s == "SacredBark"@ {
        PowerId::SacredBark
    } else if s == "Sozu"@ {
        PowerId::Sozu
    } else if s == "Necronomicon"@ {
        PowerId::Necronomicon
    } else if s == "Pen Nib"@ {
        PowerId::PenNib
    } else if s == "Combust"@ {
        PowerId::Combust
    } else if s == "Corruption"@ {
        PowerId::Corruption
    } else if s == "Evolve"@ {
        PowerId::Evolve
    } else if s == "Feel No Pain"@ {
        PowerId::FeelNoPain
    } else if s == "Fire Breathing"@ {
        PowerId::FireBreathing
    } else if s == "Flame Barrier"@ {
        PowerId::FlameBarrier
    } else if s == "Rage"@ {
        PowerId::Rage
    } else if s == "Rupture"@ {
        PowerId::Rupture
    } else if s == "Barricade"@ {
        PowerId::Barricade
    } else if s == "Berserk"@ {
        PowerId::Berserk
    } else if s == "Brutality"@ {
        PowerId::Brutality
    } else if s == "Dark Embrace"@ {
        PowerId::DarkEmbrace
    } else if s == "Demon Form"@ {
        PowerId::DemonForm
    } else if s == "Double Tap"@ {
        PowerId::DoubleTap
    } else if s == "Juggernaut"@ {
        PowerId::Juggernaut
    } else if s == "Ritual"@ {
        PowerId::Ritual
    } else if s == "Curl Up"@ {
        PowerId::CurlUp
    } else if s == "Thievery"@ {
        PowerId::Thievery
    } else if s == "Spore Cloud"@ {
        PowerId::SporeCloud
    } else if s == "Entangled"@ {
        PowerId::Entangled
    } else if s == "Angry"@ {
        PowerId::Angry
    } else if s == "Split"@ {
        PowerId::Split
    } else if s == "Anger"@ {
        PowerId::Enrage
    } else if s == "Artifact"@ {
        PowerId::Artifact
    } else if s == "Sharp Hide"@ {
        PowerId::SharpHide
    } else if s == "Mode Shift"@ {
        PowerId::ModeShift
    } else if s == "Mode Shift Damage Threshold (not a real power)"@ {
        PowerId::ModeShiftDamageThreshold
    } else if s == "Flight"@ {
        PowerId::Flight
    } else if s == "Unknown"@ {
        PowerId::Unknown
    } else {
        PowerId::Unknown
    }
}

/// Reads a CommunicationMod power or relic id.
pub fn power_id_from_str(s: &str) -> (id: PowerId)
    ensures
        id == spec_power_id_from_str(s@),
{
    if str_equals(s, "Dexterity") {
        PowerId::Dexterity
    } else if str_equals(s, "Frail") {
        PowerId::Frail
    } else if str_equals(s, "Strength") {
        PowerId::Strength
    } else if str_equals(s, "Vulnerable") {
        PowerId::Vulnerable
    } else if str_equals(s, "Weakened") {
        PowerId::Weak
    } else if str_equals(s, "Thorns") {
        PowerId::Thorns
    } else if str_equals(s, "Metallicize") {
        PowerId::Metallicize
    } else if str_equals(s, "No Draw") {
        PowerId::NoDraw
    } else if str_equals(s, "Plated Armor") {
        PowerId::PlatedArmor
    } else if str_equals(s, "InkBottle") {
        PowerId::InkBottle
    } else if str_equals(s, "Busted Crown") {
        PowerId::BustedCrown
    } else if str_equals(s, "Coffee Dripper") {
        PowerId::CoffeeDripper
    } else if str_equals(s, "Cursed Key") {
        PowerId::CursedKey
    } else if str_equals(s, "Ectoplasm") {
        PowerId::Ectoplasm
    } else if str_equals(s, "Fusion Hammer") {
        PowerId::FusionHammer
    } else if str_equals(s, "Mark of Pain") {
        PowerId::MarkOfPain
    } else if str_equals(s, "Philosopher's Stone") {
        PowerId::PhilosophersStone
    } else if str_equals(s, "Runic Pyramid") {
        PowerId::RunicPyramid
    } else if str_equals(s, "SacredBark") {
        PowerId::SacredBark
    } else if str_equals(s, "Sozu") {
        PowerId::Sozu
    } else if str_equals(s, "Necronomicon") {
        PowerId::Necronomicon
    } else if str_equals(s, "Pen Nib") {
        PowerId::PenNib
    } else if str_equals(s, "Combust") {
        PowerId::Combust
    } else if str_equals(s, "Corruption") {
        PowerId::Corruption
    } else if str_equals(s, "Evolve") {
        PowerId::Evolve
    } else if str_equals(s, "Feel No Pain") {
        PowerId::FeelNoPain
    } else if str_equals(s, "Fire Breathing") {
        PowerId::FireBreathing
    } else if str_equals(s, "Flame Barrier") {
        PowerId::FlameBarrier
    } else if str_equals(s, "Rage") {
        PowerId::Rage
    } else if str_equals(s, "Rupture") {
        PowerId::Rupture
    } else if str_equals(s, "Barricade") {
        PowerId::Barricade
    } else if str_equals(s, "Berserk") {
        PowerId::Berserk
    } else if str_equals(s, "Brutality") {
        PowerId::Brutality
    } else if str_equals(s, "Dark Embrace") {
        PowerId::DarkEmbrace
    } else if str_equals(s, "Demon Form") {
        PowerId::DemonForm
    } else if str_equals(s, "Double Tap") {
        PowerId::DoubleTap
    } else if str_equals(s, "Juggernaut") {
        PowerId::Juggernaut
    } else if str_equals(s, "Ritual") {
        PowerId::Ritual
    } else if str_equals(s, "Curl Up") {
        PowerId::CurlUp
    } else if str_equals(s, "Thievery") {
        PowerId::Thievery
    } else if str_equals(s, "Spore Cloud") {
        PowerId::SporeCloud
    } else if str_equals(s, "Entangled") {
        PowerId::Entangled
    } else if str_equals(s, "Angry") {
        PowerId::Angry
    } else if str_equals(s, "Split") {
        PowerId::Split
    } else if str_equals(s, "Anger") {
        PowerId::Enrage
    } else if str_equals(s, "Artifact") {
        PowerId::Artifact
    } else if str_equals(s, "Sharp Hide") {
        PowerId::SharpHide
    } else if str_equals(s, "Mode Shift") {
        PowerId::ModeShift
    } else if str_equals(s, "Mode Shift Damage Threshold (not a real power)") {
        PowerId::ModeShiftDamageThreshold
    } else if str_equals(s, "Flight") {
        PowerId::Flight
    } else if str_equals(s, "Unknown") {
        PowerId::Unknown
    } else {
        PowerId::Unknown
    }
}

} // verus!

verus! {

use crate::simulation::{Amount, DamageType};
use vstd::wrapping::i32_specs;
use crate::simulation_state::Power;

/// Powers sit on a creature in ascending order of this number.
pub open spec fn spec_priority(id: PowerId) -> i32 {
    match id {
        PowerId::Frail => 10,
        PowerId::Weak => 99,
        PowerId::PenNib => 6,
        _ => 5,
    }
}

/// Energy a power (a boss relic) adds to the player's energy each turn.
pub open spec fn spec_inherent_energy(id: PowerId) -> i32 {
    match id {
        PowerId::BustedCrown | PowerId::CoffeeDripper | PowerId::CursedKey | PowerId::Ectoplasm
        | PowerId::FusionHammer | PowerId::MarkOfPain | PowerId::PhilosophersStone
        | PowerId::Sozu => 1,
        _ => 0,
    }
}

/// Strength and Dexterity never leave the range -999..=999 when they stack.
pub open spec fn clamp_999(x: i32) -> i32 {
    if x > 999 {
        999
    } else if x < -999 {
        -999i32
    } else {
        x
    }
}

/// The amount of a power after `stack_amount` more is applied to it.
/// Amounts add up with two's-complement wrapping; an amount of -1 marks a power
/// that does not stack, except for Strength and Dexterity, which are clamped.
pub open spec fn spec_stacked_amount(id: PowerId, amount: i32, stack_amount: i32) -> i32 {
    match id {
        PowerId::Strength | PowerId::Dexterity => clamp_999(i32_specs::wrapping_add(amount, stack_amount)),
        _ => if amount == -1 {
            amount
        } else {
            i32_specs::wrapping_add(amount, stack_amount)
        },
    }
}

/// The amount of a power after it is reduced by `reduce_amount`: never below 0,
/// except for Strength and Dexterity, which stack the negated amount.
pub open spec fn spec_reduced_amount(id: PowerId, amount: i32, reduce_amount: i32) -> i32 {
    match id {
        PowerId::Strength | PowerId::Dexterity => spec_stacked_amount(
            id,
            amount,
            i32_specs::wrapping_sub(0, reduce_amount),
        ),
        _ => {
            let r = i32_specs::wrapping_sub(amount, reduce_amount);
            if r < 0 {
                0
            } else {
                r
            }
        },
    }
}

impl PowerId {
    /// The place of this power among a creature's powers: lower sits earlier.
    pub fn priority(&self) -> (p: i32)
        ensures
            p == spec_priority(*self),
    {
        match self {
            PowerId::Frail => 10,
            PowerId::Weak => 99,
            PowerId::PenNib => 6,
            _ => 5,
        }
    }

    /// Extra energy the player gains each turn from this power.
    pub fn inherent_energy(&self) -> (e: i32)
        ensures
            e == spec_inherent_energy(*self),
    {
        match self {
            PowerId::BustedCrown | PowerId::CoffeeDripper | PowerId::CursedKey
            | PowerId::Ectoplasm | PowerId::FusionHammer | PowerId::MarkOfPain
            | PowerId::PhilosophersStone | PowerId::Sozu => 1,
            _ => 0,
        }
    }

    /// Adds `stack_amount` to a power of this kind.
    pub fn stack_power(&self, power: &mut Power, stack_amount: i32)
        ensures
            *final(power) == (Power {
                amount: spec_stacked_amount(*self, old(power).amount, stack_amount),
                ..*old(power)
            }),
    {
        match self {
            PowerId::Strength | PowerId::Dexterity => {
                let mut amount = power.amount.wrapping_add(stack_amount);
                if amount > 999 {
                    amount = 999;
                }
                if amount < -999 {
                    amount = -999;
                }
                power.amount = amount;
            },
            _ => {
                if power.amount == -1 {
                    return ;
                }
                power.amount = power.amount.wrapping_add(stack_amount);
            },
        }
    }

    /// Takes `reduce_amount` off a power of this kind.
    pub fn reduce_power(&self, power: &mut Power, reduce_amount: i32)
        ensures
            *final(power) == (Power {
                amount: spec_reduced_amount(*self, old(power).amount, reduce_amount),
                ..*old(power)
            }),
    {
        match self {
            PowerId::Strength | PowerId::Dexterity => {
                self.stack_power(power, 0i32.wrapping_sub(reduce_amount));
            },
            _ => {
                let r = power.amount.wrapping_sub(reduce_amount);
                power.amount = if r < 0 {
                    0
                } else {
                    r
                };
            },
        }
    }
}

/// The hooks through which powers adjust a number.
#[derive(Clone, Copy, PartialEq, Eq, Debug, Structural)]
pub enum NumericHook {
    /// Damage dealt by the power's owner.
    DamageGive,
    /// Damage taken by the power's owner.
    DamageReceive,
    /// Damage taken by the power's owner, after every `DamageReceive` hook.
    DamageFinalReceive,
    /// Block gained by the power's owner.
    ModifyBlock,
}

/// What one power does to an exact amount `(numerator, denominator)`:
/// Strength and Dexterity add their amount, Weak and Frail take a quarter off,
/// Pen Nib doubles, Vulnerable adds half and Flight halves.
/// Damage hooks only touch damage of type `Normal`.
pub open spec fn spec_hook_step(hook: NumericHook, power: Power, damage_type: DamageType, a: (
    int,
    int,
)) -> (int, int) {
    let n = a.0;
    let d = a.1;
    match hook {
        NumericHook::ModifyBlock => match power.power_id {
            PowerId::Dexterity => (n + power.amount * d, d),
            PowerId::Frail => (n * 3, d * 4),
            _ => a,
        },
        _ => if damage_type != DamageType::Normal {
            a
        } else {
            match (hook, power.power_id) {
                (NumericHook::DamageGive, PowerId::Strength) => (n + power.amount * d, d),
                (NumericHook::DamageGive, PowerId::Weak) => (n * 3, d * 4),
                (NumericHook::DamageGive, PowerId::PenNib) => (n * 2, d),
                (NumericHook::DamageReceive, PowerId::Vulnerable) => (n * 3, d * 2),
                (NumericHook::DamageFinalReceive, PowerId::Flight) => (n, d * 2),
                _ => a,
            }
        },
    }
}

/// An amount after every power of a creature, in order, has applied one hook to it.
pub open spec fn spec_hook_fold(
    hook: NumericHook,
    powers: Seq<Power>,
    damage_type: DamageType,
    a: (int, int),
) -> (int, int)
    decreases powers.len(),
{
    if powers.len() == 0 {
        a
    } else {
        spec_hook_step(
            hook,
            powers.last(),
            damage_type,
            spec_hook_fold(hook, powers.drop_last(), damage_type, a),
        )
    }
}

/// No two powers of a creature share an id.
pub open spec fn unique_power_ids(powers: Seq<Power>) -> bool {
    forall|i: int, j: int|
        0 <= i < j < powers.len() ==> #[trigger] powers[i].power_id != #[trigger] powers[j].power_id
}

/// Whether one of the first `i` powers has the given id.
pub open spec fn seen_power(powers: Seq<Power>, i: int, id: PowerId) -> bool {
    exists|j: int| 0 <= j < i && #[trigger] powers[j].power_id == id
}

/// `x` when `b` holds, else 1.
pub open spec fn factor_if(b: bool, x: int) -> int {
    if b {
        x
    } else {
        1
    }
}

/// 2^31 when `b` holds, else 0.
pub open spec fn addend_if(b: bool) -> int {
    if b {
        0x8000_0000
    } else {
        0
    }
}

/// Start amounts of the hooks stay within this many units in absolute value.
pub open spec fn hook_input_bound() -> int {
    0x100_0000_0000
}

/// After `i` powers the amount's value is within this bound.
pub open spec fn value_bound(powers: Seq<Power>, i: int, b0: int) -> int {
    (b0 + addend_if(seen_power(powers, i, PowerId::Strength)) + addend_if(
        seen_power(powers, i, PowerId::Dexterity),
    )) * factor_if(seen_power(powers, i, PowerId::PenNib), 2) * factor_if(
        seen_power(powers, i, PowerId::Vulnerable),
        2,
    )
}

/// After `i` powers the denominator is at most `d0` times this.
pub open spec fn denominator_growth(powers: Seq<Power>, i: int) -> int {
    factor_if(seen_power(powers, i, PowerId::Weak), 4) * factor_if(
        seen_power(powers, i, PowerId::Frail),
        4,
    ) * factor_if(seen_power(powers, i, PowerId::Vulnerable), 2) * factor_if(
        seen_power(powers, i, PowerId::Flight),
        2,
    )
}

/// `|n| <= b * d`.
pub open spec fn within(n: int, d: int, b: int) -> bool {
    -(b * d) <= n <= b * d
}

/// A looser bound still holds.
pub proof fn lemma_within_weaken(n: int, d: int, b1: int, b2: int)
    requires
        within(n, d, b1),
        b1 <= b2,
        d >= 1,
    ensures
        within(n, d, b2),
{
    assert(b1 * d <= b2 * d) by (nonlinear_arith)
        requires
            b1 <= b2,
            d >= 1,
    ;
}

proof fn lemma_value_bound_facts(powers: Seq<Power>, i: int, b0: int)
    requires
        0 <= b0,
    ensures
        b0 <= value_bound(powers, i, b0) <= (b0 + 0x1_0000_0000) * 4,
        1 <= denominator_growth(powers, i) <= 64,
{
    let b = b0 + addend_if(seen_power(powers, i, PowerId::Strength)) + addend_if(
        seen_power(powers, i, PowerId::Dexterity),
    );
    let f1 = factor_if(seen_power(powers, i, PowerId::PenNib), 2);
    let f2 = factor_if(seen_power(powers, i, PowerId::Vulnerable), 2);
    assert(b0 <= b <= b0 + 0x1_0000_0000);
    assert(1 <= f1 <= 2 && 1 <= f2 <= 2);
    assert(b <= b * f1 <= b * 2) by (nonlinear_arith)
        requires
            1 <= f1 <= 2,
            b >= 0,
    ;
    assert(b * f1 <= b * f1 * f2 <= b * f1 * 2) by (nonlinear_arith)
        requires
            1 <= f2 <= 2,
            b * f1 >= 0,
    ;
    let g1 = factor_if(seen_power(powers, i, PowerId::Weak), 4);
    let g2 = factor_if(seen_power(powers, i, PowerId::Frail), 4);
    let g3 = factor_if(seen_power(powers, i, PowerId::Vulnerable), 2);
    let g4 = factor_if(seen_power(powers, i, PowerId::Flight), 2);
    assert(1 <= g1 * g2 * g3 * g4 <= 64) by (nonlinear_arith)
        requires
            1 <= g1 <= 4,
            1 <= g2 <= 4,
            1 <= g3 <= 2,
            1 <= g4 <= 2,
    ;
}

proof fn lemma_bounds_step(powers: Seq<Power>, i: int, b0: int)
    requires
        0 <= b0,
        0 <= i < powers.len(),
        !seen_power(powers, i, powers[i].power_id),
        forall|id: PowerId| #[trigger] seen_power(powers, i + 1, id) == (seen_power(powers, i, id) || powers[i].power_id == id),
    ensures
        (powers[i].power_id == PowerId::Strength || powers[i].power_id == PowerId::Dexterity) ==> value_bound(powers, i + 1, b0) >= value_bound(powers, i, b0) + 0x8000_0000,
        (powers[i].power_id == PowerId::PenNib || powers[i].power_id == PowerId::Vulnerable) ==> value_bound(powers, i + 1, b0) == value_bound(powers, i, b0) * 2,
        (powers[i].power_id == PowerId::Weak || powers[i].power_id == PowerId::Frail) ==> denominator_growth(powers, i + 1) == denominator_growth(powers, i) * 4,
        (powers[i].power_id == PowerId::Vulnerable || powers[i].power_id == PowerId::Flight) ==> denominator_growth(powers, i + 1) == denominator_growth(powers, i) * 2,
{
    let id = powers[i].power_id;
    let a0 = b0 + addend_if(seen_power(powers, i, PowerId::Strength)) + addend_if(seen_power(powers, i, PowerId::Dexterity));
    let a1 = b0 + addend_if(seen_power(powers, i + 1, PowerId::Strength)) + addend_if(seen_power(powers, i + 1, PowerId::Dexterity));
    let p0 = factor_if(seen_power(powers, i, PowerId::PenNib), 2);
    let p1 = factor_if(seen_power(powers, i + 1, PowerId::PenNib), 2);
    let v0 = factor_if(seen_power(powers, i, PowerId::Vulnerable), 2);
    let v1 = factor_if(seen_power(powers, i + 1, PowerId::Vulnerable), 2);
    let w0 = factor_if(seen_power(powers, i, PowerId::Weak), 4);
    let w1 = factor_if(seen_power(powers, i + 1, PowerId::Weak), 4);
    let f0 = factor_if(seen_power(powers, i, PowerId::Frail), 4);
    let f1 = factor_if(seen_power(powers, i + 1, PowerId::Frail), 4);
    let l0 = factor_if(seen_power(powers, i, PowerId::Flight), 2);
    let l1 = factor_if(seen_power(powers, i + 1, PowerId::Flight), 2);
    assert(seen_power(powers, i + 1, PowerId::Strength) == (seen_power(powers, i, PowerId::Strength) || id == PowerId::Strength));
    assert(seen_power(powers, i + 1, PowerId::Dexterity) == (seen_power(powers, i, PowerId::Dexterity) || id == PowerId::Dexterity));
    assert(seen_power(powers, i + 1, PowerId::PenNib) == (seen_power(powers, i, PowerId::PenNib) || id == PowerId::PenNib));
    assert(seen_power(powers, i + 1, PowerId::Vulnerable) == (seen_power(powers, i, PowerId::Vulnerable) || id == PowerId::Vulnerable));
    assert(seen_power(powers, i + 1, PowerId::Weak) == (seen_power(powers, i, PowerId::Weak) || id == PowerId::Weak));
    assert(seen_power(powers, i + 1, PowerId::Frail) == (seen_power(powers, i, PowerId::Frail) || id == PowerId::Frail));
    assert(seen_power(powers, i + 1, PowerId::Flight) == (seen_power(powers, i, PowerId::Flight) || id == PowerId::Flight));
    if id == PowerId::Strength || id == PowerId::Dexterity {
        assert(a1 == a0 + 0x8000_0000);
        assert(p1 == p0 && v1 == v0);
        assert(a1 * p1 * v1 >= a0 * p0 * v0 + 0x8000_0000) by (nonlinear_arith)
            requires
                a1 == a0 + 0x8000_0000,
                a0 >= 0,
                p1 == p0,
                v1 == v0,
                1 <= p0,
                1 <= v0,
        ;
    }
    if id == PowerId::PenNib {
        assert(a1 == a0 && p1 == 2 && p0 == 1 && v1 == v0);
        assert(a1 * p1 * v1 == (a0 * p0 * v0) * 2) by (nonlinear_arith)
            requires
                a1 == a0,
                p1 == 2,
                p0 == 1,
                v1 == v0,
        ;
    }
    if id == PowerId::Vulnerable {
        assert(a1 == a0 && p1 == p0 && v1 == 2 && v0 == 1);
        assert(a1 * p1 * v1 == (a0 * p0 * v0) * 2) by (nonlinear_arith)
            requires
                a1 == a0,
                p1 == p0,
                v1 == 2,
                v0 == 1,
        ;
        assert(w1 == w0 && f1 == f0 && l1 == l0);
        assert(w1 * f1 * v1 * l1 == (w0 * f0 * v0 * l0) * 2) by (nonlinear_arith)
            requires
                w1 == w0,
                f1 == f0,
                l1 == l0,
                v1 == 2,
                v0 == 1,
        ;
    }
    if id == PowerId::Weak {
        assert(w1 == 4 && w0 == 1 && f1 == f0 && v1 == v0 && l1 == l0);
        assert(w1 * f1 * v1 * l1 == (w0 * f0 * v0 * l0) * 4) by (nonlinear_arith)
            requires
                w1 == 4,
                w0 == 1,
                f1 == f0,
                v1 == v0,
                l1 == l0,
        ;
    }
    if id == PowerId::Frail {
        assert(f1 == 4 && f0 == 1 && w1 == w0 && v1 == v0 && l1 == l0);
        assert(w1 * f1 * v1 * l1 == (w0 * f0 * v0 * l0) * 4) by (nonlinear_arith)
            requires
                f1 == 4,
                f0 == 1,
                w1 == w0,
                v1 == v0,
                l1 == l0,
        ;
    }
    if id == PowerId::Flight {
        assert(l1 == 2 && l0 == 1 && w1 == w0 && v1 == v0 && f1 == f0);
        assert(w1 * f1 * v1 * l1 == (w0 * f0 * v0 * l0) * 2) by (nonlinear_arith)
            requires
                l1 == 2,
                l0 == 1,
                w1 == w0,
                v1 == v0,
                f1 == f0,
        ;
    }
}

proof fn lemma_bounds_grow(powers: Seq<Power>, i: int, b0: int)
    requires
        0 <= b0,
        forall|id: PowerId| #[trigger] seen_power(powers, i, id) ==> seen_power(powers, i + 1, id),
    ensures
        value_bound(powers, i, b0) <= value_bound(powers, i + 1, b0),
        denominator_growth(powers, i) <= denominator_growth(powers, i + 1),
{
    let s0 = seen_power(powers, i, PowerId::Strength);
    let s1 = seen_power(powers, i + 1, PowerId::Strength);
    let x0 = seen_power(powers, i, PowerId::Dexterity);
    let x1 = seen_power(powers, i + 1, PowerId::Dexterity);
    let p0 = factor_if(seen_power(powers, i, PowerId::PenNib), 2);
    let p1 = factor_if(seen_power(powers, i + 1, PowerId::PenNib), 2);
    let v0 = factor_if(seen_power(powers, i, PowerId::Vulnerable), 2);
    let v1 = factor_if(seen_power(powers, i + 1, PowerId::Vulnerable), 2);
    let a0 = b0 + addend_if(s0) + addend_if(x0);
    let a1 = b0 + addend_if(s1) + addend_if(x1);
    assert(s0 ==> s1);
    assert(x0 ==> x1);
    assert(a0 <= a1);
    assert(a0 * p0 * v0 <= a1 * p1 * v1) by (nonlinear_arith)
        requires
            0 <= a0 <= a1,
            1 <= p0 <= p1,
            1 <= v0 <= v1,
    ;
    let w0 = factor_if(seen_power(powers, i, PowerId::Weak), 4);
    let w1 = factor_if(seen_power(powers, i + 1, PowerId::Weak), 4);
    let f0 = factor_if(seen_power(powers, i, PowerId::Frail), 4);
    let f1 = factor_if(seen_power(powers, i + 1, PowerId::Frail), 4);
    let l0 = factor_if(seen_power(powers, i, PowerId::Flight), 2);
    let l1 = factor_if(seen_power(powers, i + 1, PowerId::Flight), 2);
    assert(w0 * f0 * v0 * l0 <= w1 * f1 * v1 * l1) by (nonlinear_arith)
        requires
            1 <= w0 <= w1,
            1 <= f0 <= f1,
            1 <= v0 <= v1,
            1 <= l0 <= l1,
    ;
}

/// Runs one hook of every power in `powers`, in order, over an exact amount.
pub fn apply_numeric_hooks(
    hook: NumericHook,
    powers: &Vec<Power>,
    damage_type: DamageType,
    start: Amount,
) -> (result: Amount)
    requires
        unique_power_ids(powers@),
        1 <= start.denominator <= 0x10_0000,
        within(start.numerator as int, start.denominator as int, hook_input_bound()),
    ensures
        result.pair() == spec_hook_fold(hook, powers@, damage_type, start.pair()),
        1 <= result.denominator <= 64 * start.denominator,
        within(
            result.numerator as int,
            result.denominator as int,
            (hook_input_bound() + 0x1_0000_0000) * 4,
        ),
{
    apply_numeric_hooks_bounded(hook, powers, damage_type, start, Ghost(hook_input_bound()))
}

/// `apply_numeric_hooks` for a start amount known to lie within `b0`:
/// the result then lies within `(b0 + 2^32) * 4`.
pub(crate) fn apply_numeric_hooks_bounded(
    hook: NumericHook,
    powers: &Vec<Power>,
    damage_type: DamageType,
    start: Amount,
    Ghost(b0): Ghost<int>,
) -> (result: Amount)
    requires
        unique_power_ids(powers@),
        1 <= start.denominator <= 0x10_0000,
        0 <= b0 <= hook_input_bound(),
        within(start.numerator as int, start.denominator as int, b0),
    ensures
        result.pair() == spec_hook_fold(hook, powers@, damage_type, start.pair()),
        1 <= result.denominator <= 64 * start.denominator,
        within(result.numerator as int, result.denominator as int, (b0 + 0x1_0000_0000) * 4),
{
    let mut n = start.numerator;
    let mut d = start.denominator;
    let ghost d0 = start.denominator as int;
    let mut i: usize = 0;
    proof {
        assert(powers@.subrange(0, 0) =~= Seq::<Power>::empty());
        assert(!seen_power(powers@, 0, PowerId::Weak));
        assert(!seen_power(powers@, 0, PowerId::Frail));
        assert(!seen_power(powers@, 0, PowerId::Vulnerable));
        assert(!seen_power(powers@, 0, PowerId::Flight));
        assert(!seen_power(powers@, 0, PowerId::Strength));
        assert(!seen_power(powers@, 0, PowerId::Dexterity));
        assert(!seen_power(powers@, 0, PowerId::PenNib));
        assert(value_bound(powers@, 0, b0) == b0);
        assert(denominator_growth(powers@, 0) == 1);
    }
    while i < powers.len()
        invariant
            unique_power_ids(powers@),
            i <= powers.len(),
            (n as int, d as int) == spec_hook_fold(
                hook,
                powers@.subrange(0, i as int),
                damage_type,
                start.pair(),
            ),
            1 <= d <= d0 * denominator_growth(powers@, i as int),
            within(n as int, d as int, value_bound(powers@, i as int, b0)),
            1 <= d0 <= 0x10_0000,
            0 <= b0 <= hook_input_bound(),
        decreases powers.len() - i,
    {
        let p = powers[i];
        let ghost ps = powers@;
        let ghost ii = i as int;
        proof {
            lemma_value_bound_facts(ps, ii, b0);
            lemma_value_bound_facts(ps, ii + 1, b0);
            assert(ps.subrange(0, ii + 1).drop_last() =~= ps.subrange(0, ii));
            assert(ps.subrange(0, ii + 1).last() == p);
            assert forall|id: PowerId| #[trigger] seen_power(ps, ii + 1, id) == (seen_power(ps, ii, id) || p.power_id == id) by {
                if seen_power(ps, ii + 1, id) && !(p.power_id == id) {
                    let j = choose|j: int| 0 <= j < ii + 1 && #[trigger] ps[j].power_id == id;
                    assert(j < ii);
                }
                if p.power_id == id {
                    assert(ps[ii].power_id == id);
                }
            }
            assert(!seen_power(ps, ii, p.power_id)) by {
                if seen_power(ps, ii, p.power_id) {
                    let j = choose|j: int| 0 <= j < ii && #[trigger] ps[j].power_id == p.power_id;
                    assert(ps[j].power_id != ps[ii].power_id);
                }
            }
            assert(d as int <= d0 * denominator_growth(ps, ii));
            assert(d0 * denominator_growth(ps, ii) <= 0x10_0000 * 64) by (nonlinear_arith)
                requires
                    1 <= d0 <= 0x10_0000,
                    1 <= denominator_growth(ps, ii) <= 64,
            ;
            lemma_bounds_grow(ps, ii, b0);
            lemma_bounds_step(ps, ii, b0);
            assert(d <= 0x400_0000);
            assert(d0 * denominator_growth(ps, ii) <= d0 * denominator_growth(ps, ii + 1))
                by (nonlinear_arith)
                requires
                    d0 >= 1,
                    denominator_growth(ps, ii) <= denominator_growth(ps, ii + 1),
            ;
            assert(value_bound(ps, ii, b0) * (d as int) <= 0x800_0000_0000 * 0x400_0000) by (nonlinear_arith)
                requires
                    0 <= value_bound(ps, ii, b0) <= 0x800_0000_0000,
                    1 <= d <= 0x400_0000,
            ;
            assert(-0x20_0000_0000_0000_0000 <= n <= 0x20_0000_0000_0000_0000);
            assert(-0x200_0000_0000_0000 <= (p.amount as int) * (d as int) <= 0x200_0000_0000_0000) by (nonlinear_arith)
                requires
                    -0x8000_0000 <= p.amount < 0x8000_0000,
                    1 <= d <= 0x400_0000,
            ;
        }
        let normal = match damage_type {
            DamageType::Normal => true,
            _ => false,
        };
        let ghost vb = value_bound(ps, ii, b0);
        match hook {
            NumericHook::ModifyBlock => {
                match p.power_id {
                    PowerId::Dexterity => {
                        proof {
                            assert(value_bound(ps, ii + 1, b0) >= vb + 0x8000_0000);
                            assert(within(n + (p.amount as int) * d, d as int, value_bound(ps, ii + 1, b0))) by (nonlinear_arith)
                                requires
                                    within(n as int, d as int, vb),
                                    -0x8000_0000 <= p.amount < 0x8000_0000,
                                    d >= 1,
                                    value_bound(ps, ii + 1, b0) >= vb + 0x8000_0000,
                            ;
                        }
                        n = n + (p.amount as i128) * d;
                    },
                    PowerId::Frail => {
                        proof {
                            assert(within(n * 3, d * 4, vb)) by (nonlinear_arith)
                                requires
                                    within(n as int, d as int, vb),
                                    vb >= 0,
                                    d >= 1,
                            ;
                            assert(denominator_growth(ps, ii + 1) == denominator_growth(ps, ii) * 4);
                            assert(d * 4 <= d0 * denominator_growth(ps, ii + 1)) by (nonlinear_arith)
                                requires
                                    d <= d0 * denominator_growth(ps, ii),
                                    denominator_growth(ps, ii + 1) == denominator_growth(ps, ii) * 4,
                            ;
                        }
                        n = n * 3;
                        d = d * 4;
                    },
                    _ => {},
                }
            },
            NumericHook::DamageGive => {
                if normal {
                    match p.power_id {
                        PowerId::Strength => {
                            proof {
                                assert(value_bound(ps, ii + 1, b0) >= vb + 0x8000_0000);
                                assert(within(n + (p.amount as int) * d, d as int, value_bound(ps, ii + 1, b0))) by (nonlinear_arith)
                                    requires
                                        within(n as int, d as int, vb),
                                        -0x8000_0000 <= p.amount < 0x8000_0000,
                                        d >= 1,
                                        value_bound(ps, ii + 1, b0) >= vb + 0x8000_0000,
                                ;
                            }
                            n = n + (p.amount as i128) * d;
                        },
                        PowerId::Weak => {
                            proof {
                                assert(within(n * 3, d * 4, vb)) by (nonlinear_arith)
                                    requires
                                        within(n as int, d as int, vb),
                                        vb >= 0,
                                        d >= 1,
                                ;
                                assert(denominator_growth(ps, ii + 1) == denominator_growth(ps, ii) * 4);
                                assert(d * 4 <= d0 * denominator_growth(ps, ii + 1)) by (nonlinear_arith)
                                    requires
                                        d <= d0 * denominator_growth(ps, ii),
                                        denominator_growth(ps, ii + 1) == denominator_growth(ps, ii) * 4,
                                ;
                            }
                            n = n * 3;
                            d = d * 4;
                        },
                        PowerId::PenNib => {
                            proof {
                                assert(value_bound(ps, ii + 1, b0) == vb * 2);
                                assert(within(n * 2, d as int, vb * 2)) by (nonlinear_arith)
                                    requires
                                        within(n as int, d as int, vb),
                                        d >= 1,
                                ;
                            }
                            n = n * 2;
                        },
                        _ => {},
                    }
                }
            },
            NumericHook::DamageReceive => {
                if normal {
                    match p.power_id {
                        PowerId::Vulnerable => {
                            proof {
                                assert(value_bound(ps, ii + 1, b0) == vb * 2);
                                assert(within(n * 3, d * 2, vb * 2)) by (nonlinear_arith)
                                    requires
                                        within(n as int, d as int, vb),
                                        vb >= 0,
                                        d >= 1,
                                ;
                                assert(denominator_growth(ps, ii + 1) == denominator_growth(ps, ii) * 2);
                                assert(d * 2 <= d0 * denominator_growth(ps, ii + 1)) by (nonlinear_arith)
                                    requires
                                        d <= d0 * denominator_growth(ps, ii),
                                        denominator_growth(ps, ii + 1) == denominator_growth(ps, ii) * 2,
                                ;
                            }
                            n = n * 3;
                            d = d * 2;
                        },
                        _ => {},
                    }
                }
            },
            NumericHook::DamageFinalReceive => {
                if normal {
                    match p.power_id {
                        PowerId::Flight => {
                            proof {
                                assert(within(n as int, d * 2, vb)) by (nonlinear_arith)
                                    requires
                                        within(n as int, d as int, vb),
                                        vb >= 0,
                                        d >= 1,
                                ;
                                assert(denominator_growth(ps, ii + 1) == denominator_growth(ps, ii) * 2);
                                assert(d * 2 <= d0 * denominator_growth(ps, ii + 1)) by (nonlinear_arith)
                                    requires
                                        d <= d0 * denominator_growth(ps, ii),
                                        denominator_growth(ps, ii + 1) == denominator_growth(ps, ii) * 2,
                                ;
                            }
                            d = d * 2;
                        },
                        _ => {},
                    }
                }
            },
        }
        proof {
            assert(within(n as int, d as int, value_bound(ps, ii + 1, b0))) by (nonlinear_arith)
                requires
                    within(n as int, d as int, vb) || within(n as int, d as int, value_bound(ps, ii + 1, b0)),
                    vb <= value_bound(ps, ii + 1, b0),
                    d >= 1,
            ;
        }
        i = i + 1;
    }
    proof {
        assert(powers@.subrange(0, powers@.len() as int) =~= powers@);
        lemma_value_bound_facts(powers@, powers@.len() as int, b0);
        assert(within(n as int, d as int, (b0 + 0x1_0000_0000) * 4)) by (nonlinear_arith)
            requires
                within(n as int, d as int, value_bound(powers@, powers@.len() as int, b0)),
                value_bound(powers@, powers@.len() as int, b0) <= (b0 + 0x1_0000_0000) * 4,
                d >= 1,
        ;
        assert(d0 * denominator_growth(powers@, powers@.len() as int) <= 64 * d0) by (nonlinear_arith)
            requires
                d0 >= 1,
                denominator_growth(powers@, powers@.len() as int) <= 64,
        ;
    }
    Amount { numerator: n, denominator: d }
}

} // verus!
