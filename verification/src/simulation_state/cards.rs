//! Card identities, their static information and what each card does when played.
use vstd::prelude::*;
use crate::simulation_state::{CardInfo, CardType, Rarity, UNPLAYABLE, X_COST};
use crate::string_match::str_equals;

verus! {

/// Every card the simulator knows.
#[derive(Clone, Copy, PartialEq, Eq, PartialOrd, Ord, Hash, Debug, Structural)]
pub enum CardId {
    StrikeR,
    Bash,
    DefendR,
    Anger,
    Armaments,
    BodySlam,
    Clash,
    Cleave,
    Clothesline,
    Flex,
    Havoc,
    Headbutt,
    HeavyBlade,
    IronWave,
    PerfectedStrike,
    PommelStrike,
    ShrugItOff,
    SwordBoomerang,
    Thunderclap,
    TrueGrit,
    TwinStrike,
    Warcry,
    WildStrike,
    BattleTrance,
    BloodForBlood,
    Bloodletting,
    BurningPact,
    Carnage,
    Combust,
    Corruption,
    Disarm,
    Dropkick,
    DualWield,
    Entrench,
    Evolve,
    FeelNoPain,
    FireBreathing,
    FlameBarrier,
    GhostlyArmor,
    Hemokinesis,
    InfernalBlade,
    Inflame,
    Intimidate,
    Metallicize,
    PowerThrough,
    Pummel,
    Rage,
    Rampage,
    RecklessCharge,
    Rupture,
    SearingBlow,
    SecondWind,
    SeeingRed,
    Sentinel,
    SeverSoul,
    Shockwave,
    SpotWeakness,
    Uppercut,
    Whirlwind,
    Barricade,
    Berserk,
    Bludgeon,
    Brutality,
    DarkEmbrace,
    DemonForm,
    DoubleTap,
    Immolate,
    Impervious,
    Juggernaut,
    Injury,
    AscendersBane,
    Dazed,
    Slimed,
    Burn,
}

/// Position of a card id in declaration order; the order of card ids is the order of these numbers.
pub open spec fn card_id_rank(id: CardId) -> int {
    match id {
        CardId::StrikeR => 0,
        CardId::Bash => 1,
        CardId::DefendR => 2,
        CardId::Anger => 3,
        CardId::Armaments => 4,
        CardId::BodySlam => 5,
        CardId::Clash => 6,
        CardId::Cleave => 7,
        CardId::Clothesline => 8,
        CardId::Flex => 9,
        CardId::Havoc => 10,
        CardId::Headbutt => 11,
        CardId::HeavyBlade => 12,
        CardId::IronWave => 13,
        CardId::PerfectedStrike => 14,
        CardId::PommelStrike => 15,
        CardId::ShrugItOff => 16,
        CardId::SwordBoomerang => 17,
        CardId::Thunderclap => 18,
        CardId::TrueGrit => 19,
        CardId::TwinStrike => 20,
        CardId::Warcry => 21,
        CardId::WildStrike => 22,
        CardId::BattleTrance => 23,
        CardId::BloodForBlood => 24,
        CardId::Bloodletting => 25,
        CardId::BurningPact => 26,
        CardId::Carnage => 27,
        CardId::Combust => 28,
        CardId::Corruption => 29,
        CardId::Disarm => 30,
        CardId::Dropkick => 31,
        CardId::DualWield => 32,
        CardId::Entrench => 33,
        CardId::Evolve => 34,
        CardId::FeelNoPain => 35,
        CardId::FireBreathing => 36,
        CardId::FlameBarrier => 37,
        CardId::GhostlyArmor => 38,
        CardId::Hemokinesis => 39,
        CardId::InfernalBlade => 40,
        CardId::Inflame => 41,
        CardId::Intimidate => 42,
        CardId::Metallicize => 43,
        CardId::PowerThrough => 44,
        CardId::Pummel => 45,
        CardId::Rage => 46,
        CardId::Rampage => 47,
        CardId::RecklessCharge => 48,
        CardId::Rupture => 49,
        CardId::SearingBlow => 50,
        CardId::SecondWind => 51,
        CardId::SeeingRed => 52,
        CardId::Sentinel => 53,
        CardId::SeverSoul => 54,
        CardId::Shockwave => 55,
        CardId::SpotWeakness => 56,
        CardId::Uppercut => 57,
        CardId::Whirlwind => 58,
        CardId::Barricade => 59,
        CardId::Berserk => 60,
        CardId::Bludgeon => 61,
        CardId::Brutality => 62,
        CardId::DarkEmbrace => 63,
        CardId::DemonForm => 64,
        CardId::DoubleTap => 65,
        CardId::Immolate => 66,
        CardId::Impervious => 67,
        CardId::Juggernaut => 68,
        CardId::Injury => 69,
        CardId::AscendersBane => 70,
        CardId::Dazed => 71,
        CardId::Slimed => 72,
        CardId::Burn => 73,
    }
}

/// The card id at a position of the declaration order (the last one past the end).
pub open spec fn card_id_of_rank(rank: int) -> CardId {
    if rank == 0 {
        CardId::StrikeR
    } else if rank == 1 {
        CardId::Bash
    } else if rank == 2 {
        CardId::DefendR
    } else if rank == 3 {
        CardId::Anger
    } else if rank == 4 {
        CardId::Armaments
    } else if rank == 5 {
        CardId::BodySlam
    } else if rank == 6 {
        CardId::Clash
    } else if rank == 7 {
        CardId::Cleave
    } else if rank == 8 {
        CardId::Clothesline
    } else if rank == 9 {
        CardId::Flex
    } else if rank == 10 {
        CardId::Havoc
    } else if rank == 11 {
        CardId::Headbutt
    } else if rank == 12 {
        CardId::HeavyBlade
    } else if rank == 13 {
        CardId::IronWave
    } else if rank == 14 {
        CardId::PerfectedStrike
    } else if rank == 15 {
        CardId::PommelStrike
    } else if rank == 16 {
        CardId::ShrugItOff
    } else if rank == 17 {
        CardId::SwordBoomerang
    } else if rank == 18 {
        CardId::Thunderclap
    } else if rank == 19 {
        CardId::TrueGrit
    } else if rank == 20 {
        CardId::TwinStrike
    } else if rank == 21 {
        CardId::Warcry
    } else if rank == 22 {
        CardId::WildStrike
    } else if rank == 23 {
        CardId::BattleTrance
    } else if rank == 24 {
        CardId::BloodForBlood
    } else if rank == 25 {
        CardId::Bloodletting
    } else if rank == 26 {
        CardId::BurningPact
    } else if rank == 27 {
        CardId::Carnage
    } else if rank == 28 {
        CardId::Combust
    } else if rank == 29 {
        CardId::Corruption
    } else if rank == 30 {
        CardId::Disarm
    } else if rank == 31 {
        CardId::Dropkick
    } else if rank == 32 {
        CardId::DualWield
    } else if rank == 33 {
        CardId::Entrench
    } else if rank == 34 {
        CardId::Evolve
    } else if rank == 35 {
        CardId::FeelNoPain
    } else if rank == 36 {
        CardId::FireBreathing
    } else if rank == 37 {
        CardId::FlameBarrier
    } else if rank == 38 {
        CardId::GhostlyArmor
    } else if rank == 39 {
        CardId::Hemokinesis
    } else if rank == 40 {
        CardId::InfernalBlade
    } else if rank == 41 {
        CardId::Inflame
    } else if rank == 42 {
        CardId::Intimidate
    } else if rank == 43 {
        CardId::Metallicize
    } else if rank == 44 {
        CardId::PowerThrough
    } else if rank == 45 {
        CardId::Pummel
    } else if rank == 46 {
        CardId::Rage
    } else if rank == 47 {
        CardId::Rampage
    } else if rank == 48 {
        CardId::RecklessCharge
    } else if rank == 49 {
        CardId::Rupture
    } else if rank == 50 {
        CardId::SearingBlow
    } else if rank == 51 {
        CardId::SecondWind
    } else if rank == 52 {
        CardId::SeeingRed
    } else if rank == 53 {
        CardId::Sentinel
    } else if rank == 54 {
        CardId::SeverSoul
    } else if rank == 55 {
        CardId::Shockwave
    } else if rank == 56 {
        CardId::SpotWeakness
    } else if rank == 57 {
        CardId::Uppercut
    } else if rank == 58 {
        CardId::Whirlwind
    } else if rank == 59 {
        CardId::Barricade
    } else if rank == 60 {
        CardId::Berserk
    } else if rank == 61 {
        CardId::Bludgeon
    } else if rank == 62 {
        CardId::Brutality
    } else if rank == 63 {
        CardId::DarkEmbrace
    } else if rank == 64 {
        CardId::DemonForm
    } else if rank == 65 {
        CardId::DoubleTap
    } else if rank == 66 {
        CardId::Immolate
    } else if rank == 67 {
        CardId::Impervious
    } else if rank == 68 {
        CardId::Juggernaut
    } else if rank == 69 {
        CardId::Injury
    } else if rank == 70 {
        CardId::AscendersBane
    } else if rank == 71 {
        CardId::Dazed
    } else if rank == 72 {
        CardId::Slimed
    } else {
        CardId::Burn
    }
}

/// Positions in the declaration order name card ids one to one.
pub proof fn lemma_card_id_rank_inverse(id: CardId)
    ensures
        card_id_of_rank(card_id_rank(id)) == id,
        0 <= card_id_rank(id) < 74,
{
}


/// Executable form of `card_id_rank`.
pub fn card_id_number(id: CardId) -> (n: u8)
    ensures
        n as int == card_id_rank(id),
{
    match id {
        CardId::StrikeR => 0,
        CardId::Bash => 1,
        CardId::DefendR => 2,
        CardId::Anger => 3,
        CardId::Armaments => 4,
        CardId::BodySlam => 5,
        CardId::Clash => 6,
        CardId::Cleave => 7,
        CardId::Clothesline => 8,
        CardId::Flex => 9,
        CardId::Havoc => 10,
        CardId::Headbutt => 11,
        CardId::HeavyBlade => 12,
        CardId::IronWave => 13,
        CardId::PerfectedStrike => 14,
        CardId::PommelStrike => 15,
        CardId::ShrugItOff => 16,
        CardId::SwordBoomerang => 17,
        CardId::Thunderclap => 18,
        CardId::TrueGrit => 19,
        CardId::TwinStrike => 20,
        CardId::Warcry => 21,
        CardId::WildStrike => 22,
        CardId::BattleTrance => 23,
        CardId::BloodForBlood => 24,
        CardId::Bloodletting => 25,
        CardId::BurningPact => 26,
        CardId::Carnage => 27,
        CardId::Combust => 28,
        CardId::Corruption => 29,
        CardId::Disarm => 30,
        CardId::Dropkick => 31,
        CardId::DualWield => 32,
        CardId::Entrench => 33,
        CardId::Evolve => 34,
        CardId::FeelNoPain => 35,
        CardId::FireBreathing => 36,
        CardId::FlameBarrier => 37,
        CardId::GhostlyArmor => 38,
        CardId::Hemokinesis => 39,
        CardId::InfernalBlade => 40,
        CardId::Inflame => 41,
        CardId::Intimidate => 42,
        CardId::Metallicize => 43,
        CardId::PowerThrough => 44,
        CardId::Pummel => 45,
        CardId::Rage => 46,
        CardId::Rampage => 47,
        CardId::RecklessCharge => 48,
        CardId::Rupture => 49,
        CardId::SearingBlow => 50,
        CardId::SecondWind => 51,
        CardId::SeeingRed => 52,
        CardId::Sentinel => 53,
        CardId::SeverSoul => 54,
        CardId::Shockwave => 55,
        CardId::SpotWeakness => 56,
        CardId::Uppercut => 57,
        CardId::Whirlwind => 58,
        CardId::Barricade => 59,
        CardId::Berserk => 60,
        CardId::Bludgeon => 61,
        CardId::Brutality => 62,
        CardId::DarkEmbrace => 63,
        CardId::DemonForm => 64,
        CardId::DoubleTap => 65,
        CardId::Immolate => 66,
        CardId::Impervious => 67,
        CardId::Juggernaut => 68,
        CardId::Injury => 69,
        CardId::AscendersBane => 70,
        CardId::Dazed => 71,
        CardId::Slimed => 72,
        CardId::Burn => 73,
    }
}

/// The static information of each card: type, rarity, costs and flags.
/// A card without its own upgraded cost costs the same when upgraded.
pub open spec fn spec_card_info(id: CardId) -> CardInfo {
    match id {
        CardId::StrikeR => CardInfo { id: CardId::StrikeR, card_type: CardType::Attack, rarity: Rarity::Basic, normal_cost: 1, upgraded_cost: 1, ethereal: false, has_target: true, exhausts: false },
        CardId::Bash => CardInfo { id: CardId::Bash, card_type: CardType::Attack, rarity: Rarity::Basic, normal_cost: 2, upgraded_cost: 2, ethereal: false, has_target: true, exhausts: false },
        CardId::DefendR => CardInfo { id: CardId::DefendR, card_type: CardType::Skill, rarity: Rarity::Basic, normal_cost: 1, upgraded_cost: 1, ethereal: false, has_target: false, exhausts: false },
        CardId::Anger => CardInfo { id: CardId::Anger, card_type: CardType::Attack, rarity: Rarity::Common, normal_cost: 0, upgraded_cost: 0, ethereal: false, has_target: true, exhausts: false },
        CardId::Armaments => CardInfo { id: CardId::Armaments, card_type: CardType::Skill, rarity: Rarity::Common, normal_cost: 1, upgraded_cost: 1, ethereal: false, has_target: false, exhausts: false },
        CardId::BodySlam => CardInfo { id: CardId::BodySlam, card_type: CardType::Attack, rarity: Rarity::Common, normal_cost: 1, upgraded_cost: 0, ethereal: false, has_target: true, exhausts: false },
        CardId::Clash => CardInfo { id: CardId::Clash, card_type: CardType::Attack, rarity: Rarity::Common, normal_cost: 0, upgraded_cost: 0, ethereal: false, has_target: true, exhausts: false },
        CardId::Cleave => CardInfo { id: CardId::Cleave, card_type: CardType::Attack, rarity: Rarity::Common, normal_cost: 1, upgraded_cost: 1, ethereal: false, has_target: false, exhausts: false },
        CardId::Clothesline => CardInfo { id: CardId::Clothesline, card_type: CardType::Attack, rarity: Rarity::Common, normal_cost: 2, upgraded_cost: 2, ethereal: false, has_target: true, exhausts: false },
        CardId::Flex => CardInfo { id: CardId::Flex, card_type: CardType::Skill, rarity: Rarity::Common, normal_cost: 0, upgraded_cost: 0, ethereal: false, has_target: false, exhausts: false },
        CardId::Havoc => CardInfo { id: CardId::Havoc, card_type: CardType::Skill, rarity: Rarity::Common, normal_cost: 1, upgraded_cost: 0, ethereal: false, has_target: false, exhausts: false },
        CardId::Headbutt => CardInfo { id: CardId::Headbutt, card_type: CardType::Attack, rarity: Rarity::Common, normal_cost: 1, upgraded_cost: 1, ethereal: false, has_target: true, exhausts: false },
        CardId::HeavyBlade => CardInfo { id: CardId::HeavyBlade, card_type: CardType::Attack, rarity: Rarity::Common, normal_cost: 2, upgraded_cost: 2, ethereal: false, has_target: true, exhausts: false },
        CardId::IronWave => CardInfo { id: CardId::IronWave, card_type: CardType::Attack, rarity: Rarity::Common, normal_cost: 1, upgraded_cost: 1, ethereal: false, has_target: true, exhausts: false },
        CardId::PerfectedStrike => CardInfo { id: CardId::PerfectedStrike, card_type: CardType::Attack, rarity: Rarity::Common, normal_cost: 2, upgraded_cost: 2, ethereal: false, has_target: true, exhausts: false },
        CardId::PommelStrike => CardInfo { id: CardId::PommelStrike, card_type: CardType::Attack, rarity: Rarity::Common, normal_cost: 1, upgraded_cost: 1, ethereal: false, has_target: true, exhausts: false },
        CardId::ShrugItOff => CardInfo { id: CardId::ShrugItOff, card_type: CardType::Skill, rarity: Rarity::Common, normal_cost: 1, upgraded_cost: 1, ethereal: false, has_target: false, exhausts: false },
        CardId::SwordBoomerang => CardInfo { id: CardId::SwordBoomerang, card_type: CardType::Attack, rarity: Rarity::Common, normal_cost: 1, upgraded_cost: 1, ethereal: false, has_target: false, exhausts: false },
        CardId::Thunderclap => CardInfo { id: CardId::Thunderclap, card_type: CardType::Attack, rarity: Rarity::Common, normal_cost: 1, upgraded_cost: 1, ethereal: false, has_target: false, exhausts: false },
        CardId::TrueGrit => CardInfo { id: CardId::TrueGrit, card_type: CardType::Skill, rarity: Rarity::Common, normal_cost: 1, upgraded_cost: 1, ethereal: false, has_target: false, exhausts: false },
        CardId::TwinStrike => CardInfo { id: CardId::TwinStrike, card_type: CardType::Attack, rarity: Rarity::Common, normal_cost: 1, upgraded_cost: 1, ethereal: false, has_target: true, exhausts: false },
        CardId::Warcry => CardInfo { id: CardId::Warcry, card_type: CardType::Skill, rarity: Rarity::Common, normal_cost: 0, upgraded_cost: 0, ethereal: false, has_target: false, exhausts: false },
        CardId::WildStrike => CardInfo { id: CardId::WildStrike, card_type: CardType::Attack, rarity: Rarity::Common, normal_cost: 1, upgraded_cost: 1, ethereal: false, has_target: true, exhausts: false },
        CardId::BattleTrance => CardInfo { id: CardId::BattleTrance, card_type: CardType::Skill, rarity: Rarity::Uncommon, normal_cost: 0, upgraded_cost: 0, ethereal: false, has_target: false, exhausts: false },
        CardId::BloodForBlood => CardInfo { id: CardId::BloodForBlood, card_type: CardType::Attack, rarity: Rarity::Uncommon, normal_cost: 4, upgraded_cost: 3, ethereal: false, has_target: true, exhausts: false },
        CardId::Bloodletting => CardInfo { id: CardId::Bloodletting, card_type: CardType::Skill, rarity: Rarity::Uncommon, normal_cost: 0, upgraded_cost: 0, ethereal: false, has_target: false, exhausts: false },
        CardId::BurningPact => CardInfo { id: CardId::BurningPact, card_type: CardType::Skill, rarity: Rarity::Uncommon, normal_cost: 1, upgraded_cost: 1, ethereal: false, has_target: false, exhausts: false },
        CardId::Carnage => CardInfo { id: CardId::Carnage, card_type: CardType::Attack, rarity: Rarity::Uncommon, normal_cost: 2, upgraded_cost: 2, ethereal: true, has_target: true, exhausts: false },
        CardId::Combust => CardInfo { id: CardId::Combust, card_type: CardType::Power, rarity: Rarity::Uncommon, normal_cost: 1, upgraded_cost: 1, ethereal: false, has_target: false, exhausts: false },
        CardId::Corruption => CardInfo { id: CardId::Corruption, card_type: CardType::Power, rarity: Rarity::Uncommon, normal_cost: 3, upgraded_cost: 2, ethereal: false, has_target: false, exhausts: false },
        CardId::Disarm => CardInfo { id: CardId::Disarm, card_type: CardType::Skill, rarity: Rarity::Uncommon, normal_cost: 1, upgraded_cost: 1, ethereal: false, has_target: true, exhausts: true },
        CardId::Dropkick => CardInfo { id: CardId::Dropkick, card_type: CardType::Attack, rarity: Rarity::Uncommon, normal_cost: 1, upgraded_cost: 1, ethereal: false, has_target: true, exhausts: false },
        CardId::DualWield => CardInfo { id: CardId::DualWield, card_type: CardType::Skill, rarity: Rarity::Uncommon, normal_cost: 1, upgraded_cost: 1, ethereal: false, has_target: false, exhausts: false },
        CardId::Entrench => CardInfo { id: CardId::Entrench, card_type: CardType::Skill, rarity: Rarity::Uncommon, normal_cost: 2, upgraded_cost: 1, ethereal: false, has_target: false, exhausts: false },
        CardId::Evolve => CardInfo { id: CardId::Evolve, card_type: CardType::Power, rarity: Rarity::Uncommon, normal_cost: 1, upgraded_cost: 1, ethereal: false, has_target: false, exhausts: false },
        CardId::FeelNoPain => CardInfo { id: CardId::FeelNoPain, card_type: CardType::Power, rarity: Rarity::Uncommon, normal_cost: 1, upgraded_cost: 1, ethereal: false, has_target: false, exhausts: false },
        CardId::FireBreathing => CardInfo { id: CardId::FireBreathing, card_type: CardType::Power, rarity: Rarity::Uncommon, normal_cost: 1, upgraded_cost: 0, ethereal: false, has_target: false, exhausts: false },
        CardId::FlameBarrier => CardInfo { id: CardId::FlameBarrier, card_type: CardType::Skill, rarity: Rarity::Uncommon, normal_cost: 2, upgraded_cost: 2, ethereal: false, has_target: false, exhausts: false },
        CardId::GhostlyArmor => CardInfo { id: CardId::GhostlyArmor, card_type: CardType::Skill, rarity: Rarity::Uncommon, normal_cost: 1, upgraded_cost: 1, ethereal: true, has_target: false, exhausts: false },
        CardId::Hemokinesis => CardInfo { id: CardId::Hemokinesis, card_type: CardType::Attack, rarity: Rarity::Uncommon, normal_cost: 1, upgraded_cost: 1, ethereal: false, has_target: true, exhausts: false },
        CardId::InfernalBlade => CardInfo { id: CardId::InfernalBlade, card_type: CardType::Skill, rarity: Rarity::Uncommon, normal_cost: 1, upgraded_cost: 1, ethereal: false, has_target: false, exhausts: false },
        CardId::Inflame => CardInfo { id: CardId::Inflame, card_type: CardType::Power, rarity: Rarity::Uncommon, normal_cost: 1, upgraded_cost: 1, ethereal: false, has_target: false, exhausts: false },
        CardId::Intimidate => CardInfo { id: CardId::Intimidate, card_type: CardType::Skill, rarity: Rarity::Uncommon, normal_cost: 0, upgraded_cost: 0, ethereal: false, has_target: false, exhausts: true },
        CardId::Metallicize => CardInfo { id: CardId::Metallicize, card_type: CardType::Power, rarity: Rarity::Uncommon, normal_cost: 1, upgraded_cost: 1, ethereal: false, has_target: false, exhausts: false },
        CardId::PowerThrough => CardInfo { id: CardId::PowerThrough, card_type: CardType::Skill, rarity: Rarity::Uncommon, normal_cost: 1, upgraded_cost: 1, ethereal: false, has_target: false, exhausts: false },
        CardId::Pummel => CardInfo { id: CardId::Pummel, card_type: CardType::Attack, rarity: Rarity::Uncommon, normal_cost: 1, upgraded_cost: 1, ethereal: false, has_target: true, exhausts: true },
        CardId::Rage => CardInfo { id: CardId::Rage, card_type: CardType::Skill, rarity: Rarity::Uncommon, normal_cost: 0, upgraded_cost: 0, ethereal: false, has_target: false, exhausts: false },
        CardId::Rampage => CardInfo { id: CardId::Rampage, card_type: CardType::Attack, rarity: Rarity::Uncommon, normal_cost: 1, upgraded_cost: 1, ethereal: false, has_target: true, exhausts: false },
        CardId::RecklessCharge => CardInfo { id: CardId::RecklessCharge, card_type: CardType::Attack, rarity: Rarity::Uncommon, normal_cost: 0, upgraded_cost: 0, ethereal: false, has_target: true, exhausts: false },
        CardId::Rupture => CardInfo { id: CardId::Rupture, card_type: CardType::Power, rarity: Rarity::Uncommon, normal_cost: 1, upgraded_cost: 0, ethereal: false, has_target: false, exhausts: false },
        CardId::SearingBlow => CardInfo { id: CardId::SearingBlow, card_type: CardType::Attack, rarity: Rarity::Uncommon, normal_cost: 2, upgraded_cost: 2, ethereal: false, has_target: true, exhausts: false },
        CardId::SecondWind => CardInfo { id: CardId::SecondWind, card_type: CardType::Skill, rarity: Rarity::Uncommon, normal_cost: 1, upgraded_cost: 1, ethereal: false, has_target: false, exhausts: false },
        CardId::SeeingRed => CardInfo { id: CardId::SeeingRed, card_type: CardType::Skill, rarity: Rarity::Uncommon, normal_cost: 1, upgraded_cost: 1, ethereal: false, has_target: false, exhausts: true },
        CardId::Sentinel => CardInfo { id: CardId::Sentinel, card_type: CardType::Skill, rarity: Rarity::Uncommon, normal_cost: 1, upgraded_cost: 1, ethereal: false, has_target: false, exhausts: false },
        CardId::SeverSoul => CardInfo { id: CardId::SeverSoul, card_type: CardType::Attack, rarity: Rarity::Uncommon, normal_cost: 2, upgraded_cost: 2, ethereal: false, has_target: true, exhausts: false },
        CardId::Shockwave => CardInfo { id: CardId::Shockwave, card_type: CardType::Skill, rarity: Rarity::Uncommon, normal_cost: 2, upgraded_cost: 2, ethereal: false, has_target: false, exhausts: false },
        CardId::SpotWeakness => CardInfo { id: CardId::SpotWeakness, card_type: CardType::Skill, rarity: Rarity::Uncommon, normal_cost: 1, upgraded_cost: 1, ethereal: false, has_target: true, exhausts: false },
        CardId::Uppercut => CardInfo { id: CardId::Uppercut, card_type: CardType::Attack, rarity: Rarity::Uncommon, normal_cost: 2, upgraded_cost: 2, ethereal: false, has_target: true, exhausts: false },
        CardId::Whirlwind => CardInfo { id: CardId::Whirlwind, card_type: CardType::Attack, rarity: Rarity::Uncommon, normal_cost: X_COST, upgraded_cost: X_COST, ethereal: false, has_target: true, exhausts: false },
        CardId::Barricade => CardInfo { id: CardId::Barricade, card_type: CardType::Power, rarity: Rarity::Rare, normal_cost: 3, upgraded_cost: 2, ethereal: false, has_target: false, exhausts: false },
        CardId::Berserk => CardInfo { id: CardId::Berserk, card_type: CardType::Power, rarity: Rarity::Rare, normal_cost: 0, upgraded_cost: 0, ethereal: false, has_target: false, exhausts: false },
        CardId::Bludgeon => CardInfo { id: CardId::Bludgeon, card_type: CardType::Attack, rarity: Rarity::Rare, normal_cost: 3, upgraded_cost: 3, ethereal: false, has_target: true, exhausts: false },
        CardId::Brutality => CardInfo { id: CardId::Brutality, card_type: CardType::Power, rarity: Rarity::Rare, normal_cost: 0, upgraded_cost: 0, ethereal: false, has_target: false, exhausts: false },
        CardId::DarkEmbrace => CardInfo { id: CardId::DarkEmbrace, card_type: CardType::Power, rarity: Rarity::Rare, normal_cost: 2, upgraded_cost: 1, ethereal: false, has_target: false, exhausts: false },
        CardId::DemonForm => CardInfo { id: CardId::DemonForm, card_type: CardType::Power, rarity: Rarity::Rare, normal_cost: 3, upgraded_cost: 3, ethereal: false, has_target: false, exhausts: false },
        CardId::DoubleTap => CardInfo { id: CardId::DoubleTap, card_type: CardType::Skill, rarity: Rarity::Rare, normal_cost: 1, upgraded_cost: 1, ethereal: false, has_target: false, exhausts: false },
        CardId::Immolate => CardInfo { id: CardId::Immolate, card_type: CardType::Attack, rarity: Rarity::Rare, normal_cost: 2, upgraded_cost: 2, ethereal: false, has_target: false, exhausts: false },
        CardId::Impervious => CardInfo { id: CardId::Impervious, card_type: CardType::Skill, rarity: Rarity::Rare, normal_cost: 2, upgraded_cost: 2, ethereal: false, has_target: false, exhausts: true },
        CardId::Juggernaut => CardInfo { id: CardId::Juggernaut, card_type: CardType::Power, rarity: Rarity::Rare, normal_cost: 2, upgraded_cost: 2, ethereal: false, has_target: false, exhausts: false },
        CardId::Injury => CardInfo { id: CardId::Injury, card_type: CardType::Curse, rarity: Rarity::Special, normal_cost: UNPLAYABLE, upgraded_cost: UNPLAYABLE, ethereal: false, has_target: false, exhausts: false },
        CardId::AscendersBane => CardInfo { id: CardId::AscendersBane, card_type: CardType::Curse, rarity: Rarity::Special, normal_cost: UNPLAYABLE, upgraded_cost: UNPLAYABLE, ethereal: true, has_target: false, exhausts: false },
        CardId::Dazed => CardInfo { id: CardId::Dazed, card_type: CardType::Status, rarity: Rarity::Special, normal_cost: UNPLAYABLE, upgraded_cost: UNPLAYABLE, ethereal: true, has_target: false, exhausts: false },
        CardId::Slimed => CardInfo { id: CardId::Slimed, card_type: CardType::Status, rarity: Rarity::Special, normal_cost: 1, upgraded_cost: 1, ethereal: false, has_target: false, exhausts: true },
        CardId::Burn => CardInfo { id: CardId::Burn, card_type: CardType::Status, rarity: Rarity::Special, normal_cost: UNPLAYABLE, upgraded_cost: UNPLAYABLE, ethereal: false, has_target: false, exhausts: false },
    }
}

/// Looks up the static information of a card.
pub fn card_info(id: CardId) -> (info: CardInfo)
    ensures
        info == spec_card_info(id),
{
    match id {
        CardId::StrikeR => CardInfo { id: CardId::StrikeR, card_type: CardType::Attack, rarity: Rarity::Basic, normal_cost: 1, upgraded_cost: 1, ethereal: false, has_target: true, exhausts: false },
        CardId::Bash => CardInfo { id: CardId::Bash, card_type: CardType::Attack, rarity: Rarity::Basic, normal_cost: 2, upgraded_cost: 2, ethereal: false, has_target: true, exhausts: false },
        CardId::DefendR => CardInfo { id: CardId::DefendR, card_type: CardType::Skill, rarity: Rarity::Basic, normal_cost: 1, upgraded_cost: 1, ethereal: false, has_target: false, exhausts: false },
        CardId::Anger => CardInfo { id: CardId::Anger, card_type: CardType::Attack, rarity: Rarity::Common, normal_cost: 0, upgraded_cost: 0, ethereal: false, has_target: true, exhausts: false },
        CardId::Armaments => CardInfo { id: CardId::Armaments, card_type: CardType::Skill, rarity: Rarity::Common, normal_cost: 1, upgraded_cost: 1, ethereal: false, has_target: false, exhausts: false },
        CardId::BodySlam => CardInfo { id: CardId::BodySlam, card_type: CardType::Attack, rarity: Rarity::Common, normal_cost: 1, upgraded_cost: 0, ethereal: false, has_target: true, exhausts: false },
        CardId::Clash => CardInfo { id: CardId::Clash, card_type: CardType::Attack, rarity: Rarity::Common, normal_cost: 0, upgraded_cost: 0, ethereal: false, has_target: true, exhausts: false },
        CardId::Cleave => CardInfo { id: CardId::Cleave, card_type: CardType::Attack, rarity: Rarity::Common, normal_cost: 1, upgraded_cost: 1, ethereal: false, has_target: false, exhausts: false },
        CardId::Clothesline => CardInfo { id: CardId::Clothesline, card_type: CardType::Attack, rarity: Rarity::Common, normal_cost: 2, upgraded_cost: 2, ethereal: false, has_target: true, exhausts: false },
        CardId::Flex => CardInfo { id: CardId::Flex, card_type: CardType::Skill, rarity: Rarity::Common, normal_cost: 0, upgraded_cost: 0, ethereal: false, has_target: false, exhausts: false },
        CardId::Havoc => CardInfo { id: CardId::Havoc, card_type: CardType::Skill, rarity: Rarity::Common, normal_cost: 1, upgraded_cost: 0, ethereal: false, has_target: false, exhausts: false },
        CardId::Headbutt => CardInfo { id: CardId::Headbutt, card_type: CardType::Attack, rarity: Rarity::Common, normal_cost: 1, upgraded_cost: 1, ethereal: false, has_target: true, exhausts: false },
        CardId::HeavyBlade => CardInfo { id: CardId::HeavyBlade, card_type: CardType::Attack, rarity: Rarity::Common, normal_cost: 2, upgraded_cost: 2, ethereal: false, has_target: true, exhausts: false },
        CardId::IronWave => CardInfo { id: CardId::IronWave, card_type: CardType::Attack, rarity: Rarity::Common, normal_cost: 1, upgraded_cost: 1, ethereal: false, has_target: true, exhausts: false },
        CardId::PerfectedStrike => CardInfo { id: CardId::PerfectedStrike, card_type: CardType::Attack, rarity: Rarity::Common, normal_cost: 2, upgraded_cost: 2, ethereal: false, has_target: true, exhausts: false },
        CardId::PommelStrike => CardInfo { id: CardId::PommelStrike, card_type: CardType::Attack, rarity: Rarity::Common, normal_cost: 1, upgraded_cost: 1, ethereal: false, has_target: true, exhausts: false },
        CardId::ShrugItOff => CardInfo { id: CardId::ShrugItOff, card_type: CardType::Skill, rarity: Rarity::Common, normal_cost: 1, upgraded_cost: 1, ethereal: false, has_target: false, exhausts: false },
        CardId::SwordBoomerang => CardInfo { id: CardId::SwordBoomerang, card_type: CardType::Attack, rarity: Rarity::Common, normal_cost: 1, upgraded_cost: 1, ethereal: false, has_target: false, exhausts: false },
        CardId::Thunderclap => CardInfo { id: CardId::Thunderclap, card_type: CardType::Attack, rarity: Rarity::Common, normal_cost: 1, upgraded_cost: 1, ethereal: false, has_target: false, exhausts: false },
        CardId::TrueGrit => CardInfo { id: CardId::TrueGrit, card_type: CardType::Skill, rarity: Rarity::Common, normal_cost: 1, upgraded_cost: 1, ethereal: false, has_target: false, exhausts: false },
        CardId::TwinStrike => CardInfo { id: CardId::TwinStrike, card_type: CardType::Attack, rarity: Rarity::Common, normal_cost: 1, upgraded_cost: 1, ethereal: false, has_target: true, exhausts: false },
        CardId::Warcry => CardInfo { id: CardId::Warcry, card_type: CardType::Skill, rarity: Rarity::Common, normal_cost: 0, upgraded_cost: 0, ethereal: false, has_target: false, exhausts: false },
        CardId::WildStrike => CardInfo { id: CardId::WildStrike, card_type: CardType::Attack, rarity: Rarity::Common, normal_cost: 1, upgraded_cost: 1, ethereal: false, has_target: true, exhausts: false },
        CardId::BattleTrance => CardInfo { id: CardId::BattleTrance, card_type: CardType::Skill, rarity: Rarity::Uncommon, normal_cost: 0, upgraded_cost: 0, ethereal: false, has_target: false, exhausts: false },
        CardId::BloodForBlood => CardInfo { id: CardId::BloodForBlood, card_type: CardType::Attack, rarity: Rarity::Uncommon, normal_cost: 4, upgraded_cost: 3, ethereal: false, has_target: true, exhausts: false },
        CardId::Bloodletting => CardInfo { id: CardId::Bloodletting, card_type: CardType::Skill, rarity: Rarity::Uncommon, normal_cost: 0, upgraded_cost: 0, ethereal: false, has_target: false, exhausts: false },
        CardId::BurningPact => CardInfo { id: CardId::BurningPact, card_type: CardType::Skill, rarity: Rarity::Uncommon, normal_cost: 1, upgraded_cost: 1, ethereal: false, has_target: false, exhausts: false },
        CardId::Carnage => CardInfo { id: CardId::Carnage, card_type: CardType::Attack, rarity: Rarity::Uncommon, normal_cost: 2, upgraded_cost: 2, ethereal: true, has_target: true, exhausts: false },
        CardId::Combust => CardInfo { id: CardId::Combust, card_type: CardType::Power, rarity: Rarity::Uncommon, normal_cost: 1, upgraded_cost: 1, ethereal: false, has_target: false, exhausts: false },
        CardId::Corruption => CardInfo { id: CardId::Corruption, card_type: CardType::Power, rarity: Rarity::Uncommon, normal_cost: 3, upgraded_cost: 2, ethereal: false, has_target: false, exhausts: false },
        CardId::Disarm => CardInfo { id: CardId::Disarm, card_type: CardType::Skill, rarity: Rarity::Uncommon, normal_cost: 1, upgraded_cost: 1, ethereal: false, has_target: true, exhausts: true },
        CardId::Dropkick => CardInfo { id: CardId::Dropkick, card_type: CardType::Attack, rarity: Rarity::Uncommon, normal_cost: 1, upgraded_cost: 1, ethereal: false, has_target: true, exhausts: false },
        CardId::DualWield => CardInfo { id: CardId::DualWield, card_type: CardType::Skill, rarity: Rarity::Uncommon, normal_cost: 1, upgraded_cost: 1, ethereal: false, has_target: false, exhausts: false },
        CardId::Entrench => CardInfo { id: CardId::Entrench, card_type: CardType::Skill, rarity: Rarity::Uncommon, normal_cost: 2, upgraded_cost: 1, ethereal: false, has_target: false, exhausts: false },
        CardId::Evolve => CardInfo { id: CardId::Evolve, card_type: CardType::Power, rarity: Rarity::Uncommon, normal_cost: 1, upgraded_cost: 1, ethereal: false, has_target: false, exhausts: false },
        CardId::FeelNoPain => CardInfo { id: CardId::FeelNoPain, card_type: CardType::Power, rarity: Rarity::Uncommon, normal_cost: 1, upgraded_cost: 1, ethereal: false, has_target: false, exhausts: false },
        CardId::FireBreathing => CardInfo { id: CardId::FireBreathing, card_type: CardType::Power, rarity: Rarity::Uncommon, normal_cost: 1, upgraded_cost: 0, ethereal: false, has_target: false, exhausts: false },
        CardId::FlameBarrier => CardInfo { id: CardId::FlameBarrier, card_type: CardType::Skill, rarity: Rarity::Uncommon, normal_cost: 2, upgraded_cost: 2, ethereal: false, has_target: false, exhausts: false },
        CardId::GhostlyArmor => CardInfo { id: CardId::GhostlyArmor, card_type: CardType::Skill, rarity: Rarity::Uncommon, normal_cost: 1, upgraded_cost: 1, ethereal: true, has_target: false, exhausts: false },
        CardId::Hemokinesis => CardInfo { id: CardId::Hemokinesis, card_type: CardType::Attack, rarity: Rarity::Uncommon, normal_cost: 1, upgraded_cost: 1, ethereal: false, has_target: true, exhausts: false },
        CardId::InfernalBlade => CardInfo { id: CardId::InfernalBlade, card_type: CardType::Skill, rarity: Rarity::Uncommon, normal_cost: 1, upgraded_cost: 1, ethereal: false, has_target: false, exhausts: false },
        CardId::Inflame => CardInfo { id: CardId::Inflame, card_type: CardType::Power, rarity: Rarity::Uncommon, normal_cost: 1, upgraded_cost: 1, ethereal: false, has_target: false, exhausts: false },
        CardId::Intimidate => CardInfo { id: CardId::Intimidate, card_type: CardType::Skill, rarity: Rarity::Uncommon, normal_cost: 0, upgraded_cost: 0, ethereal: false, has_target: false, exhausts: true },
        CardId::Metallicize => CardInfo { id: CardId::Metallicize, card_type: CardType::Power, rarity: Rarity::Uncommon, normal_cost: 1, upgraded_cost: 1, ethereal: false, has_target: false, exhausts: false },
        CardId::PowerThrough => CardInfo { id: CardId::PowerThrough, card_type: CardType::Skill, rarity: Rarity::Uncommon, normal_cost: 1, upgraded_cost: 1, ethereal: false, has_target: false, exhausts: false },
        CardId::Pummel => CardInfo { id: CardId::Pummel, card_type: CardType::Attack, rarity: Rarity::Uncommon, normal_cost: 1, upgraded_cost: 1, ethereal: false, has_target: true, exhausts: true },
        CardId::Rage => CardInfo { id: CardId::Rage, card_type: CardType::Skill, rarity: Rarity::Uncommon, normal_cost: 0, upgraded_cost: 0, ethereal: false, has_target: false, exhausts: false },
        CardId::Rampage => CardInfo { id: CardId::Rampage, card_type: CardType::Attack, rarity: Rarity::Uncommon, normal_cost: 1, upgraded_cost: 1, ethereal: false, has_target: true, exhausts: false },
        CardId::RecklessCharge => CardInfo { id: CardId::RecklessCharge, card_type: CardType::Attack, rarity: Rarity::Uncommon, normal_cost: 0, upgraded_cost: 0, ethereal: false, has_target: true, exhausts: false },
        CardId::Rupture => CardInfo { id: CardId::Rupture, card_type: CardType::Power, rarity: Rarity::Uncommon, normal_cost: 1, upgraded_cost: 0, ethereal: false, has_target: false, exhausts: false },
        CardId::SearingBlow => CardInfo { id: CardId::SearingBlow, card_type: CardType::Attack, rarity: Rarity::Uncommon, normal_cost: 2, upgraded_cost: 2, ethereal: false, has_target: true, exhausts: false },
        CardId::SecondWind => CardInfo { id: CardId::SecondWind, card_type: CardType::Skill, rarity: Rarity::Uncommon, normal_cost: 1, upgraded_cost: 1, ethereal: false, has_target: false, exhausts: false },
        CardId::SeeingRed => CardInfo { id: CardId::SeeingRed, card_type: CardType::Skill, rarity: Rarity::Uncommon, normal_cost: 1, upgraded_cost: 1, ethereal: false, has_target: false, exhausts: true },
        CardId::Sentinel => CardInfo { id: CardId::Sentinel, card_type: CardType::Skill, rarity: Rarity::Uncommon, normal_cost: 1, upgraded_cost: 1, ethereal: false, has_target: false, exhausts: false },
        CardId::SeverSoul => CardInfo { id: CardId::SeverSoul, card_type: CardType::Attack, rarity: Rarity::Uncommon, normal_cost: 2, upgraded_cost: 2, ethereal: false, has_target: true, exhausts: false },
        CardId::Shockwave => CardInfo { id: CardId::Shockwave, card_type: CardType::Skill, rarity: Rarity::Uncommon, normal_cost: 2, upgraded_cost: 2, ethereal: false, has_target: false, exhausts: false },
        CardId::SpotWeakness => CardInfo { id: CardId::SpotWeakness, card_type: CardType::Skill, rarity: Rarity::Uncommon, normal_cost: 1, upgraded_cost: 1, ethereal: false, has_target: true, exhausts: false },
        CardId::Uppercut => CardInfo { id: CardId::Uppercut, card_type: CardType::Attack, rarity: Rarity::Uncommon, normal_cost: 2, upgraded_cost: 2, ethereal: false, has_target: true, exhausts: false },
        CardId::Whirlwind => CardInfo { id: CardId::Whirlwind, card_type: CardType::Attack, rarity: Rarity::Uncommon, normal_cost: X_COST, upgraded_cost: X_COST, ethereal: false, has_target: true, exhausts: false },
        CardId::Barricade => CardInfo { id: CardId::Barricade, card_type: CardType::Power, rarity: Rarity::Rare, normal_cost: 3, upgraded_cost: 2, ethereal: false, has_target: false, exhausts: false },
        CardId::Berserk => CardInfo { id: CardId::Berserk, card_type: CardType::Power, rarity: Rarity::Rare, normal_cost: 0, upgraded_cost: 0, ethereal: false, has_target: false, exhausts: false },
        CardId::Bludgeon => CardInfo { id: CardId::Bludgeon, card_type: CardType::Attack, rarity: Rarity::Rare, normal_cost: 3, upgraded_cost: 3, ethereal: false, has_target: true, exhausts: false },
        CardId::Brutality => CardInfo { id: CardId::Brutality, card_type: CardType::Power, rarity: Rarity::Rare, normal_cost: 0, upgraded_cost: 0, ethereal: false, has_target: false, exhausts: false },
        CardId::DarkEmbrace => CardInfo { id: CardId::DarkEmbrace, card_type: CardType::Power, rarity: Rarity::Rare, normal_cost: 2, upgraded_cost: 1, ethereal: false, has_target: false, exhausts: false },
        CardId::DemonForm => CardInfo { id: CardId::DemonForm, card_type: CardType::Power, rarity: Rarity::Rare, normal_cost: 3, upgraded_cost: 3, ethereal: false, has_target: false, exhausts: false },
        CardId::DoubleTap => CardInfo { id: CardId::DoubleTap, card_type: CardType::Skill, rarity: Rarity::Rare, normal_cost: 1, upgraded_cost: 1, ethereal: false, has_target: false, exhausts: false },
        CardId::Immolate => CardInfo { id: CardId::Immolate, card_type: CardType::Attack, rarity: Rarity::Rare, normal_cost: 2, upgraded_cost: 2, ethereal: false, has_target: false, exhausts: false },
        CardId::Impervious => CardInfo { id: CardId::Impervious, card_type: CardType::Skill, rarity: Rarity::Rare, normal_cost: 2, upgraded_cost: 2, ethereal: false, has_target: false, exhausts: true },
        CardId::Juggernaut => CardInfo { id: CardId::Juggernaut, card_type: CardType::Power, rarity: Rarity::Rare, normal_cost: 2, upgraded_cost: 2, ethereal: false, has_target: false, exhausts: false },
        CardId::Injury => CardInfo { id: CardId::Injury, card_type: CardType::Curse, rarity: Rarity::Special, normal_cost: UNPLAYABLE, upgraded_cost: UNPLAYABLE, ethereal: false, has_target: false, exhausts: false },
        CardId::AscendersBane => CardInfo { id: CardId::AscendersBane, card_type: CardType::Curse, rarity: Rarity::Special, normal_cost: UNPLAYABLE, upgraded_cost: UNPLAYABLE, ethereal: true, has_target: false, exhausts: false },
        CardId::Dazed => CardInfo { id: CardId::Dazed, card_type: CardType::Status, rarity: Rarity::Special, normal_cost: UNPLAYABLE, upgraded_cost: UNPLAYABLE, ethereal: true, has_target: false, exhausts: false },
        CardId::Slimed => CardInfo { id: CardId::Slimed, card_type: CardType::Status, rarity: Rarity::Special, normal_cost: 1, upgraded_cost: 1, ethereal: false, has_target: false, exhausts: true },
        CardId::Burn => CardInfo { id: CardId::Burn, card_type: CardType::Status, rarity: Rarity::Special, normal_cost: UNPLAYABLE, upgraded_cost: UNPLAYABLE, ethereal: false, has_target: false, exhausts: false },
    }
}

/// The card named by a CommunicationMod card id; unknown names read as `Injury`.
pub open spec fn spec_card_id_from_str(s: Seq<char>) -> CardId {
    if s == "Strike_R"@ {
        CardId::StrikeR
    } else if s == "Bash"@ {
        CardId::Bash
    } else if s == "Defend_R"@ {
        CardId::DefendR
    } else if s == "Anger"@ {
        CardId::Anger
    } else if s == "Armaments"@ {
        CardId::Armaments
    } else if s == "Body Slam"@ {
        CardId::BodySlam
    } else if s == "Clash"@ {
        CardId::Clash
    } else if s == "Cleave"@ {
        CardId::Cleave
    } else if s == "Clothesline"@ {
        CardId::Clothesline
    } else if s == "Flex"@ {
        CardId::Flex
    } else if s == "Havoc"@ {
        CardId::Havoc
    } else if s == "Headbutt"@ {
        CardId::Headbutt
    } else if s == "Heavy Blade"@ {
        CardId::HeavyBlade
    } else if s == "Iron Wave"@ {
        CardId::IronWave
    } else if s == "Perfected Strike"@ {
        CardId::PerfectedStrike
    } else if s == "Pommel Strike"@ {
        CardId::PommelStrike
    } else if s == "Shrug It Off"@ {
        CardId::ShrugItOff
    } else if s == "Sword Boomerang"@ {
        CardId::SwordBoomerang
    } else if s == "Thunderclap"@ {
        CardId::Thunderclap
    } else if s == "True Grit"@ {
        CardId::TrueGrit
    } else if s == "Twin Strike"@ {
        CardId::TwinStrike
    } else if s == "Warcry"@ {
        CardId::Warcry
    } else if s == "Wild Strike"@ {
        CardId::WildStrike
    } else if s == "Battle Trance"@ {
        CardId::BattleTrance
    } else if s == "Blood for Blood"@ {
        CardId::BloodForBlood
    } else if s == "Bloodletting"@ {
        CardId::Bloodletting
    } else if s == "Burning Pact"@ {
        CardId::BurningPact
    } else if s == "Carnage"@ {
        CardId::Carnage
    } else if s == "Combust"@ {
        CardId::Combust
    } else if s == "Corruption"@ {
        CardId::Corruption
    } else if s == "Disarm"@ {
        CardId::Disarm
    } else if s == "Dropkick"@ {
        CardId::Dropkick
    } else if s == "Dual Wield"@ {
        CardId::DualWield
    } else if s == "Entrench"@ {
        CardId::Entrench
    } else if s == "Evolve"@ {
        CardId::Evolve
    } else if s == "Feel No Pain"@ {
        CardId::FeelNoPain
    } else if s == "Fire Breathing"@ {
        CardId::FireBreathing
    } else if s == "Flame Barrier"@ {
        CardId::FlameBarrier
    } else if s == "Ghostly Armor"@ {
        CardId::GhostlyArmor
    } else if s == "Hemokinesis"@ {
        CardId::Hemokinesis
    } else if s == "Infernal Blade"@ {
        CardId::InfernalBlade
    } else if s == "Inflame"@ {
        CardId::Inflame
    } else if s == "Intimidate"@ {
        CardId::Intimidate
    } else if s == "Metallicize"@ {
        CardId::Metallicize
    } else if s == "Power Through"@ {
        CardId::PowerThrough
    } else if s == "Pummel"@ {
        CardId::Pummel
    } else if s == "Rage"@ {
        CardId::Rage
    } else if s == "Rampage"@ {
        CardId::Rampage
    } else if s == "Reckless Charge"@ {
        CardId::RecklessCharge
    } else if s == "Rupture"@ {
        CardId::Rupture
    } else if s == "Searing Blow"@ {
        CardId::SearingBlow
    } else if s == "Second Wind"@ {
        CardId::SecondWind
    } else if s == "Seeing Red"@ {
        CardId::SeeingRed
    } else if s == "Sentinel"@ {
        CardId::Sentinel
    } else if s == "Sever Soul"@ {
        CardId::SeverSoul
    } else if s == "Shockwave"@ {
        CardId::Shockwave
    } else if s == "Spot Weakness"@ {
        CardId::SpotWeakness
    } else if s == "Uppercut"@ {
        CardId::Uppercut
    } else if s == "Whirlwind"@ {
        CardId::Whirlwind
    } else if s == "Barricade"@ {
        CardId::Barricade
    } else if s == "Berserk"@ {
        CardId::Berserk
    } else if s == "Bludgeon"@ {
        CardId::Bludgeon
    } else if s == "Brutality"@ {
        CardId::Brutality
    } else if s == "Dark Embrace"@ {
        CardId::DarkEmbrace
    } else if s == "Demon Form"@ {
        CardId::DemonForm
    } else if s == "Double Tap"@ {
        CardId::DoubleTap
    } else if s == "Immolate"@ {
        CardId::Immolate
    } else if s == "Impervious"@ {
        CardId::Impervious
    } else if s == "Juggernaut"@ {
        CardId::Juggernaut
    } else if s == "Injury"@ {
        CardId::Injury
    } else if s == "AscendersBane"@ {
        CardId::AscendersBane
    } else if s == "Dazed"@ {
        CardId::Dazed
    } else if s == "Slimed"@ {
        CardId::Slimed
    } else if s == "Burn"@ {
        CardId::Burn
    } else {
        CardId::Injury
    }
}

/// Reads a CommunicationMod card id.
pub fn card_id_from_str(s: &str) -> (id: CardId)
    ensures
        id == spec_card_id_from_str(s@),
{
    if str_equals(s, "Strike_R") {
        CardId::StrikeR
    } else if str_equals(s, "Bash") {
        CardId::Bash
    } else if str_equals(s, "Defend_R") {
        CardId::DefendR
    } else if str_equals(s, "Anger") {
        CardId::Anger
    } else if str_equals(s, "Armaments") {
        CardId::Armaments
    } else if str_equals(s, "Body Slam") {
        CardId::BodySlam
    } else if str_equals(s, "Clash") {
        CardId::Clash
    } else if str_equals(s, "Cleave") {
        CardId::Cleave
    } else if str_equals(s, "Clothesline") {
        CardId::Clothesline
    } else if str_equals(s, "Flex") {
        CardId::Flex
    } else if str_equals(s, "Havoc") {
        CardId::Havoc
    } else if str_equals(s, "Headbutt") {
        CardId::Headbutt
    } else if str_equals(s, "Heavy Blade") {
        CardId::HeavyBlade
    } else if str_equals(s, "Iron Wave") {
        CardId::IronWave
    } else if str_equals(s, "Perfected Strike") {
        CardId::PerfectedStrike
    } else if str_equals(s, "Pommel Strike") {
        CardId::PommelStrike
    } else if str_equals(s, "Shrug It Off") {
        CardId::ShrugItOff
    } else if str_equals(s, "Sword Boomerang") {
        CardId::SwordBoomerang
    } else if str_equals(s, "Thunderclap") {
        CardId::Thunderclap
    } else if str_equals(s, "True Grit") {
        CardId::TrueGrit
    } else if str_equals(s, "Twin Strike") {
        CardId::TwinStrike
    } else if str_equals(s, "Warcry") {
        CardId::Warcry
    } else if str_equals(s, "Wild Strike") {
        CardId::WildStrike
    } else if str_equals(s, "Battle Trance") {
        CardId::BattleTrance
    } else if str_equals(s, "Blood for Blood") {
        CardId::BloodForBlood
    } else if str_equals(s, "Bloodletting") {
        CardId::Bloodletting
    } else if str_equals(s, "Burning Pact") {
        CardId::BurningPact
    } else if str_equals(s, "Carnage") {
        CardId::Carnage
    } else if str_equals(s, "Combust") {
        CardId::Combust
    } else if str_equals(s, "Corruption") {
        CardId::Corruption
    } else if str_equals(s, "Disarm") {
        CardId::Disarm
    } else if str_equals(s, "Dropkick") {
        CardId::Dropkick
    } else if str_equals(s, "Dual Wield") {
        CardId::DualWield
    } else if str_equals(s, "Entrench") {
        CardId::Entrench
    } else if str_equals(s, "Evolve") {
        CardId::Evolve
    } else if str_equals(s, "Feel No Pain") {
        CardId::FeelNoPain
    } else if str_equals(s, "Fire Breathing") {
        CardId::FireBreathing
    } else if str_equals(s, "Flame Barrier") {
        CardId::FlameBarrier
    } else if str_equals(s, "Ghostly Armor") {
        CardId::GhostlyArmor
    } else if str_equals(s, "Hemokinesis") {
        CardId::Hemokinesis
    } else if str_equals(s, "Infernal Blade") {
        CardId::InfernalBlade
    } else if str_equals(s, "Inflame") {
        CardId::Inflame
    } else if str_equals(s, "Intimidate") {
        CardId::Intimidate
    } else if str_equals(s, "Metallicize") {
        CardId::Metallicize
    } else if str_equals(s, "Power Through") {
        CardId::PowerThrough
    } else if str_equals(s, "Pummel") {
        CardId::Pummel
    } else if str_equals(s, "Rage") {
        CardId::Rage
    } else if str_equals(s, "Rampage") {
        CardId::Rampage
    } else if str_equals(s, "Reckless Charge") {
        CardId::RecklessCharge
    } else if str_equals(s, "Rupture") {
        CardId::Rupture
    } else if str_equals(s, "Searing Blow") {
        CardId::SearingBlow
    } else if str_equals(s, "Second Wind") {
        CardId::SecondWind
    } else if str_equals(s, "Seeing Red") {
        CardId::SeeingRed
    } else if str_equals(s, "Sentinel") {
        CardId::Sentinel
    } else if str_equals(s, "Sever Soul") {
        CardId::SeverSoul
    } else if str_equals(s, "Shockwave") {
        CardId::Shockwave
    } else if str_equals(s, "Spot Weakness") {
        CardId::SpotWeakness
    } else if str_equals(s, "Uppercut") {
        CardId::Uppercut
    } else if str_equals(s, "Whirlwind") {
        CardId::Whirlwind
    } else if str_equals(s, "Barricade") {
        CardId::Barricade
    } else if str_equals(s, "Berserk") {
        CardId::Berserk
    } else if str_equals(s, "Bludgeon") {
        CardId::Bludgeon
    } else if str_equals(s, "Brutality") {
        CardId::Brutality
    } else if str_equals(s, "Dark Embrace") {
        CardId::DarkEmbrace
    } else if str_equals(s, "Demon Form") {
        CardId::DemonForm
    } else if str_equals(s, "Double Tap") {
        CardId::DoubleTap
    } else if str_equals(s, "Immolate") {
        CardId::Immolate
    } else if str_equals(s, "Impervious") {
        CardId::Impervious
    } else if str_equals(s, "Juggernaut") {
        CardId::Juggernaut
    } else if str_equals(s, "Injury") {
        CardId::Injury
    } else if str_equals(s, "AscendersBane") {
        CardId::AscendersBane
    } else if str_equals(s, "Dazed") {
        CardId::Dazed
    } else if str_equals(s, "Slimed") {
        CardId::Slimed
    } else if str_equals(s, "Burn") {
        CardId::Burn
    } else {
        CardId::Injury
    }
}

} // verus!

verus! {

use crate::simulation_state::{CombatState, SingleCard};

/// Whether every card in a hand is an attack.
pub open spec fn all_attacks(hand: Seq<SingleCard>) -> bool {
    forall|i: int|
        0 <= i < hand.len() ==> spec_card_info(#[trigger] hand[i].card_id).card_type
            == CardType::Attack
}

/// Card-specific conditions for playing a card: Clash needs a hand of attacks only.
pub open spec fn spec_card_id_playable(id: CardId, state: CombatState) -> bool {
    match id {
        CardId::Clash => all_attacks(state.hand@),
        _ => true,
    }
}

impl CardId {
    /// Whether the card's own condition for being played holds.
    pub fn playable(self, state: &CombatState) -> (playable: bool)
        ensures
            playable == spec_card_id_playable(self, *state),
    {
        match self {
            CardId::Clash => {
                let mut i: usize = 0;
                while i < state.hand.len()
                    invariant
                        self == CardId::Clash,
                        i <= state.hand@.len(),
                        forall|j: int|
                            0 <= j < i ==> spec_card_info(#[trigger] state.hand@[j].card_id).card_type
                                == CardType::Attack,
                    decreases state.hand@.len() - i,
                {
                    let info = card_info(state.hand[i].card_id);
                    match info.card_type {
                        CardType::Attack => {},
                        _ => {
                            assert(!all_attacks(state.hand@)) by {
                                assert(spec_card_info(state.hand@[i as int].card_id).card_type
                                    != CardType::Attack);
                            }
                            return false;
                        },
                    }
                    i = i + 1;
                }
                true
            },
            _ => true,
        }
    }
}

} // verus!

verus! {

use crate::actions::{
    ApplyPowerAction, ArmamentsAction, DamageAction, DamageAllEnemiesAction, DiscardNewCard,
    DrawCards, DynAction, GainBlockAction,
};
use crate::simulation::{
    spec_damage_output, spec_owner_amount, spec_player_block_amount, spec_power_amount,
    spec_target_amount, Amount, CreatureIndex, DamageInfoAllPowers, DamageInfoNoPowers,
    DamageInfoOwnerPowers, DamageType,
};
use crate::simulation_state::PowerId;
use vstd::wrapping::i32_specs;

/// The exact amount behind a pair of integers.
pub open spec fn spec_amount(p: (int, int)) -> Amount {
    Amount { numerator: p.0 as i128, denominator: p.1 as i128 }
}

/// The player's attack on monster `target` for `base` damage, after all powers.
pub open spec fn spec_attack(state: CombatState, target: usize, base: i32) -> DynAction {
    let info = DamageInfoNoPowers {
        damage_type: DamageType::Normal,
        owner: Some(CreatureIndex::Player),
        base,
    };
    DynAction::DamageAction(
        DamageAction {
            target: CreatureIndex::Monster(target),
            info: DamageInfoAllPowers {
                damage_type: DamageType::Normal,
                owner: Some(CreatureIndex::Player),
                base,
                output: spec_damage_output(
                    spec_target_amount(
                        state,
                        DamageType::Normal,
                        spec_owner_amount(state, info),
                        CreatureIndex::Monster(target),
                    ),
                ),
            },
        },
    )
}

/// The player's attack on every monster for `base` damage, after the player's powers.
pub open spec fn spec_attack_monsters(state: CombatState, base: i32) -> DynAction {
    let info = DamageInfoNoPowers {
        damage_type: DamageType::Normal,
        owner: Some(CreatureIndex::Player),
        base,
    };
    DynAction::DamageAllEnemiesAction(
        DamageAllEnemiesAction {
            info: DamageInfoOwnerPowers {
                damage_type: DamageType::Normal,
                owner: Some(CreatureIndex::Player),
                base,
                intermediate: spec_amount(spec_owner_amount(state, info)),
            },
        },
    )
}

/// The player applying `amount` of a power to monster `target`.
pub open spec fn spec_power_target(target: usize, power_id: PowerId, amount: i32) -> DynAction {
    DynAction::ApplyPowerAction(
        ApplyPowerAction {
            source: CreatureIndex::Player,
            target: CreatureIndex::Monster(target),
            power_id,
            amount,
        },
    )
}

/// The player applying `amount` of a power to itself.
pub open spec fn spec_power_self(power_id: PowerId, amount: i32) -> DynAction {
    DynAction::ApplyPowerAction(
        ApplyPowerAction {
            source: CreatureIndex::Player,
            target: CreatureIndex::Player,
            power_id,
            amount,
        },
    )
}

/// The player applying `amount` of a power to every monster, in order.
pub open spec fn spec_power_monsters(state: CombatState, power_id: PowerId, amount: i32) -> Seq<
    DynAction,
> {
    Seq::new(
        state.monsters@.len(),
        |i: int|
            DynAction::ApplyPowerAction(
                ApplyPowerAction {
                    source: CreatureIndex::Player,
                    target: CreatureIndex::Monster(i as usize),
                    power_id,
                    amount,
                },
            ),
    )
}

/// The player gaining the block a card's `amount` gives after Dexterity and Frail.
pub open spec fn spec_block(state: CombatState, amount: i32) -> DynAction {
    DynAction::GainBlockAction(
        GainBlockAction {
            creature_index: CreatureIndex::Player,
            amount: spec_player_block_amount(state, amount),
        },
    )
}

/// A fresh copy of a card.
pub open spec fn spec_created(id: CardId) -> SingleCard {
    SingleCard { misc: 0, cost: spec_card_info(id).normal_cost, upgrades: 0, card_id: id }
}

/// `times` attacks on `target` for `base` damage each.
pub open spec fn spec_repeat_attack(state: CombatState, target: usize, base: i32, times: int) -> Seq<
    DynAction,
> {
    Seq::new(times as nat, |i: int| spec_attack(state, target, base))
}

/// What playing a card queues, in order: `u` is whether the card is upgraded.
pub open spec fn spec_card_actions(state: CombatState, card: SingleCard, target: usize) -> Seq<DynAction> {
    let u = card.upgrades > 0;
    match card.card_id {
        CardId::StrikeR => seq![spec_attack(state, target, (if u { 9i32 } else { 6i32 }))],
        CardId::Bash => seq![spec_attack(state, target, (if u { 10i32 } else { 8i32 }))] + seq![spec_power_target(target, PowerId::Vulnerable, (if u { 3i32 } else { 2i32 }))],
        CardId::DefendR => seq![spec_block(state, (if u { 8i32 } else { 5i32 }))],
        CardId::Anger => seq![spec_attack(state, target, (if u { 8i32 } else { 6i32 }))] + seq![DynAction::DiscardNewCard(DiscardNewCard(card))],
        CardId::Armaments => seq![spec_block(state, 5i32)] + seq![DynAction::ArmamentsAction(ArmamentsAction { upgraded: u })],
        CardId::BodySlam => seq![spec_attack(state, target, state.player.creature.block)],
        CardId::Clash => seq![spec_attack(state, target, (if u { 18i32 } else { 14i32 }))],
        CardId::Cleave => seq![spec_attack_monsters(state, (if u { 11i32 } else { 8i32 }))],
        CardId::Clothesline => seq![spec_attack(state, target, (if u { 14i32 } else { 12i32 }))] + seq![spec_power_target(target, PowerId::Weak, (if u { 3i32 } else { 2i32 }))],
        CardId::Flex => seq![spec_power_self(PowerId::Strength, (if u { 4i32 } else { 2i32 }))],
        CardId::Havoc => seq![],
        CardId::Headbutt => seq![spec_attack(state, target, (if u { 12i32 } else { 9i32 }))],
        CardId::HeavyBlade => seq![spec_attack(state, target, i32_specs::wrapping_add(14, i32_specs::wrapping_mul(spec_power_amount(state.player.creature.powers@, PowerId::Strength), (if u { 4i32 } else { 2i32 }))))],
        CardId::IronWave => seq![spec_attack(state, target, (if u { 7i32 } else { 5i32 }))] + seq![spec_block(state, (if u { 7i32 } else { 5i32 }))],
        CardId::PerfectedStrike => seq![],
        CardId::PommelStrike => seq![spec_attack(state, target, (if u { 10i32 } else { 9i32 }))] + seq![DynAction::DrawCards(DrawCards((if u { 2i32 } else { 1i32 })))],
        CardId::ShrugItOff => seq![spec_block(state, (if u { 11i32 } else { 8i32 }))] + seq![DynAction::DrawCards(DrawCards(1i32))],
        CardId::SwordBoomerang => seq![],
        CardId::Thunderclap => seq![spec_attack_monsters(state, (if u { 7i32 } else { 4i32 }))] + spec_power_monsters(state, PowerId::Vulnerable, 1i32),
        CardId::TrueGrit => seq![spec_block(state, (if u { 9i32 } else { 7i32 }))],
        CardId::TwinStrike => seq![spec_attack(state, target, (if u { 7i32 } else { 5i32 }))] + seq![spec_attack(state, target, (if u { 7i32 } else { 5i32 }))],
        CardId::Warcry => seq![],
        CardId::WildStrike => seq![spec_attack(state, target, (if u { 17i32 } else { 12i32 }))],
        CardId::BattleTrance => seq![DynAction::DrawCards(DrawCards((if u { 4i32 } else { 3i32 })))] + seq![spec_power_self(PowerId::NoDraw, -1i32)],
        CardId::BloodForBlood => seq![spec_attack(state, target, (if u { 22i32 } else { 18i32 }))],
        CardId::Bloodletting => seq![],
        CardId::BurningPact => seq![],
        CardId::Carnage => seq![spec_attack(state, target, (if u { 28i32 } else { 20i32 }))],
        CardId::Combust => seq![spec_power_self(PowerId::Combust, (if u { 7i32 } else { 5i32 }))],
        CardId::Corruption => seq![spec_power_self(PowerId::Corruption, -1i32)],
        CardId::Disarm => seq![spec_power_target(target, PowerId::Strength, (if u { -3i32 } else { -2i32 }))],
        CardId::Dropkick => seq![spec_attack(state, target, (if u { 8i32 } else { 5i32 }))],
        CardId::DualWield => seq![],
        CardId::Entrench => seq![],
        CardId::Evolve => seq![spec_power_self(PowerId::Evolve, (if u { 2i32 } else { 1i32 }))],
        CardId::FeelNoPain => seq![spec_power_self(PowerId::FeelNoPain, (if u { 4i32 } else { 3i32 }))],
        CardId::FireBreathing => seq![spec_power_self(PowerId::FireBreathing, 1i32)],
        CardId::FlameBarrier => seq![spec_block(state, (if u { 16i32 } else { 12i32 }))] + seq![spec_power_self(PowerId::FlameBarrier, (if u { 6i32 } else { 4i32 }))],
        CardId::GhostlyArmor => seq![spec_block(state, (if u { 13i32 } else { 10i32 }))],
        CardId::Hemokinesis => seq![spec_attack(state, target, (if u { 18i32 } else { 14i32 }))],
        CardId::InfernalBlade => seq![],
        CardId::Inflame => seq![spec_power_self(PowerId::Strength, (if u { 3i32 } else { 2i32 }))],
        CardId::Intimidate => spec_power_monsters(state, PowerId::Weak, (if u { 2i32 } else { 1i32 })),
        CardId::Metallicize => seq![spec_power_self(PowerId::Metallicize, (if u { 4i32 } else { 3i32 }))],
        CardId::PowerThrough => seq![spec_block(state, (if u { 20i32 } else { 15i32 }))],
        CardId::Pummel => spec_repeat_attack(state, target, 2, if u { 5 } else { 4 }),
        CardId::Rage => seq![spec_power_self(PowerId::Rage, (if u { 5i32 } else { 3i32 }))],
        CardId::Rampage => seq![spec_attack(state, target, 8i32)],
        CardId::RecklessCharge => seq![spec_attack(state, target, (if u { 10i32 } else { 7i32 }))],
        CardId::Rupture => seq![],
        CardId::SearingBlow => seq![spec_attack(state, target, (if u { 16i32 } else { 12i32 }))],
        CardId::SecondWind => seq![],
        CardId::SeeingRed => seq![],
        CardId::Sentinel => seq![spec_block(state, (if u { 8i32 } else { 5i32 }))],
        CardId::SeverSoul => seq![spec_attack(state, target, (if u { 20i32 } else { 16i32 }))],
        CardId::Shockwave => spec_power_monsters(state, PowerId::Weak, (if u { 5i32 } else { 3i32 })) + spec_power_monsters(state, PowerId::Vulnerable, (if u { 5i32 } else { 3i32 })),
        CardId::SpotWeakness => seq![],
        CardId::Uppercut => seq![spec_attack(state, target, 13i32)] + seq![spec_power_target(target, PowerId::Weak, (if u { 2i32 } else { 1i32 }))] + seq![spec_power_target(target, PowerId::Vulnerable, (if u { 2i32 } else { 1i32 }))],
        CardId::Whirlwind => seq![],
        CardId::Barricade => seq![spec_power_self(PowerId::Barricade, -1i32)],
        CardId::Berserk => seq![spec_power_self(PowerId::Berserk, 1i32)] + seq![spec_power_self(PowerId::Vulnerable, (if u { 1i32 } else { 2i32 }))],
        CardId::Bludgeon => seq![spec_attack(state, target, (if u { 42i32 } else { 32i32 }))],
        CardId::Brutality => seq![spec_power_self(PowerId::Brutality, 1i32)],
        CardId::DarkEmbrace => seq![spec_power_self(PowerId::DarkEmbrace, 1i32)],
        CardId::DemonForm => seq![spec_power_self(PowerId::DemonForm, (if u { 3i32 } else { 2i32 }))],
        CardId::DoubleTap => seq![spec_power_self(PowerId::DoubleTap, (if u { 2i32 } else { 1i32 }))],
        CardId::Immolate => seq![spec_attack(state, target, (if u { 28i32 } else { 21i32 }))] + seq![DynAction::DiscardNewCard(DiscardNewCard(spec_created(CardId::Burn)))],
        CardId::Impervious => seq![spec_block(state, (if u { 40i32 } else { 30i32 }))],
        CardId::Juggernaut => seq![spec_power_self(PowerId::Juggernaut, (if u { 7i32 } else { 5i32 }))],
        CardId::Injury => seq![],
        CardId::AscendersBane => seq![],
        CardId::Dazed => seq![],
        CardId::Slimed => seq![],
        CardId::Burn => seq![],
    }
}


/// The player's attack on monster `target` for `base` damage.
pub fn attack_action(state: &CombatState, target: usize, base: i32) -> (action: DynAction)
    requires
        state.wf(),
        target < state.monsters@.len(),
    ensures
        action == spec_attack(*state, target, base),
{
    let info = DamageInfoNoPowers::new(Some(CreatureIndex::Player), base, DamageType::Normal);
    DynAction::DamageAction(
        DamageAction {
            target: CreatureIndex::Monster(target),
            info: info.apply_all_powers(state, CreatureIndex::Monster(target)),
        },
    )
}

/// The player's attack on every monster for `base` damage.
pub fn attack_monsters_action(state: &CombatState, base: i32) -> (action: DynAction)
    requires
        state.wf(),
    ensures
        action == spec_attack_monsters(*state, base),
{
    let info = DamageInfoNoPowers::new(Some(CreatureIndex::Player), base, DamageType::Normal);
    let owner = info.apply_owner_powers(state);
    proof {
        assert(owner.intermediate == spec_amount(owner.intermediate.pair()));
    }
    DynAction::DamageAllEnemiesAction(DamageAllEnemiesAction { info: owner })
}

/// The player applying a power to monster `target`.
pub fn power_target_action(target: usize, power_id: PowerId, amount: i32) -> (action: DynAction)
    ensures
        action == spec_power_target(target, power_id, amount),
{
    DynAction::ApplyPowerAction(
        ApplyPowerAction {
            source: CreatureIndex::Player,
            target: CreatureIndex::Monster(target),
            power_id,
            amount,
        },
    )
}

/// The player applying a power to itself.
pub fn power_self_action(power_id: PowerId, amount: i32) -> (action: DynAction)
    ensures
        action == spec_power_self(power_id, amount),
{
    DynAction::ApplyPowerAction(
        ApplyPowerAction {
            source: CreatureIndex::Player,
            target: CreatureIndex::Player,
            power_id,
            amount,
        },
    )
}

/// Appends the player applying a power to every monster.
pub fn push_power_monsters(state: &CombatState, actions: &mut Vec<DynAction>, power_id: PowerId, amount: i32)
    ensures
        final(actions)@ == old(actions)@ + spec_power_monsters(*state, power_id, amount),
{
    let ghost start = actions@;
    let mut index: usize = 0;
    while index < state.monsters.len()
        invariant
            index <= state.monsters@.len(),
            actions@ == start + spec_power_monsters(*state, power_id, amount).subrange(0, index as int),
        decreases state.monsters@.len() - index,
    {
        actions.push(
            DynAction::ApplyPowerAction(
                ApplyPowerAction {
                    source: CreatureIndex::Player,
                    target: CreatureIndex::Monster(index),
                    power_id,
                    amount,
                },
            ),
        );
        index = index + 1;
        assert(actions@ =~= start + spec_power_monsters(*state, power_id, amount).subrange(0, index as int));
    }
    assert(spec_power_monsters(*state, power_id, amount).subrange(0, state.monsters@.len() as int)
        =~= spec_power_monsters(*state, power_id, amount));
}

/// The player gaining block from a card's `amount`.
pub fn block_action(state: &CombatState, amount: i32) -> (action: DynAction)
    requires
        state.wf(),
    ensures
        action == spec_block(*state, amount),
{
    DynAction::GainBlockAction(
        GainBlockAction {
            creature_index: CreatureIndex::Player,
            amount: state.player_block_amount(amount),
        },
    )
}

/// Appends `times` attacks on `target`.
pub fn push_repeat_attack(state: &CombatState, actions: &mut Vec<DynAction>, target: usize, base: i32, times: i32)
    requires
        state.wf(),
        target < state.monsters@.len(),
        times >= 0,
    ensures
        final(actions)@ == old(actions)@ + spec_repeat_attack(*state, target, base, times as int),
{
    let ghost start = actions@;
    let mut k: i32 = 0;
    while k < times
        invariant
            0 <= k <= times,
            state.wf(),
            target < state.monsters@.len(),
            actions@ == start + spec_repeat_attack(*state, target, base, k as int),
        decreases times - k,
    {
        actions.push(attack_action(state, target, base));
        k = k + 1;
        assert(actions@ =~= start + spec_repeat_attack(*state, target, base, k as int));
    }
}

/// Whether playing the card attacks the monster at its target: every targeted card, and
/// Immolate, which hits the monster at place 0 though it takes no target.
pub open spec fn spec_card_hits_target(id: CardId) -> bool {
    spec_card_info(id).has_target || id == CardId::Immolate
}

/// The actions playing `card` at `target` queues, in order.
pub fn card_behavior_actions(state: &CombatState, card: &SingleCard, target: usize) -> (actions: Vec<DynAction>)
    requires
        state.wf(),
        spec_card_hits_target(card.card_id) ==> target < state.monsters@.len(),
    ensures
        actions@ == spec_card_actions(*state, *card, target),
{
    let u = card.upgrades > 0;
    let mut a: Vec<DynAction> = Vec::new();
    match card.card_id {
        CardId::StrikeR => {
            a.push(attack_action(state, target, if u { 9 } else { 6 }));
        },
        CardId::Bash => {
            a.push(attack_action(state, target, if u { 10 } else { 8 }));
            a.push(power_target_action(target, PowerId::Vulnerable, if u { 3 } else { 2 }));
        },
        CardId::DefendR => {
            a.push(block_action(state, if u { 8 } else { 5 }));
        },
        CardId::Anger => {
            a.push(attack_action(state, target, if u { 8 } else { 6 }));
            a.push(DynAction::DiscardNewCard(DiscardNewCard(*card)));
        },
        CardId::Armaments => {
            a.push(block_action(state, 5));
            a.push(DynAction::ArmamentsAction(ArmamentsAction { upgraded: u }));
        },
        CardId::BodySlam => {
            a.push(attack_action(state, target, state.player.creature.block));
        },
        CardId::Clash => {
            a.push(attack_action(state, target, if u { 18 } else { 14 }));
        },
        CardId::Cleave => {
            a.push(attack_monsters_action(state, if u { 11 } else { 8 }));
        },
        CardId::Clothesline => {
            a.push(attack_action(state, target, if u { 14 } else { 12 }));
            a.push(power_target_action(target, PowerId::Weak, if u { 3 } else { 2 }));
        },
        CardId::Flex => {
            a.push(power_self_action(PowerId::Strength, if u { 4 } else { 2 }));
        },
        CardId::Havoc => {
        },
        CardId::Headbutt => {
            a.push(attack_action(state, target, if u { 12 } else { 9 }));
        },
        CardId::HeavyBlade => {
            let strength = state.player.creature.power_amount(PowerId::Strength);
            let multiplier: i32 = if u { 4 } else { 2 };
            a.push(attack_action(state, target, 14i32.wrapping_add(strength.wrapping_mul(multiplier))));
        },
        CardId::IronWave => {
            a.push(attack_action(state, target, if u { 7 } else { 5 }));
            a.push(block_action(state, if u { 7 } else { 5 }));
        },
        CardId::PerfectedStrike => {
        },
        CardId::PommelStrike => {
            a.push(attack_action(state, target, if u { 10 } else { 9 }));
            a.push(DynAction::DrawCards(DrawCards(if u { 2 } else { 1 })));
        },
        CardId::ShrugItOff => {
            a.push(block_action(state, if u { 11 } else { 8 }));
            a.push(DynAction::DrawCards(DrawCards(1)));
        },
        CardId::SwordBoomerang => {
        },
        CardId::Thunderclap => {
            a.push(attack_monsters_action(state, if u { 7 } else { 4 }));
            push_power_monsters(state, &mut a, PowerId::Vulnerable, 1);
        },
        CardId::TrueGrit => {
            a.push(block_action(state, if u { 9 } else { 7 }));
        },
        CardId::TwinStrike => {
            a.push(attack_action(state, target, if u { 7 } else { 5 }));
            a.push(attack_action(state, target, if u { 7 } else { 5 }));
        },
        CardId::Warcry => {
        },
        CardId::WildStrike => {
            a.push(attack_action(state, target, if u { 17 } else { 12 }));
        },
        CardId::BattleTrance => {
            a.push(DynAction::DrawCards(DrawCards(if u { 4 } else { 3 })));
            a.push(power_self_action(PowerId::NoDraw, -1));
        },
        CardId::BloodForBlood => {
            a.push(attack_action(state, target, if u { 22 } else { 18 }));
        },
        CardId::Bloodletting => {
        },
        CardId::BurningPact => {
        },
        CardId::Carnage => {
            a.push(attack_action(state, target, if u { 28 } else { 20 }));
        },
        CardId::Combust => {
            a.push(power_self_action(PowerId::Combust, if u { 7 } else { 5 }));
        },
        CardId::Corruption => {
            a.push(power_self_action(PowerId::Corruption, -1));
        },
        CardId::Disarm => {
            a.push(power_target_action(target, PowerId::Strength, if u { -3 } else { -2 }));
        },
        CardId::Dropkick => {
            a.push(attack_action(state, target, if u { 8 } else { 5 }));
        },
        CardId::DualWield => {
        },
        CardId::Entrench => {
        },
        CardId::Evolve => {
            a.push(power_self_action(PowerId::Evolve, if u { 2 } else { 1 }));
        },
        CardId::FeelNoPain => {
            a.push(power_self_action(PowerId::FeelNoPain, if u { 4 } else { 3 }));
        },
        CardId::FireBreathing => {
            a.push(power_self_action(PowerId::FireBreathing, 1));
        },
        CardId::FlameBarrier => {
            a.push(block_action(state, if u { 16 } else { 12 }));
            a.push(power_self_action(PowerId::FlameBarrier, if u { 6 } else { 4 }));
        },
        CardId::GhostlyArmor => {
            a.push(block_action(state, if u { 13 } else { 10 }));
        },
        CardId::Hemokinesis => {
            a.push(attack_action(state, target, if u { 18 } else { 14 }));
        },
        CardId::InfernalBlade => {
        },
        CardId::Inflame => {
            a.push(power_self_action(PowerId::Strength, if u { 3 } else { 2 }));
        },
        CardId::Intimidate => {
            push_power_monsters(state, &mut a, PowerId::Weak, if u { 2 } else { 1 });
        },
        CardId::Metallicize => {
            a.push(power_self_action(PowerId::Metallicize, if u { 4 } else { 3 }));
        },
        CardId::PowerThrough => {
            a.push(block_action(state, if u { 20 } else { 15 }));
        },
        CardId::Pummel => {
            push_repeat_attack(state, &mut a, target, 2, if u { 5 } else { 4 });
        },
        CardId::Rage => {
            a.push(power_self_action(PowerId::Rage, if u { 5 } else { 3 }));
        },
        CardId::Rampage => {
            a.push(attack_action(state, target, 8));
        },
        CardId::RecklessCharge => {
            a.push(attack_action(state, target, if u { 10 } else { 7 }));
        },
        CardId::Rupture => {
        },
        CardId::SearingBlow => {
            a.push(attack_action(state, target, if u { 16 } else { 12 }));
        },
        CardId::SecondWind => {
        },
        CardId::SeeingRed => {
        },
        CardId::Sentinel => {
            a.push(block_action(state, if u { 8 } else { 5 }));
        },
        CardId::SeverSoul => {
            a.push(attack_action(state, target, if u { 20 } else { 16 }));
        },
        CardId::Shockwave => {
            push_power_monsters(state, &mut a, PowerId::Weak, if u { 5 } else { 3 });
            push_power_monsters(state, &mut a, PowerId::Vulnerable, if u { 5 } else { 3 });
        },
        CardId::SpotWeakness => {
        },
        CardId::Uppercut => {
            a.push(attack_action(state, target, 13));
            a.push(power_target_action(target, PowerId::Weak, if u { 2 } else { 1 }));
            a.push(power_target_action(target, PowerId::Vulnerable, if u { 2 } else { 1 }));
        },
        CardId::Whirlwind => {
        },
        CardId::Barricade => {
            a.push(power_self_action(PowerId::Barricade, -1));
        },
        CardId::Berserk => {
            a.push(power_self_action(PowerId::Berserk, 1));
            a.push(power_self_action(PowerId::Vulnerable, if u { 1 } else { 2 }));
        },
        CardId::Bludgeon => {
            a.push(attack_action(state, target, if u { 42 } else { 32 }));
        },
        CardId::Brutality => {
            a.push(power_self_action(PowerId::Brutality, 1));
        },
        CardId::DarkEmbrace => {
            a.push(power_self_action(PowerId::DarkEmbrace, 1));
        },
        CardId::DemonForm => {
            a.push(power_self_action(PowerId::DemonForm, if u { 3 } else { 2 }));
        },
        CardId::DoubleTap => {
            a.push(power_self_action(PowerId::DoubleTap, if u { 2 } else { 1 }));
        },
        CardId::Immolate => {
            a.push(attack_action(state, target, if u { 28 } else { 21 }));
            a.push(DynAction::DiscardNewCard(DiscardNewCard(SingleCard::create(CardId::Burn))));
        },
        CardId::Impervious => {
            a.push(block_action(state, if u { 40 } else { 30 }));
        },
        CardId::Juggernaut => {
            a.push(power_self_action(PowerId::Juggernaut, if u { 7 } else { 5 }));
        },
        CardId::Injury => {
        },
        CardId::AscendersBane => {
        },
        CardId::Dazed => {
        },
        CardId::Slimed => {
        },
        CardId::Burn => {
        },
    }
    proof {
        assert(a@ =~= spec_card_actions(*state, *card, target));
    }
    a
}

/// The block playing `card` at `target` would give: the sum of its block actions
/// (sums wrap like `i32` addition).
pub open spec fn spec_block_total(actions: Seq<DynAction>) -> i32
    decreases actions.len(),
{
    if actions.len() == 0 {
        0
    } else {
        let previous = spec_block_total(actions.drop_last());
        match actions.last() {
            DynAction::GainBlockAction(a) => i32_specs::wrapping_add(previous, a.amount),
            _ => previous,
        }
    }
}

/// The total block the actions of playing `card` at `target` give.
pub fn card_block_amount(state: &CombatState, card: &SingleCard, target: usize) -> (total: i32)
    requires
        state.wf(),
        target < state.monsters@.len(),
    ensures
        total == spec_block_total(spec_card_actions(*state, *card, target)),
{
    let actions = card_behavior_actions(state, card, target);
    let mut total: i32 = 0;
    let mut i: usize = 0;
    while i < actions.len()
        invariant
            i <= actions@.len(),
            total == spec_block_total(actions@.subrange(0, i as int)),
        decreases actions@.len() - i,
    {
        assert(actions@.subrange(0, i + 1).drop_last() =~= actions@.subrange(0, i as int));
        match actions[i] {
            DynAction::GainBlockAction(a) => {
                total = total.wrapping_add(a.amount);
            },
            _ => {},
        }
        i = i + 1;
    }
    assert(actions@.subrange(0, actions@.len() as int) =~= actions@);
    total
}

} // verus!
