use borg_the_spire::simulation_state::cards::{card_id_from_str, card_info};
use std::collections::hash_map::DefaultHasher;
use std::hash::Hasher;
use borg_the_spire::simulation_state::{
    compare_cards_unordered, sorted_cards, CardId, CardInfo, CardType, Rarity, SingleCard,
};

fn card(id: CardId, upgrades: i32) -> SingleCard {
    let mut c = SingleCard::create(id);
    if upgrades > 0 {
        c.upgrade();
    }
    c
}

#[test]
fn card_ids_read_from_names() {
    assert_eq!(card_id_from_str("Strike_R"), CardId::StrikeR);
    assert_eq!(card_id_from_str("Bash"), CardId::Bash);
    assert_eq!(card_id_from_str("Burn"), CardId::Burn);
}

#[test]
fn card_table_entries() {
    let strike = card_info(CardId::StrikeR);
    assert_eq!(strike.card_type, CardType::Attack);
    assert_eq!(strike.rarity, Rarity::Basic);
    assert_eq!(strike.normal_cost, 1);
    assert!(strike.has_target);
    let defend = card_info(CardId::DefendR);
    assert_eq!(defend.card_type, CardType::Skill);
    assert!(!defend.has_target);
    let body_slam = card_info(CardId::BodySlam);
    assert_eq!(body_slam.normal_cost, 1);
    assert_eq!(body_slam.upgraded_cost, 0);
}

#[test]
fn unknown_card_info_is_an_unplayable_curse() {
    let info = CardInfo::default();
    assert_eq!(info.id, CardId::Injury);
    assert_eq!(info.card_type, CardType::Curse);
    assert_eq!(info.normal_cost, -2);
    assert_eq!(info.upgraded_cost, -3);
}

#[test]
fn created_cards_cost_their_normal_cost() {
    let c = SingleCard::create(CardId::BodySlam);
    assert_eq!(c.cost, 1);
    assert_eq!(c.upgrades, 0);
    assert_eq!(c.misc, 0);
    assert_eq!(c.start_combat_cost(), 1);
}

#[test]
fn upgrades_change_the_start_of_combat_cost() {
    let mut c = SingleCard::create(CardId::BodySlam);
    c.upgrade();
    assert_eq!(c.upgrades, 1);
    assert_eq!(c.cost, 1);
    assert_eq!(c.start_combat_cost(), 0);
}

#[test]
fn upgrading_twice_is_upgrading_once() {
    let mut c = SingleCard::create(CardId::Bash);
    c.upgrade();
    let once = c;
    c.upgrade();
    assert_eq!(c, once);
}

#[test]
fn piles_compare_without_order() {
    let a = vec![card(CardId::StrikeR, 0), card(CardId::DefendR, 0), card(CardId::StrikeR, 1)];
    let b = vec![card(CardId::StrikeR, 1), card(CardId::StrikeR, 0), card(CardId::DefendR, 0)];
    assert!(compare_cards_unordered(&a, &b));
    let c = vec![card(CardId::StrikeR, 0), card(CardId::DefendR, 0), card(CardId::DefendR, 0)];
    assert!(!compare_cards_unordered(&a, &c));
    let d = vec![card(CardId::StrikeR, 0), card(CardId::DefendR, 0)];
    assert!(!compare_cards_unordered(&a, &d));
    assert!(compare_cards_unordered(&[], &[]));
}

#[test]
fn sorted_cards_follow_the_field_order() {
    let a = vec![card(CardId::DefendR, 0), card(CardId::StrikeR, 1), card(CardId::StrikeR, 0)];
    let sorted = sorted_cards(&a);
    assert_eq!(
        sorted,
        vec![card(CardId::StrikeR, 0), card(CardId::DefendR, 0), card(CardId::StrikeR, 1)]
    );
}

#[test]
fn equal_piles_hash_alike() {
    let a = vec![card(CardId::StrikeR, 0), card(CardId::DefendR, 0), card(CardId::Bash, 0)];
    let b = vec![card(CardId::Bash, 0), card(CardId::StrikeR, 0), card(CardId::DefendR, 0)];
    let mut ha = DefaultHasher::new();
    borg_the_spire::simulation_state::hash_cards_unordered(&a, &mut ha);
    let mut hb = DefaultHasher::new();
    borg_the_spire::simulation_state::hash_cards_unordered(&b, &mut hb);
    assert_eq!(ha.finish(), hb.finish());
}
