use roguelike::combat::{AttackDice, Defense, HitPoints, MaxHitPoints, Strength};
use roguelike::records::{InventoryDbNoID, PlayerDbNoID, SavedWeapon, WeaponGenerationProgress};

#[test]
fn player_record_round_trips_stats() {
    let r = PlayerDbNoID::from_stats("Ada".to_string(), HitPoints(40), MaxHitPoints(60), Defense(1), Strength(3));
    assert_eq!(r.name, "Ada");
    let b = r.combatant_bundle(AttackDice::new(5, 3, 0));
    assert_eq!(b.hp, HitPoints(40));
    assert_eq!(b.max_hp, MaxHitPoints(60));
    assert_eq!(b.defense, Defense(1));
    assert_eq!(b.strength, Strength(3));
    assert_eq!(InventoryDbNoID { gold: 7 }.gold, 7);
}

#[test]
fn loading_bar_stops_at_100() {
    let mut p = WeaponGenerationProgress(98);
    p.update_loading_bar(false);
    assert_eq!(p.0, 98);
    p.update_loading_bar(true);
    p.update_loading_bar(true);
    p.update_loading_bar(true);
    assert_eq!(p.0, 100);
}

#[test]
fn weapon_is_saved_once() {
    let mut s = SavedWeapon(false);
    assert!(s.claim_save());
    assert!(!s.claim_save());
    assert!(s.0);
}
