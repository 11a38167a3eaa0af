use hex_arena::building::BuildingSettings;
use hex_arena::bullet::bullet_tower_collision;
use hex_arena::health::Health;
use hex_arena::hex::HexCoord;
use hex_arena::scalar::SCALE;
use hex_arena::score::{IncreaseScoreEvent, PlayerScore};
use hex_arena::spatial::SpatialIndex;
use hex_arena::tower::{Tower, TowerKind};

fn hex(q: i32, r: i32) -> HexCoord {
    HexCoord { q, r }
}

#[test]
fn health_damage_and_death() {
    let mut h = Health::new(5);
    assert!(!h.apply_damage(3));
    assert_eq!(h.current, 2);
    // the killing blow reports death; overkill is lost
    assert!(h.apply_damage(10));
    assert_eq!(h.current, 0);
    // a dead unit takes no further damage and reports no second death
    assert!(!h.apply_damage(1));
    assert_eq!(h.current, 0);
}

#[test]
fn health_heal_caps_and_skips_dead() {
    let mut h = Health::new(5);
    let _ = h.apply_damage(3);
    h.apply_heal(1);
    assert_eq!(h.current, 3);
    h.apply_heal(100);
    assert_eq!(h.current, 5);
    let mut dead = Health::new(5);
    let _ = dead.apply_damage(5);
    dead.apply_heal(3);
    assert_eq!(dead.current, 0);
    // the default unit has a single hit point
    let d = Health::default();
    assert_eq!((d.current, d.max), (1, 1));
}

#[test]
fn score_multiplies_chain_and_combo() {
    let mut s = PlayerScore::default();
    // first hit: chain 2, combo floor of 1: 10 * (1+2) * 1 = 30
    s.increase_score(IncreaseScoreEvent {
        score: 10,
        chain_length: 2,
    });
    assert_eq!(s.score, 30);
    assert_eq!(s.combo, 1);
    assert_eq!(s.highest_combo, 1);
    assert_eq!(s.highest_chain, 2);
    // second hit: 10 * (1+0) * 1 = 10
    s.increase_score(IncreaseScoreEvent {
        score: 10,
        chain_length: 0,
    });
    assert_eq!(s.score, 40);
    assert_eq!(s.combo, 2);
    assert_eq!(s.highest_chain, 2);
}

#[test]
fn combo_expires_between_hits() {
    let mut s = PlayerScore::default();
    s.increase_score(IncreaseScoreEvent {
        score: 1,
        chain_length: 0,
    });
    assert_eq!(s.combo, 1);
    // half the window: combo survives
    assert!(!s.tick_combo(SCALE / 2));
    assert_eq!(s.combo, 1);
    // the rest of the window: combo resets
    assert!(s.tick_combo(SCALE / 2));
    assert_eq!(s.combo, 0);
}

#[test]
fn building_selection_and_placement() {
    let mut settings = BuildingSettings::default();
    assert!(settings.get_selected().is_none());
    settings.add_tower(TowerKind::Bullet2);
    settings.add_tower(TowerKind::Explosion1);
    settings.selected_tower = Some(1);
    assert_eq!(settings.get_selected(), Some(TowerKind::Explosion1));

    let mut idx = SpatialIndex::new(20);
    assert!(settings.place_building(&mut idx, hex(0, 0), 50));
    // the tower left the inventory and the selection cleared
    assert_eq!(settings.towers, vec![TowerKind::Bullet2]);
    assert!(settings.selected_tower.is_none());
    assert_eq!(idx.placement_get(hex(0, 0)), Some(50));
    // nothing selected: no placement
    assert!(!settings.place_building(&mut idx, hex(1, 0), 51));
    // occupied cell: no placement, inventory untouched
    settings.selected_tower = Some(0);
    assert!(!settings.place_building(&mut idx, hex(0, 0), 51));
    assert_eq!(settings.towers, vec![TowerKind::Bullet2]);
}

#[test]
fn bullet_triggers_each_tower_once() {
    let mut idx = SpatialIndex::new(20);
    assert!(idx.try_place(
        hex(1, 0),
        30,
        Tower {
            kind: TowerKind::Bullet2,
            rotation: 0,
        }
    ));
    let mut history: Vec<u64> = Vec::new();
    // no tower here: nothing happens
    assert!(bullet_tower_collision(&idx, hex(0, 0), &mut history).is_none());
    assert!(history.is_empty());
    // the tower's cell: the trigger request carries the pre-append history
    let ev = bullet_tower_collision(&idx, hex(1, 0), &mut history)
        .expect("the bullet hits the tower");
    assert_eq!(ev.target, 30);
    assert!(ev.trigger_history.is_empty());
    assert_eq!(history, vec![30]);
    // the same bullet passing the same tower again does not re-trigger
    assert!(bullet_tower_collision(&idx, hex(1, 0), &mut history).is_none());
    assert_eq!(history, vec![30]);
}
