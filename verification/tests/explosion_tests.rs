use hex_arena::explosion::{Explosion, ExplosionDamageArea, UnitInfo};
use hex_arena::force::ForceEmitter;
use hex_arena::hex::HexCoord;
use hex_arena::propagate::CreateExplosionCommand;
use hex_arena::scalar::{SCALAR_MAX, SCALE};
use hex_arena::spatial::SpatialIndex;
use hex_arena::timer::Timer;
use hex_arena::tower::{Tower, TowerKind};
use hex_arena::Team;

fn hex(q: i32, r: i32) -> HexCoord {
    HexCoord { q, r }
}

fn stock_explosion(area: ExplosionDamageArea, history: Vec<u64>) -> (Explosion, ForceEmitter) {
    Explosion::from_command(CreateExplosionCommand {
        team: Team::Player,
        center: hex(0, 0),
        duration: SCALE / 2,
        damage: 1,
        damage_area: area,
        damage_delay: SCALE / 10,
        radius: SCALE,
        strength: 50 * SCALE,
        strength_modifier: -100 * SCALE,
        trigger_history: history,
    })
}

#[test]
fn hex_range_of_areas() {
    assert_eq!(ExplosionDamageArea::Hex(3).hex_range(), 3);
    assert_eq!(ExplosionDamageArea::Radius(SCALE).hex_range(), 1);
    // radii round up to whole cells
    assert_eq!(ExplosionDamageArea::Radius(SCALE + 1).hex_range(), 2);
    assert_eq!(ExplosionDamageArea::Radius(0).hex_range(), 0);
}

#[test]
fn update_modulates_strength_and_expires() {
    let (mut explosion, mut emitter) =
        stock_explosion(ExplosionDamageArea::Hex(1), Vec::new());
    // a tenth of a second at -100/s sheds 10.0 of strength
    let expired = explosion.update(&mut emitter, SCALE / 10);
    assert!(!expired);
    assert_eq!(emitter.strength, 40 * SCALE);
    // strength clamps at zero rather than going negative
    let expired = explosion.update(&mut emitter, SCALE / 5);
    assert!(!expired);
    assert_eq!(emitter.strength, 20 * SCALE);
    let expired = explosion.update(&mut emitter, SCALE / 5);
    assert!(expired || emitter.strength == 0);
    // the lifetime (0.5 s) has now fully elapsed
    let expired = explosion.update(&mut emitter, SCALE);
    assert!(expired);
}

/// An explosion with a two-ring hex area centered on (0,0) damages every
/// opposing object within the disk exactly once when its delay fires, and
/// each tower in the disk gets exactly one trigger request carrying the
/// explosion's history; the fired tower's signal then appends its own id.
#[test]
fn damage_pulse_covers_the_disk_once() {
    let mut idx = SpatialIndex::new(20);
    // enemies in and around the disk of radius 2
    assert!(idx.track(1, hex(0, 0)));
    assert!(idx.track(2, hex(2, 0)));
    assert!(idx.track(3, hex(0, -2)));
    assert!(idx.track(4, hex(3, 0))); // outside the disk
    assert!(idx.track(5, hex(1, 0))); // friendly
    // a tower inside the disk and one outside
    assert!(idx.try_place(
        hex(1, 1),
        30,
        Tower {
            kind: TowerKind::Bullet2,
            rotation: 0,
        }
    ));
    assert!(idx.try_place(
        hex(4, 0),
        31,
        Tower {
            kind: TowerKind::Bullet2,
            rotation: 0,
        }
    ));
    let units = vec![
        UnitInfo { id: 1, team: Team::Enemy, x: 0, y: 0 },
        UnitInfo { id: 2, team: Team::Enemy, x: 2 * SCALE, y: 0 },
        UnitInfo { id: 3, team: Team::Enemy, x: 0, y: -2 * SCALE },
        UnitInfo { id: 4, team: Team::Enemy, x: 3 * SCALE, y: 0 },
        UnitInfo { id: 5, team: Team::Player, x: SCALE, y: 0 },
    ];
    let (mut explosion, _emitter) =
        stock_explosion(ExplosionDamageArea::Hex(2), vec![77]);
    // first tick: delay not yet crossed
    let out = explosion.apply_damage(SCALE / 20, &idx, hex(0, 0), 0, 0, 99, &units);
    assert!(!out.fired);
    assert!(out.damage.is_empty());
    assert!(out.triggers.is_empty());
    // second tick crosses the delay: the pulse fires exactly once
    let out = explosion.apply_damage(SCALE / 20, &idx, hex(0, 0), 0, 0, 99, &units);
    assert!(out.fired);
    assert_eq!(out.chain_length, 1);
    let mut hit: Vec<u64> = out.damage.iter().map(|d| d.target).collect();
    hit.sort();
    assert_eq!(hit, vec![1, 2, 3]);
    for d in &out.damage {
        assert_eq!(d.damage, 1);
    }
    // exactly one trigger request, for the tower inside the disk, carrying
    // the explosion's own history
    assert_eq!(out.triggers.len(), 1);
    assert_eq!(out.triggers[0].target, 30);
    assert_eq!(out.triggers[0].trigger_history, vec![77]);
    // the engine then appends the tower's own id to the signal
    let fired = hex_arena::propagate::trigger(&idx, &out.triggers[0]).expect("the tower fires");
    assert_eq!(fired.signal.trigger_history, vec![77, 30]);
    // and a later tick never fires the pulse again
    let out = explosion.apply_damage(SCALE, &idx, hex(0, 0), 0, 0, 99, &units);
    assert!(!out.fired);
    assert!(out.damage.is_empty());
}

#[test]
fn damage_pulse_excludes_own_object_and_radius_misses() {
    let mut idx = SpatialIndex::new(20);
    assert!(idx.track(1, hex(0, 0)));
    assert!(idx.track(2, hex(1, 0)));
    let units = vec![
        UnitInfo { id: 1, team: Team::Enemy, x: 0, y: 0 },
        // inside the one-ring disk but outside the exact world radius
        UnitInfo {
            id: 2,
            team: Team::Enemy,
            x: SCALE + SCALE / 2,
            y: 0,
        },
    ];
    let (mut explosion, _emitter) =
        stock_explosion(ExplosionDamageArea::Radius(SCALE), Vec::new());
    // the explosion's own object (id 1) is excluded even when in range
    let out = explosion.apply_damage(SCALE / 10, &idx, hex(0, 0), 0, 0, 1, &units);
    assert!(out.fired);
    assert!(out.damage.is_empty());
    assert_eq!(out.chain_length, 0);
}

#[test]
fn timer_fires_exactly_once() {
    let mut t = Timer::new(SCALE);
    assert!(!t.finished());
    assert!(!t.tick(SCALE / 2));
    assert!(t.tick(SCALE / 2));
    assert!(t.finished());
    assert!(!t.tick(SCALE));
    assert!(t.finished());
    t.reset();
    assert!(!t.finished());
    assert!(t.tick(2 * SCALE));
}

#[test]
fn from_command_copies_every_field() {
    let (explosion, emitter) = stock_explosion(ExplosionDamageArea::Hex(2), vec![5, 6]);
    assert_eq!(explosion.team, Team::Player);
    assert_eq!(explosion.timer.duration, SCALE / 2);
    assert_eq!(explosion.damage_timer.duration, SCALE / 10);
    assert_eq!(explosion.damage, 1);
    assert_eq!(explosion.damage_area, ExplosionDamageArea::Hex(2));
    assert_eq!(explosion.strength_modifier, -100 * SCALE);
    assert_eq!(explosion.trigger_history, vec![5, 6]);
    assert_eq!(emitter.strength, 50 * SCALE);
    assert_eq!(emitter.radius, SCALE);
    assert!(emitter.strength <= SCALAR_MAX);
}
