use hex_arena::force::{accumulate, accumulate_all, distance_between, relax, Force, ForceEmitter, ForceReceiver};
use hex_arena::scalar::{isqrt, EPSILON, SCALAR_MAX, SCALE};

/// Fixed-point rendition of the stock emitter checks: full strength at the
/// center, zero at the radius, exact linear falloff between.
#[test]
fn emitter_strength_at() {
    let emitter = ForceEmitter {
        strength: 10 * SCALE,
        radius: 5 * SCALE,
    };

    // 0 distance = full strength
    assert_eq!(emitter.strength_at(0), 10 * SCALE);
    // Max distance = 0 strength
    assert_eq!(emitter.strength_at(5 * SCALE), 0);
    // Half distance = half strength
    assert_eq!(emitter.strength_at(5 * SCALE / 2), 5 * SCALE);
    // 1/5 distance = 4/5 strength
    assert_eq!(emitter.strength_at(SCALE), 8 * SCALE);
}

#[test]
fn emitter_strength_outside_and_negative() {
    let emitter = ForceEmitter {
        strength: 10 * SCALE,
        radius: 5 * SCALE,
    };
    // defensive: negative distance returns full strength
    assert_eq!(emitter.strength_at(-1), 10 * SCALE);
    // beyond the radius there is no force at all
    assert_eq!(emitter.strength_at(5 * SCALE + 1), 0);
    assert_eq!(emitter.strength_at(100 * SCALE), 0);
}

#[test]
fn emitter_default_values() {
    let emitter = ForceEmitter::default();
    assert_eq!(emitter.strength, 10 * SCALE);
    assert_eq!(emitter.radius, 5 * SCALE);
    let receiver = ForceReceiver::default();
    assert_eq!(receiver.restitution_coefficient, SCALE / 2);
    let force = Force::default();
    assert_eq!(force.force, 0);
    assert!(!force.is_applied);
}

#[test]
fn accumulate_adds_strength_times_dt() {
    let emitter = ForceEmitter {
        strength: 10 * SCALE,
        radius: 5 * SCALE,
    };
    let mut force = Force::default();
    // a tenth of a second at the center adds strength * 0.1 = 1.0
    accumulate(&mut force, &emitter, 0, SCALE / 10);
    assert_eq!(force.force, SCALE);
    assert!(force.is_applied);
    // a second emitter in the same tick is additive
    accumulate(&mut force, &emitter, 5 * SCALE / 2, SCALE / 10);
    assert_eq!(force.force, SCALE + SCALE / 2);
}

#[test]
fn accumulate_out_of_range_is_noop() {
    let emitter = ForceEmitter {
        strength: 10 * SCALE,
        radius: 5 * SCALE,
    };
    let mut force = Force::default();
    accumulate(&mut force, &emitter, 6 * SCALE, SCALE);
    assert_eq!(force.force, 0);
    assert!(!force.is_applied);
}

#[test]
fn accumulate_all_sums_every_emitter_in_range() {
    let emitters = vec![
        (
            ForceEmitter {
                strength: 10 * SCALE,
                radius: 5 * SCALE,
            },
            0,
        ),
        (
            ForceEmitter {
                strength: 10 * SCALE,
                radius: 5 * SCALE,
            },
            5 * SCALE / 2,
        ),
        (
            ForceEmitter {
                strength: 10 * SCALE,
                radius: 5 * SCALE,
            },
            6 * SCALE,
        ),
    ];
    let mut force = Force::default();
    accumulate_all(&mut force, &emitters, SCALE / 10);
    // 1.0 from the first, 0.5 from the second, nothing from the third
    assert_eq!(force.force, SCALE + SCALE / 2);
    assert!(force.is_applied);
}

/// A receiver whose force fell below the idle threshold reads exactly zero
/// on the next relaxation, with no residual drift.
#[test]
fn relax_snaps_below_epsilon_to_zero() {
    let receiver = ForceReceiver::default();
    let mut force = Force {
        force: EPSILON - 1,
        is_applied: true,
    };
    relax(&mut force, &receiver, SCALE / 60);
    assert_eq!(force.force, 0);
    assert!(!force.is_applied);
    // and it stays exactly zero afterwards
    relax(&mut force, &receiver, SCALE / 60);
    assert_eq!(force.force, 0);
}

#[test]
fn relax_decays_proportionally() {
    let receiver = ForceReceiver {
        restitution_coefficient: SCALE / 2,
    };
    let mut force = Force {
        force: 2 * SCALE,
        is_applied: true,
    };
    // one full second sheds force * 0.5 * 1.0 = 1.0
    relax(&mut force, &receiver, SCALE);
    assert_eq!(force.force, SCALE);
    assert!(force.is_applied);
}

#[test]
fn relax_never_goes_negative() {
    let receiver = ForceReceiver {
        restitution_coefficient: 3 * SCALE,
    };
    let mut force = Force {
        force: SCALE,
        is_applied: true,
    };
    // a huge restitution over a long tick would overshoot; it floors at zero
    relax(&mut force, &receiver, SCALE);
    assert_eq!(force.force, 0);
}

#[test]
fn relax_ignores_idle_receivers() {
    let receiver = ForceReceiver::default();
    let mut force = Force {
        force: 5 * SCALE,
        is_applied: false,
    };
    relax(&mut force, &receiver, SCALE);
    assert_eq!(force.force, 5 * SCALE);
    assert!(!force.is_applied);
}

#[test]
fn isqrt_exact_squares_and_between() {
    assert_eq!(isqrt(0), 0);
    assert_eq!(isqrt(1), 1);
    assert_eq!(isqrt(3), 1);
    assert_eq!(isqrt(4), 2);
    assert_eq!(isqrt(1_000_000), 1000);
    assert_eq!(isqrt(999_999), 999);
}

#[test]
fn distance_between_is_euclidean() {
    // a 3-4-5 triangle in whole units
    let d = distance_between(0, 0, 3 * SCALE, 4 * SCALE);
    assert_eq!(d, 5 * SCALE);
    assert_eq!(distance_between(SCALE, SCALE, SCALE, SCALE), 0);
}

#[test]
fn accumulate_saturates_at_the_scalar_cap() {
    let emitter = ForceEmitter {
        strength: SCALAR_MAX,
        radius: SCALAR_MAX,
    };
    let mut force = Force {
        force: SCALAR_MAX - 1,
        is_applied: true,
    };
    accumulate(&mut force, &emitter, 0, SCALAR_MAX);
    assert_eq!(force.force, SCALAR_MAX);
}
