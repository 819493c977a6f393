//! Turning an entity towards a point: angle normalisation and the forward
//! speed that goes with the remaining turn.
use vstd::prelude::*;
use crate::decision::{Decision, DecisionCommit};
use crate::entity::Entity;

verus! {

/// Half a turn (pi) in millionths of a radian.
pub const HALF_TURN: i64 = 3_141_593;

/// A full turn in millionths of a radian.
pub const FULL_TURN: i64 = 2 * HALF_TURN;

/// Turns larger than this (0.05 rad) throttle the forward speed.
pub const ALIGN_TOLERANCE: i64 = 50_000;

/// Forward speed times remaining turn while turning (0.1, in millionths of
/// a cell side times millionths of a radian).
pub const TURN_THROTTLE: i64 = 100_000_000_000;

/// The angle in `(-HALF_TURN, HALF_TURN]` that differs from `d` by whole
/// turns.
pub open spec fn wrap_angle(d: int) -> int {
    (d + HALF_TURN - 1) % (FULL_TURN as int) - HALF_TURN + 1
}

/// Forward speed for a remaining turn `delta`: throttled in inverse
/// proportion to the turn while it exceeds the tolerance, else the entity's
/// own speed.
pub open spec fn forward_speed(delta: int, move_speed: int) -> int {
    let mag = if delta >= 0 {
        delta
    } else {
        -delta
    };
    if mag > ALIGN_TOLERANCE {
        TURN_THROTTLE as int / mag
    } else {
        move_speed
    }
}

proof fn lemma_wrap_turns(d: int, k: int)
    ensures
        wrap_angle(d + k * FULL_TURN) == wrap_angle(d),
{
    vstd::arithmetic::div_mod::lemma_mod_multiples_vanish(k, d + HALF_TURN - 1, FULL_TURN as int);
    assert(d + k * FULL_TURN + HALF_TURN - 1 == FULL_TURN * k + (d + HALF_TURN - 1)) by (nonlinear_arith);
}

/// Brings an angle difference into `(-HALF_TURN, HALF_TURN]` by adding or
/// subtracting whole turns one at a time.
pub fn normalize_angle(delta: i64) -> (r: i64)
    ensures
        -HALF_TURN < r <= HALF_TURN,
        r == wrap_angle(delta as int),
{
    let mut d = delta;
    let ghost mut k: int = 0;
    while d > HALF_TURN
        invariant
            d == delta + k * FULL_TURN,
        decreases d + HALF_TURN,
    {
        assert(FULL_TURN == 6_283_186);
        d = d - FULL_TURN;
        proof {
            assert(delta + (k - 1) * FULL_TURN == delta + k * FULL_TURN - FULL_TURN) by (nonlinear_arith);
            k = k - 1;
        }
    }
    while d <= -HALF_TURN
        invariant
            d <= HALF_TURN,
            d == delta + k * FULL_TURN,
        decreases HALF_TURN - d,
    {
        assert(FULL_TURN == 6_283_186);
        d = d + FULL_TURN;
        proof {
            assert(delta + (k + 1) * FULL_TURN == delta + k * FULL_TURN + FULL_TURN) by (nonlinear_arith);
            k = k + 1;
        }
    }
    proof {
        lemma_wrap_turns(delta as int, k);
        vstd::arithmetic::div_mod::lemma_small_mod((d + HALF_TURN - 1) as nat, FULL_TURN as nat);
    }
    d
}

/// Movement of `entity` towards a point seen at `bearing` (the direction of
/// the point from the entity): turn by the normalised difference between
/// bearing and facing, move forward at the speed that goes with that turn,
/// never sideways.
pub fn move_towards(entity: &Entity, bearing: i64) -> (r: DecisionCommit)
    ensures
        r == (DecisionCommit {
            entity_handle: entity.handle,
            decision: Decision::Movement {
                rotation: wrap_angle(bearing - entity.angle) as i64,
                forward_diff: forward_speed(
                    wrap_angle(bearing - entity.angle),
                    entity.properties.move_speed as int,
                ) as i64,
                lateral_diff: 0,
            },
        }),
{
    let target = normalize_angle(bearing);
    let facing = normalize_angle(entity.angle);
    let delta = normalize_angle(target - facing);
    proof {
        lemma_same_wrap(bearing as int, target as int, entity.angle as int, facing as int);
    }
    let mag = if delta >= 0 {
        delta
    } else {
        -delta
    };
    let forward = if mag > ALIGN_TOLERANCE {
        TURN_THROTTLE / mag
    } else {
        entity.properties.move_speed
    };
    Decision::movement(delta, forward, 0).commit(entity.handle)
}

/// Normalising both angles first leaves the normalised difference as it is.
proof fn lemma_same_wrap(b: int, bn: int, a: int, an: int)
    requires
        bn == wrap_angle(b),
        an == wrap_angle(a),
    ensures
        wrap_angle(bn - an) == wrap_angle(b - a),
{
    let f = FULL_TURN as int;
    vstd::arithmetic::div_mod::lemma_fundamental_div_mod(b + HALF_TURN - 1, f);
    vstd::arithmetic::div_mod::lemma_fundamental_div_mod(a + HALF_TURN - 1, f);
    let qb = (b + HALF_TURN - 1) / f;
    let qa = (a + HALF_TURN - 1) / f;
    assert(bn == b - f * qb);
    assert(an == a - f * qa);
    assert(bn - an == (b - a) + (qa - qb) * f) by (nonlinear_arith)
        requires bn == b - f * qb, an == a - f * qa;
    lemma_wrap_turns(b - a, qa - qb);
}

} // verus!
