//! Hazard spawning: the periodic spawn cadence and the spawn procedure.
//!
//! A single countdown drives the cadence: each frame it is counted down, and
//! whenever it reaches zero one hazard is created, the countdown is refilled
//! and started again, so the trigger rearms itself and never stays dormant.
//! A new hazard appears just above the top edge at a horizontal coordinate
//! drawn from the random source, aimed at the player's current position.

use crate::enemy::{enemy_wf, Enemy};
use crate::geom::{isqrt, mul_div, spec_mul_div, Vec2, POS_LIMIT};
use crate::player::{player_wf, Player};
use crate::timer::{spec_timer_update, Timer};
use vstd::arithmetic::div_mod::{
    lemma_basic_div, lemma_div_denominator, lemma_div_multiples_vanish,
    lemma_div_multiples_vanish_fancy, lemma_div_plus_one, lemma_fundamental_div_mod,
    lemma_mod_bound,
};
use vstd::prelude::*;

verus! {

/// Period of the global spawn cadence, in milliseconds.
pub const SPAWN_PERIOD_MS: i64 = 500;

/// Despawn grace period of a sliced hazard, in milliseconds.
pub const ENEMY_DESPAWN_MS: i64 = 300;

/// Radius of every hazard, in playfield units.
pub const ENEMY_RADIUS: i64 = 15;

/// Magnitude of a fresh hazard's velocity, in units per second.
pub const ENEMY_SPEED: i64 = 500;

/// Horizontal margin kept free of spawn points at both playfield edges.
pub const SPAWN_MARGIN: i64 = 30;

/// Vertical spawn coordinate: just above the visible top edge.
pub const SPAWN_Y: i64 = -15;

/// Relies on macroquad's `rand::gen_range` (quad_rand): for integer types
/// it returns `low + (high - low) * r` computed in `f64`, with `r` drawn
/// from `[0, 1)` in 32-bit steps, cast back to the integer type.  The
/// rounding of that sum can land exactly on `hi` when `hi - lo` is small
/// relative to `hi`, so only the inclusive bounds are claimed; the caller
/// folds the `hi` case back into the intended half-open range.
#[verifier::external_body]
pub(crate) fn gen_spawn_x(lo: i64, hi: i64) -> (r: i64)
    requires
        0 <= lo < hi <= 1_000_000_000,
    ensures
        lo <= r <= hi,
{
    macroquad::rand::gen_range(lo, hi)
}

/// The velocity of a fresh hazard: the direction from its spawn point
/// toward the player, scaled to `ENEMY_SPEED` using the integer square root
/// of the squared distance.  A zero distance is guarded: the hazard then
/// flies straight down at full speed instead of dividing by zero.
pub open spec fn aimed_velocity(target: Vec2, from: Vec2, v: Vec2) -> bool {
    let dx = target.x - from.x;
    let dy = target.y - from.y;
    let d2 = dx * dx + dy * dy;
    if d2 == 0 {
        v == (Vec2 { x: 0, y: ENEMY_SPEED })
    } else {
        exists|len: int|
            {
                &&& 0 < len
                &&& #[trigger] (len * len) <= d2 < (len + 1) * (len + 1)
                &&& v.x == spec_mul_div(dx, ENEMY_SPEED as int, len)
                &&& v.y == spec_mul_div(dy, ENEMY_SPEED as int, len)
            }
    }
}

/// What `spawn_enemies` appends: a hazard at `(spawn_x, SPAWN_Y)` with the
/// fixed radius, aimed at the player, its despawn timer full and not
/// started — the hazard begins alive.
pub open spec fn is_spawned_enemy(e: Enemy, p: Player, spawn_x: i64) -> bool {
    &&& e.position == (Vec2 { x: spawn_x, y: SPAWN_Y })
    &&& e.radius == ENEMY_RADIUS
    &&& e.speed == 0
    &&& e.timer == (Timer {
        duration: ENEMY_DESPAWN_MS,
        started: false,
        time_left: ENEMY_DESPAWN_MS,
    })
    &&& aimed_velocity(p.position, e.position, e.velocity)
}

/// Append one fresh hazard aimed from `(spawn_x, SPAWN_Y)` at the player's
/// current position; every hazard already on the field is untouched.
pub fn spawn_enemies(enemies: &mut Vec<Enemy>, player: &Player, spawn_x: i64)
    requires
        player_wf(*player),
        0 <= spawn_x <= POS_LIMIT,
    ensures
        final(enemies)@.len() == old(enemies)@.len() + 1,
        final(enemies)@.drop_last() == old(enemies)@,
        is_spawned_enemy(final(enemies)@.last(), *player, spawn_x),
        enemy_wf(final(enemies)@.last()),
{
    let dx: i64 = player.position.x - spawn_x;
    let dy: i64 = player.position.y - SPAWN_Y;
    proof {
        assert(0 <= dx * dx <= 4_000_000_000_000_000_000 && 0 <= dy * dy
            <= 1_100_000_000_000_000_000) by (nonlinear_arith)
            requires
                -2_000_000_000 <= dx <= 2_000_000_000,
                -1_000_001_000 <= dy <= 1_000_001_000,
        ;
    }
    let d2: i64 = dx * dx + dy * dy;

    let velocity: Vec2 = if d2 == 0 {
        Vec2 { x: 0, y: ENEMY_SPEED }
    } else {
        let len: u64 = isqrt(d2 as u64);
        proof {
            assert(0 < len && len <= 3_000_000_000) by (nonlinear_arith)
                requires
                    (len as int) * (len as int) <= d2 as int,
                    (d2 as int) < ((len as int) + 1) * ((len as int) + 1),
                    0 < d2 <= 5_100_000_000_000_000_000,
            ;
            assert(-(len as int) <= dx as int <= len as int && -(len as int) <= dy as int
                <= len as int) by (nonlinear_arith)
                requires
                    (dx as int) * (dx as int) + (dy as int) * (dy as int) == d2 as int,
                    (len as int) * (len as int) <= d2 as int,
                    (d2 as int) < ((len as int) + 1) * ((len as int) + 1),
                    0 <= len,
            ;
        }
        let len_i: i64 = len as i64;
        let vx: i64 = mul_div(dx, ENEMY_SPEED, len_i);
        let vy: i64 = mul_div(dy, ENEMY_SPEED, len_i);
        proof {
            crate::geom::lemma_mul_div_abs_le(
                dx as int,
                ENEMY_SPEED as int,
                len_i as int,
                ENEMY_SPEED as int,
            );
            crate::geom::lemma_mul_div_abs_le(
                dy as int,
                ENEMY_SPEED as int,
                len_i as int,
                ENEMY_SPEED as int,
            );
        }
        Vec2 { x: vx, y: vy }
    };

    let new_enemy = Enemy {
        position: Vec2 { x: spawn_x, y: SPAWN_Y },
        velocity,
        radius: ENEMY_RADIUS,
        speed: 0,
        timer: Timer::new(ENEMY_DESPAWN_MS),
    };
    enemies.push(new_enemy);
    proof {
        assert(enemies@.drop_last() =~= old(enemies)@);
    }
}

/// One frame of the self-rearming cadence: count the timer down; when it
/// reaches zero, spawn (the boolean), refill and start it again.
pub open spec fn spec_spawner_tick(t: Timer, dt: i64) -> (Timer, bool) {
    let t1 = spec_timer_update(t, dt);
    if t1.time_left == 0 {
        (Timer { duration: t1.duration, started: true, time_left: t1.duration }, true)
    } else {
        (t1, false)
    }
}

/// How many hazards the cadence spawns over `n` frames of `dt` milliseconds
/// each.
pub open spec fn spec_spawn_count(t: Timer, dt: i64, n: nat) -> nat
    decreases n,
{
    if n == 0 {
        0
    } else {
        let next = spec_spawner_tick(t, dt);
        (if next.1 {
            1nat
        } else {
            0nat
        }) + spec_spawn_count(next.0, dt, (n - 1) as nat)
    }
}

/// Frames between consecutive spawns at period `p` and frame time `dt`:
/// `p / dt` rounded up.
pub open spec fn cadence_interval(p: int, dt: int) -> int {
    (p + dt - 1) / dt
}

/// The rounded-up quotient brackets the period: `k * dt` reaches `p`, one
/// frame fewer does not.
proof fn lemma_cadence_interval(p: int, dt: int)
    requires
        0 < dt,
        0 < p,
    ensures
        1 <= cadence_interval(p, dt),
        cadence_interval(p, dt) * dt >= p,
        (cadence_interval(p, dt) - 1) * dt < p,
{
    let s = p + dt - 1;
    let k = s / dt;
    lemma_fundamental_div_mod(s, dt);
    lemma_mod_bound(s, dt);
    assert(dt * k == s - s % dt);
    assert(k * dt == dt * k) by (nonlinear_arith);
    assert((k - 1) * dt == k * dt - dt) by (nonlinear_arith);
    assert(k >= 1) by (nonlinear_arith)
        requires
            dt * k == s - s % dt,
            0 <= s % dt < dt,
            s >= dt,
            0 < dt,
    ;
}

/// The cadence state `j` frames after a spawn: running, with `j * dt`
/// already counted down.
spec fn spawner_state(p: i64, dt: i64, j: int) -> Timer {
    Timer { duration: p, started: true, time_left: (p - j * dt) as i64 }
}

/// From any point inside a cadence cycle, the spawn count over `n` frames
/// is exactly the number of cycle boundaries crossed.
proof fn lemma_cadence_from(p: i64, dt: i64, j: int, n: nat)
    requires
        0 < dt,
        0 < p,
        0 <= j < cadence_interval(p as int, dt as int),
    ensures
        spec_spawn_count(spawner_state(p, dt, j), dt, n) == (j + n) / cadence_interval(
            p as int,
            dt as int,
        ),
    decreases n,
{
    let k = cadence_interval(p as int, dt as int);
    lemma_cadence_interval(p as int, dt as int);
    assert(0 <= j * dt && j * dt <= (k - 1) * dt) by (nonlinear_arith)
        requires
            0 <= j <= k - 1,
            0 < dt,
    ;
    let t = spawner_state(p, dt, j);
    assert(t.time_left == p - j * dt);
    if n == 0 {
        lemma_basic_div(j, k);
    } else {
        assert((j + 1) * dt == j * dt + dt) by (nonlinear_arith);
        if j + 1 < k {
            assert((j + 1) * dt <= (k - 1) * dt) by (nonlinear_arith)
                requires
                    j + 1 <= k - 1,
                    0 < dt,
            ;
            assert(t.time_left > dt);
            assert(spec_spawner_tick(t, dt).0 == spawner_state(p, dt, j + 1));
            assert(!spec_spawner_tick(t, dt).1);
            lemma_cadence_from(p, dt, j + 1, (n - 1) as nat);
        } else {
            assert(j + 1 == k);
            assert(t.time_left <= dt);
            assert(spec_spawner_tick(t, dt).1);
            assert(spec_spawner_tick(t, dt).0 == spawner_state(p, dt, 0));
            lemma_cadence_from(p, dt, 0, (n - 1) as nat);
            lemma_div_plus_one(n - 1, k);
            assert(j + n == k + (n - 1));
        }
    }
}

/// Law (spawn periodicity): starting from a freshly started cadence timer
/// of period `p`, with a constant frame time `dt`, the number of hazards
/// spawned after `n` frames is exactly `n` divided by the cycle length
/// `ceil(p / dt)` — one spawn per full cycle, never more, never fewer.
pub proof fn lemma_spawn_periodicity(p: i64, dt: i64, n: nat)
    requires
        0 < dt,
        0 < p,
    ensures
        spec_spawn_count(Timer { duration: p, started: true, time_left: p }, dt, n) == n as int
            / cadence_interval(p as int, dt as int),
{
    assert(0 * dt == 0) by (nonlinear_arith);
    lemma_cadence_interval(p as int, dt as int);
    lemma_cadence_from(p, dt, 0, n);
    assert(spawner_state(p, dt, 0) == (Timer { duration: p, started: true, time_left: p }));
}

/// Law (spawn periodicity, whole periods): when the frame time divides the
/// period, the count after `n` frames — that is, after `n * dt`
/// milliseconds — is exactly the elapsed time divided by the period,
/// `floor(n * dt / p)`.
pub proof fn lemma_spawn_periodicity_divides(p: i64, dt: i64, n: nat)
    requires
        0 < dt,
        0 < p,
        p as int % dt as int == 0,
    ensures
        spec_spawn_count(Timer { duration: p, started: true, time_left: p }, dt, n) == (
        n * dt) as int / p as int,
{
    lemma_spawn_periodicity(p, dt, n);
    let m = p as int / dt as int;
    lemma_fundamental_div_mod(p as int, dt as int);
    assert(p == dt * m);
    assert(0 < m) by (nonlinear_arith)
        requires
            p as int == dt as int * m,
            0 < p,
            0 < dt,
    ;
    // The cycle length is p / dt: ceiling and floor agree on a multiple.
    assert(p + dt - 1 == dt * m + (dt - 1));
    lemma_div_multiples_vanish_fancy(m, dt as int - 1, dt as int);
    assert(cadence_interval(p as int, dt as int) == m);
    // n / m == (n * dt) / (dt * m).
    lemma_div_denominator(n * dt as int, dt as int, m);
    assert(dt as int * (n as int) == n * dt as int) by (nonlinear_arith);
    lemma_div_multiples_vanish(n as int, dt as int);
}

} // verus!
