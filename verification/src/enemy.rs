//! Hazard motion, boundary reflection, the slice (kill) check, and the
//! per-frame lifecycle step.
//!
//! A hazard's state is carried by its despawn timer: timer not started means
//! Alive, started means Dying, countdown at zero means it leaves the field.
//! Each frame the hazard counts its timer down, integrates its per-second
//! velocity, reflects off the playfield edges, may be sliced by the player,
//! and is then either removed, fatal to the session, or kept and drawn.

use crate::geom::{
    clamp_i64, in_range, mul_div, screen_wf, spec_clamp, spec_mul_div, Screen, Vec2, DT_MAX,
    MS_PER_S, POS_LIMIT, RADIUS_LIMIT, VEL_LIMIT,
};
use crate::player::{player_wf, DrawCmd, DrawColor, Player};
use crate::timer::{spec_timer_update, timer_inv, Timer};
use vstd::prelude::*;

verus! {

/// How far above the top edge a hazard may rise before it is bounced back,
/// in playfield units.
pub const TOP_EXIT_MARGIN: i64 = 30;

/// A hazard circle flying through the playfield.  `timer` is its despawn
/// grace period: not started while the hazard is alive, started once it has
/// been sliced.
#[derive(Clone, Copy, Debug, PartialEq, Eq, Structural)]
pub struct Enemy {
    pub position: Vec2,
    pub velocity: Vec2,
    pub radius: i64,
    pub speed: i64,
    pub timer: Timer,
}

pub open spec fn enemy_wf(e: Enemy) -> bool {
    &&& in_range(e.position.x as int, POS_LIMIT as int)
    &&& in_range(e.position.y as int, POS_LIMIT as int)
    &&& in_range(e.velocity.x as int, VEL_LIMIT as int)
    &&& in_range(e.velocity.y as int, VEL_LIMIT as int)
    &&& 0 <= e.radius <= RADIUS_LIMIT
    &&& timer_inv(e.timer)
}

/// The slice condition: the player sits above the hazard (smaller y) and
/// the hazard's x lies within the player's swept horizontal interval, the
/// segment between `position - velocity` and `position + velocity`.
pub open spec fn spec_sliced(p: Player, e: Enemy) -> bool {
    &&& p.position.y < e.position.y
    &&& ((p.position.x - p.velocity.x <= e.position.x && p.position.x + p.velocity.x
        >= e.position.x) || (p.position.x - p.velocity.x >= e.position.x && p.position.x
        + p.velocity.x <= e.position.x))
}

/// Whether the hazard is currently sliced by the player's attack sweep.
pub fn is_enemy_killed(enemy: &Enemy, player: &Player) -> (r: bool)
    requires
        enemy_wf(*enemy),
        player_wf(*player),
    ensures
        r == spec_sliced(*player, *enemy),
{
    return player.position.y < enemy.position.y && ((player.position.x - player.velocity.x
        <= enemy.position.x && player.position.x + player.velocity.x >= enemy.position.x) || (
    player.position.x - player.velocity.x >= enemy.position.x && player.position.x
        + player.velocity.x <= enemy.position.x));
}

/// The fatal condition: the hazard's circle overlaps the player's circle,
/// `distance squared < (radius sum) squared`.
pub open spec fn spec_overlaps(e: Enemy, p: Player) -> bool {
    let dx = e.position.x - p.position.x;
    let dy = e.position.y - p.position.y;
    let rsum = e.radius + p.radius;
    dx * dx + dy * dy < rsum * rsum
}

/// The outcome of one hazard's frame step: gone from the field, fatal to
/// the session, or kept with its draw request.
#[derive(Clone, Copy, Debug, PartialEq, Eq, Structural)]
pub enum StepOutcome {
    Removed,
    Fatal,
    Kept { enemy: Enemy, draw: DrawCmd },
}

/// The hazard after this frame's timer tick, motion and boundary
/// reflection — before the slice check and the lifecycle decisions.
pub open spec fn spec_enemy_moved(e: Enemy, sc: Screen, dt: i64) -> Enemy {
    let t1 = spec_timer_update(e.timer, dt);
    let mx = spec_clamp(
        e.position.x + spec_mul_div(e.velocity.x as int, dt as int, MS_PER_S as int),
        -POS_LIMIT as int,
        POS_LIMIT as int,
    );
    let my = spec_clamp(
        e.position.y + spec_mul_div(e.velocity.y as int, dt as int, MS_PER_S as int),
        -POS_LIMIT as int,
        POS_LIMIT as int,
    );
    let vx = if mx + e.radius > sc.width || mx - e.radius < 0 {
        -e.velocity.x as int
    } else {
        e.velocity.x as int
    };
    let vy = if my + e.radius > sc.height || my - e.radius < -TOP_EXIT_MARGIN {
        -e.velocity.y as int
    } else {
        e.velocity.y as int
    };
    Enemy {
        position: Vec2 { x: mx as i64, y: my as i64 },
        velocity: Vec2 { x: vx as i64, y: vy as i64 },
        radius: e.radius,
        speed: e.speed,
        timer: t1,
    }
}

/// The hazard after this frame's timer tick, motion, boundary reflection
/// and slice check — before the removal and fatal decisions.  A slice
/// starts the despawn countdown; the countdown value itself is untouched,
/// so re-slicing a dying hazard changes nothing.
pub open spec fn spec_enemy_advance(e: Enemy, p: Player, sc: Screen, dt: i64) -> Enemy {
    let moved = spec_enemy_moved(e, sc, dt);
    if spec_sliced(p, moved) {
        Enemy {
            timer: Timer {
                duration: moved.timer.duration,
                started: true,
                time_left: moved.timer.time_left,
            },
            ..moved
        }
    } else {
        moved
    }
}

/// One hazard's whole frame step.  With `grace` set (the canonical richer
/// variant) a sliced hazard enters its dying grace period; without it a
/// slice removes the hazard on the spot, so no hazard is ever drawn in the
/// dying color.  Either way the removal check is evaluated before the
/// fatal check: a hazard that leaves the field this frame can no longer
/// end the session.
pub open spec fn spec_enemy_step(e: Enemy, p: Player, sc: Screen, dt: i64, grace: bool)
    -> StepOutcome {
    let m = spec_enemy_moved(e, sc, dt);
    if !grace && spec_sliced(p, m) {
        StepOutcome::Removed
    } else {
        let a = spec_enemy_advance(e, p, sc, dt);
        if a.timer.time_left == 0 {
            StepOutcome::Removed
        } else if spec_overlaps(a, p) {
            StepOutcome::Fatal
        } else {
            StepOutcome::Kept {
                enemy: a,
                draw: DrawCmd {
                    x: a.position.x,
                    y: a.position.y,
                    radius: a.radius,
                    color: if a.timer.started {
                        DrawColor::Green
                    } else {
                        DrawColor::Red
                    },
                },
            }
        }
    }
}

/// Run one hazard through its frame step: despawn-timer tick, motion,
/// boundary reflection, slice check, then removal, fatal or keep-and-draw.
/// `grace` selects the hazard lifecycle: a dying grace period after a
/// slice, or immediate removal.
pub fn enemy_frame_step(e: &Enemy, player: &Player, sc: &Screen, dt: i64, grace: bool) -> (out:
    StepOutcome)
    requires
        enemy_wf(*e),
        player_wf(*player),
        screen_wf(*sc),
        0 <= dt <= DT_MAX,
    ensures
        out == spec_enemy_step(*e, *player, *sc, dt, grace),
        out matches StepOutcome::Kept { enemy, .. } ==> enemy_wf(enemy),
{
    let mut timer = e.timer;
    timer.update(dt);

    proof {
        crate::timer::lemma_timer_update_invariant(e.timer, dt);
        lemma_motion_bounds(e.velocity.x as int, dt as int);
        lemma_motion_bounds(e.velocity.y as int, dt as int);
    }
    let mx: i64 = clamp_i64(
        e.position.x + mul_div(e.velocity.x, dt, MS_PER_S),
        -POS_LIMIT,
        POS_LIMIT,
    );
    let my: i64 = clamp_i64(
        e.position.y + mul_div(e.velocity.y, dt, MS_PER_S),
        -POS_LIMIT,
        POS_LIMIT,
    );

    let vx: i64 = if mx + e.radius > sc.width || mx - e.radius < 0 {
        -e.velocity.x
    } else {
        e.velocity.x
    };
    let vy: i64 = if my + e.radius > sc.height || my - e.radius < -TOP_EXIT_MARGIN {
        -e.velocity.y
    } else {
        e.velocity.y
    };

    let mut moved = Enemy {
        position: Vec2 { x: mx, y: my },
        velocity: Vec2 { x: vx, y: vy },
        radius: e.radius,
        speed: e.speed,
        timer: timer,
    };
    if is_enemy_killed(&moved, player) {
        if !grace {
            return StepOutcome::Removed;
        }
        moved.timer.start();
    }

    if moved.timer.is_done() {
        return StepOutcome::Removed;
    }

    let dx: i64 = moved.position.x - player.position.x;
    let dy: i64 = moved.position.y - player.position.y;
    let rsum: i64 = moved.radius + player.radius;
    proof {
        lemma_overlap_products(dx as int, dy as int, rsum as int);
    }
    if dx * dx + dy * dy < rsum * rsum {
        return StepOutcome::Fatal;
    }

    let color = if moved.timer.is_started() {
        DrawColor::Green
    } else {
        DrawColor::Red
    };
    StepOutcome::Kept {
        enemy: moved,
        draw: DrawCmd { x: moved.position.x, y: moved.position.y, radius: moved.radius, color },
    }
}

/// One frame's displacement of a bounded velocity stays well inside `i64`.
proof fn lemma_motion_bounds(v: int, dt: int)
    requires
        in_range(v, VEL_LIMIT as int),
        0 <= dt <= DT_MAX,
    ensures
        in_range(spec_mul_div(v, dt, MS_PER_S as int), 60_000_000_000),
{
    assert((v >= 0 ==> v * dt <= 60_000_000_000 * (MS_PER_S as int)) && (v < 0 ==> (-v) * dt
        <= 60_000_000_000 * (MS_PER_S as int))) by (nonlinear_arith)
        requires
            -1_000_000_000 <= v <= 1_000_000_000,
            0 <= dt <= 60_000,
    ;
    crate::geom::lemma_mul_div_abs_le(v, dt, MS_PER_S as int, 60_000_000_000);
}

/// The squared distance and squared radius sum of well-formed circles fit
/// in `i64`.
proof fn lemma_overlap_products(dx: int, dy: int, rsum: int)
    requires
        in_range(dx, 2 * POS_LIMIT as int),
        in_range(dy, 2 * POS_LIMIT as int),
        in_range(rsum, 2 * RADIUS_LIMIT as int),
    ensures
        0 <= dx * dx <= 4_000_000_000_000_000_000,
        0 <= dy * dy <= 4_000_000_000_000_000_000,
        0 <= rsum * rsum <= 4_000_000_000_000,
{
    assert(0 <= dx * dx <= 4_000_000_000_000_000_000) by (nonlinear_arith)
        requires
            -2_000_000_000 <= dx <= 2_000_000_000,
    ;
    assert(0 <= dy * dy <= 4_000_000_000_000_000_000) by (nonlinear_arith)
        requires
            -2_000_000_000 <= dy <= 2_000_000_000,
    ;
    assert(0 <= rsum * rsum <= 4_000_000_000_000) by (nonlinear_arith)
        requires
            -2_000_000 <= rsum <= 2_000_000,
    ;
}

/// Law (reflection): whenever the moved hazard circle crosses the left or
/// right edge, its horizontal velocity comes out exactly negated, magnitude
/// preserved; likewise vertically for the bottom edge and the margin past
/// the top — and an uncrossed axis keeps its velocity unchanged.
pub proof fn lemma_reflection(e: Enemy, p: Player, sc: Screen, dt: i64)
    requires
        enemy_wf(e),
    ensures
        ({
            let mx = spec_clamp(
                e.position.x + spec_mul_div(e.velocity.x as int, dt as int, MS_PER_S as int),
                -POS_LIMIT as int,
                POS_LIMIT as int,
            );
            let a = spec_enemy_advance(e, p, sc, dt);
            if mx + e.radius > sc.width || mx - e.radius < 0 {
                a.velocity.x == -e.velocity.x && vstd::math::abs(a.velocity.x as int)
                    == vstd::math::abs(e.velocity.x as int)
            } else {
                a.velocity.x == e.velocity.x
            }
        }),
        ({
            let my = spec_clamp(
                e.position.y + spec_mul_div(e.velocity.y as int, dt as int, MS_PER_S as int),
                -POS_LIMIT as int,
                POS_LIMIT as int,
            );
            let a = spec_enemy_advance(e, p, sc, dt);
            if my + e.radius > sc.height || my - e.radius < -TOP_EXIT_MARGIN {
                a.velocity.y == -e.velocity.y && vstd::math::abs(a.velocity.y as int)
                    == vstd::math::abs(e.velocity.y as int)
            } else {
                a.velocity.y == e.velocity.y
            }
        }),
{
}

/// Law (a sliced hazard never reverts): a hazard whose despawn countdown is
/// already running and which survives the frame is still counting down and
/// is drawn in the dying color — it never renders as alive again before its
/// removal.
pub proof fn lemma_dying_persists(e: Enemy, p: Player, sc: Screen, dt: i64, grace: bool)
    requires
        e.timer.started,
    ensures
        spec_enemy_step(e, p, sc, dt, grace) matches StepOutcome::Kept { enemy, draw } ==> {
            &&& enemy.timer.started
            &&& draw.color == DrawColor::Green
        },
{
}

/// Law (fatal precedence): the removal check runs before the fatal check.
/// A hazard whose countdown stands at zero after this frame's tick is
/// removed even if it overlaps the player, and a fatal outcome implies the
/// countdown had not finished.
pub proof fn lemma_fatal_precedence(e: Enemy, p: Player, sc: Screen, dt: i64, grace: bool)
    ensures
        spec_enemy_advance(e, p, sc, dt).timer.time_left == 0 ==> spec_enemy_step(
            e,
            p,
            sc,
            dt,
            grace,
        ) == StepOutcome::Removed,
        spec_enemy_step(e, p, sc, dt, grace) == StepOutcome::Fatal ==> {
            &&& spec_enemy_advance(e, p, sc, dt).timer.time_left != 0
            &&& spec_overlaps(spec_enemy_advance(e, p, sc, dt), p)
        },
{
}

} // verus!
