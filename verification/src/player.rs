//! Player physics: gravity, floor contact, jumping, and smoothed horizontal
//! movement from directional input.
//!
//! The player's velocity is a per-frame displacement (integration adds the
//! velocity vector once per frame), while gravity is a per-second rate scaled
//! by the elapsed milliseconds; this mixed convention is kept deliberately,
//! as the feel of the game depends on it.

use crate::geom::{
    clamp_i64, in_range, mul_div, screen_wf, spec_clamp, spec_mul_div, Screen, Vec2, DT_MAX,
    MS_PER_S, POS_LIMIT, VEL_LIMIT,
};
use vstd::prelude::*;

verus! {

/// Downward acceleration, in units per second per second.
pub const GRAVITY: i64 = 80;

/// Vertical velocity set by a jump, in per-frame displacement units
/// (negative is up).
pub const JUMP_VELOCITY: i64 = -25;

/// Blend numerator per elapsed millisecond while a direction is held.
pub const BLEND_HELD: i64 = 10;

/// Blend numerator per elapsed millisecond while no direction is held.
pub const BLEND_RELEASED: i64 = 20;

/// Radius of the player's circle, in playfield units.
pub const PLAYER_RADIUS: i64 = 10;

/// The player's horizontal speed target while a direction is held.
pub const PLAYER_SPEED: i64 = 15;

/// Vertical coordinate the player starts a session at.
pub const PLAYER_START_Y: i64 = 30;

/// The player-controlled circle.
#[derive(Clone, Copy, Debug, PartialEq, Eq, Structural)]
pub struct Player {
    pub position: Vec2,
    pub velocity: Vec2,
    pub radius: i64,
    pub speed: i64,
}

/// The per-frame input signals: level-triggered direction keys and an
/// edge-triggered jump.
#[derive(Clone, Copy, Debug, PartialEq, Eq, Structural)]
pub struct Inputs {
    pub held_left: bool,
    pub held_right: bool,
    pub jump_pressed: bool,
}

/// A request to draw one filled circle; the renderer outside the core
/// performs it.
#[derive(Clone, Copy, Debug, PartialEq, Eq, Structural)]
pub struct DrawCmd {
    pub x: i64,
    pub y: i64,
    pub radius: i64,
    pub color: DrawColor,
}

/// The three circle colors the core asks for: the player, a live hazard,
/// and a hazard whose despawn countdown is running.
#[derive(Clone, Copy, Debug, PartialEq, Eq, Structural)]
pub enum DrawColor {
    Yellow,
    Red,
    Green,
}

pub open spec fn player_wf(p: Player) -> bool {
    &&& in_range(p.position.x as int, POS_LIMIT as int)
    &&& in_range(p.position.y as int, POS_LIMIT as int)
    &&& in_range(p.velocity.x as int, VEL_LIMIT as int)
    &&& in_range(p.velocity.y as int, VEL_LIMIT as int)
    &&& 0 <= p.radius <= crate::geom::RADIUS_LIMIT
    &&& 0 <= p.speed <= VEL_LIMIT
}

/// Desired horizontal direction: `+1` right, `-1` left, `0` when neither or
/// both keys are held.
pub open spec fn spec_direction(inp: Inputs) -> int {
    (if inp.held_right { 1int } else { 0int }) + (if inp.held_left { -1int } else { 0int })
}

/// Linear interpolation from `a` toward `b` by the ratio `num / den`.
pub open spec fn spec_lerp(a: int, b: int, num: int, den: int) -> int {
    a + spec_mul_div(b - a, num, den)
}

/// Move `a` toward `b` by the fraction `num / den`.
pub fn lerp(a: i64, b: i64, num: i64, den: i64) -> (r: i64)
    requires
        in_range(a as int, 1_500_000_000),
        in_range(b as int, 1_500_000_000),
        0 < den,
        0 <= num <= 3_000_000_000,
        num <= 3_000_000 * den,
    ensures
        r == spec_lerp(a as int, b as int, num as int, den as int),
{
    proof {
        let d: int = b - a as int;
        assert((d >= 0 ==> d * num <= 9_000_000_000_000_000 * den) && (d < 0 ==> (-d) * num
            <= 9_000_000_000_000_000 * den)) by (nonlinear_arith)
            requires
                -3_000_000_000 <= d <= 3_000_000_000,
                0 < den,
                0 <= num <= 3_000_000 * den,
        ;
        crate::geom::lemma_mul_div_abs_le(d, num as int, den as int, 9_000_000_000_000_000);
    }
    a + mul_div(b - a, num, den)
}

/// Multiplying by a factor from `{-1, 0, 1}` selects the value, its
/// negation, or zero.
proof fn lemma_unit_factor(d: int, s: int)
    requires
        -1 <= d <= 1,
    ensures
        d * s == (if d == 1 {
            s
        } else if d == -1 {
            -s
        } else {
            0int
        }),
{
    assert(1 * s == s) by (nonlinear_arith);
    assert((-1) * s == -s) by (nonlinear_arith);
    assert(0 * s == 0) by (nonlinear_arith);
}

/// The player after one frame, paired with the draw request the frame
/// issues.  The circle is drawn at the position resolved *before* this
/// frame's integration step, so rendering trails the motion by design.
pub open spec fn spec_player_update(p: Player, dt: i64, inp: Inputs, sc: Screen) -> (Player,
    DrawCmd) {
    let vy_grav = spec_clamp(
        p.velocity.y + spec_mul_div(dt as int, GRAVITY as int, MS_PER_S as int),
        -VEL_LIMIT as int,
        VEL_LIMIT as int,
    );
    let on_floor = p.position.y >= sc.height - p.radius;
    let pos_y = if on_floor {
        sc.height - p.radius
    } else {
        p.position.y as int
    };
    let vy = if on_floor {
        if inp.jump_pressed {
            JUMP_VELOCITY as int
        } else {
            0int
        }
    } else {
        vy_grav
    };
    let draw = DrawCmd {
        x: p.position.x,
        y: pos_y as i64,
        radius: p.radius,
        color: DrawColor::Yellow,
    };
    let new_x = spec_clamp(p.position.x + p.velocity.x, -POS_LIMIT as int, POS_LIMIT as int);
    let new_y = spec_clamp(pos_y + vy, -POS_LIMIT as int, POS_LIMIT as int);
    let dir = spec_direction(inp);
    let blend = if dir != 0 {
        BLEND_HELD * dt
    } else {
        BLEND_RELEASED * dt
    };
    let vx = spec_clamp(
        spec_lerp(p.velocity.x as int, dir * p.speed, blend, MS_PER_S as int),
        -VEL_LIMIT as int,
        VEL_LIMIT as int,
    );
    (
        Player {
            position: Vec2 { x: new_x as i64, y: new_y as i64 },
            velocity: Vec2 { x: vx as i64, y: vy as i64 },
            radius: p.radius,
            speed: p.speed,
        },
        draw,
    )
}

/// One frame of player physics: gravity, floor clamp and jump, the draw
/// request at the pre-integration position, integration by the per-frame
/// velocity, then input-smoothed horizontal velocity.
pub fn handle_player_movement(player: &mut Player, dt: i64, inp: Inputs, sc: Screen) -> (draw:
    DrawCmd)
    requires
        player_wf(*old(player)),
        screen_wf(sc),
        0 <= dt <= DT_MAX,
    ensures
        *final(player) == spec_player_update(*old(player), dt, inp, sc).0,
        draw == spec_player_update(*old(player), dt, inp, sc).1,
        player_wf(*final(player)),
{
    let grav_step: i64 = mul_div(dt, GRAVITY, MS_PER_S);
    proof {
        crate::geom::lemma_mul_div_abs_le(
            dt as int,
            GRAVITY as int,
            MS_PER_S as int,
            GRAVITY as int * DT_MAX as int,
        );
    }
    let vy_grav: i64 = clamp_i64(player.velocity.y + grav_step, -VEL_LIMIT, VEL_LIMIT);
    player.velocity = Vec2 { x: player.velocity.x, y: vy_grav };

    let on_floor: bool = player.position.y >= sc.height - player.radius;
    if on_floor {
        player.position = Vec2 { x: player.position.x, y: sc.height - player.radius };
        player.velocity = Vec2 { x: player.velocity.x, y: 0 };
        if inp.jump_pressed {
            player.velocity = Vec2 { x: player.velocity.x, y: JUMP_VELOCITY };
        }
    }

    let mut direction: i64 = 0;
    if inp.held_right {
        direction = direction + 1;
    }
    if inp.held_left {
        direction = direction - 1;
    }

    let draw = DrawCmd {
        x: player.position.x,
        y: player.position.y,
        radius: player.radius,
        color: DrawColor::Yellow,
    };

    player.position = Vec2 {
        x: clamp_i64(player.position.x + player.velocity.x, -POS_LIMIT, POS_LIMIT),
        y: clamp_i64(player.position.y + player.velocity.y, -POS_LIMIT, POS_LIMIT),
    };

    let blend: i64 = if direction != 0 {
        BLEND_HELD * dt
    } else {
        BLEND_RELEASED * dt
    };
    let target: i64 = if direction == 1 {
        player.speed
    } else if direction == -1 {
        -player.speed
    } else {
        0
    };
    proof {
        lemma_unit_factor(spec_direction(inp), player.speed as int);
    }
    let vx: i64 = clamp_i64(lerp(player.velocity.x, target, blend, MS_PER_S), -VEL_LIMIT,
        VEL_LIMIT);
    player.velocity = Vec2 { x: vx, y: player.velocity.y };

    draw
}

} // verus!
