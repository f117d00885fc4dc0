use hazard_core::geom::{Screen, Vec2};
use hazard_core::player::{
    handle_player_movement, lerp, DrawColor, Inputs, Player, PLAYER_RADIUS, PLAYER_SPEED,
};

fn screen_1000() -> Screen {
    Screen { width: 1000, height: 1000 }
}

fn idle_inputs() -> Inputs {
    Inputs { held_left: false, held_right: false, jump_pressed: false }
}

fn mid_air_player() -> Player {
    Player {
        position: Vec2 { x: 500, y: 100 },
        velocity: Vec2 { x: 0, y: 0 },
        radius: PLAYER_RADIUS,
        speed: PLAYER_SPEED,
    }
}

#[test]
fn lerp_moves_halfway_at_half_blend() {
    assert_eq!(lerp(0, 100, 500, 1000), 50);
    assert_eq!(lerp(100, 0, 500, 1000), 50);
}

#[test]
fn lerp_reaches_target_at_full_blend() {
    assert_eq!(lerp(10, 15, 1000, 1000), 15);
    assert_eq!(lerp(-40, 0, 1000, 1000), 0);
}

#[test]
fn lerp_truncates_toward_zero() {
    assert_eq!(lerp(0, -100, 250, 1000), -25);
    assert_eq!(lerp(0, 3, 500, 1000), 1);
    assert_eq!(lerp(0, -3, 500, 1000), -1);
}

#[test]
fn gravity_accelerates_then_position_integrates() {
    let mut p = mid_air_player();
    let draw = handle_player_movement(&mut p, 100, idle_inputs(), screen_1000());
    // 80 units/s^2 over 100 ms adds 8 to the vertical velocity, and the
    // position integrates by the whole per-frame velocity afterwards.
    assert_eq!(p.velocity.y, 8);
    assert_eq!(p.position, Vec2 { x: 500, y: 108 });
    // The draw request uses the pre-integration position.
    assert_eq!(draw.x, 500);
    assert_eq!(draw.y, 100);
    assert_eq!(draw.radius, PLAYER_RADIUS);
    assert_eq!(draw.color, DrawColor::Yellow);
}

#[test]
fn floor_clamps_and_jump_launches() {
    let mut p = mid_air_player();
    p.position = Vec2 { x: 500, y: 995 };
    let inputs = Inputs { held_left: false, held_right: false, jump_pressed: true };
    let draw = handle_player_movement(&mut p, 100, inputs, screen_1000());
    // The floor sits at height - radius = 990: the player is clamped there,
    // the fall is cancelled, and the jump impulse applies.
    assert_eq!(draw.y, 990);
    assert_eq!(p.velocity.y, -25);
    assert_eq!(p.position.y, 990 - 25);
}

#[test]
fn floor_without_jump_rests() {
    let mut p = mid_air_player();
    p.position = Vec2 { x: 500, y: 990 };
    handle_player_movement(&mut p, 100, idle_inputs(), screen_1000());
    assert_eq!(p.velocity.y, 0);
    assert_eq!(p.position.y, 990);
}

#[test]
fn held_direction_blends_horizontal_velocity() {
    let mut p = mid_air_player();
    let inputs = Inputs { held_left: false, held_right: true, jump_pressed: false };
    // Held blend is 10 * dt; at dt = 100 ms the factor is exactly 1, so the
    // velocity reaches the full speed target in one frame.
    handle_player_movement(&mut p, 100, inputs, screen_1000());
    assert_eq!(p.velocity.x, PLAYER_SPEED);
    // Integration used the pre-blend horizontal velocity of zero.
    assert_eq!(p.position.x, 500);
}

#[test]
fn held_left_blends_toward_negative_speed() {
    let mut p = mid_air_player();
    let inputs = Inputs { held_left: true, held_right: false, jump_pressed: false };
    handle_player_movement(&mut p, 50, inputs, screen_1000());
    // Blend 10 * 50 / 1000 = 1/2 of the way from 0 to -15, truncated.
    assert_eq!(p.velocity.x, -7);
}

#[test]
fn both_directions_cancel_and_release_decays_faster() {
    let mut p = mid_air_player();
    p.velocity = Vec2 { x: 10, y: 0 };
    let inputs = Inputs { held_left: true, held_right: true, jump_pressed: false };
    // Cancelled input targets zero with the released blend 20 * dt: at
    // dt = 25 ms that is half the gap.
    handle_player_movement(&mut p, 25, inputs, screen_1000());
    assert_eq!(p.velocity.x, 5);
}
