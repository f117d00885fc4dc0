use hazard_core::enemy::{enemy_frame_step, is_enemy_killed, Enemy, StepOutcome};
use hazard_core::geom::{Screen, Vec2};
use hazard_core::player::{DrawColor, Player};
use hazard_core::spawner::{spawn_enemies, ENEMY_DESPAWN_MS, ENEMY_RADIUS};
use hazard_core::timer::Timer;

fn screen_1000() -> Screen {
    Screen { width: 1000, height: 1000 }
}

fn player_at(x: i64, y: i64) -> Player {
    Player {
        position: Vec2 { x, y },
        velocity: Vec2 { x: 0, y: 0 },
        radius: 10,
        speed: 15,
    }
}

fn enemy_at(x: i64, y: i64) -> Enemy {
    Enemy {
        position: Vec2 { x, y },
        velocity: Vec2 { x: 0, y: 0 },
        radius: ENEMY_RADIUS,
        speed: 0,
        timer: Timer::new(ENEMY_DESPAWN_MS),
    }
}

#[test]
fn slice_requires_player_above() {
    // The hazard at (100, 50) lies within the swept interval [95, 105], but
    // the player at y = 200 is below it (larger y): no slice.
    let mut player = player_at(100, 200);
    player.velocity = Vec2 { x: 5, y: 0 };
    let enemy = enemy_at(100, 50);
    assert!(!is_enemy_killed(&enemy, &player));

    // With the player above at y = 10 the same sweep slices.
    let mut player_above = player_at(100, 10);
    player_above.velocity = Vec2 { x: 5, y: 0 };
    assert!(is_enemy_killed(&enemy, &player_above));
}

#[test]
fn slice_sweep_covers_both_travel_directions() {
    let enemy = enemy_at(100, 50);
    let mut player = player_at(103, 10);
    player.velocity = Vec2 { x: -5, y: 0 };
    // Interval endpoints 108 and 98 in reversed order still cover 100.
    assert!(is_enemy_killed(&enemy, &player));

    let mut player_far = player_at(120, 10);
    player_far.velocity = Vec2 { x: 5, y: 0 };
    // Interval [115, 125] misses 100.
    assert!(!is_enemy_killed(&enemy, &player_far));
}

#[test]
fn overlap_is_fatal() {
    // Centers 20 apart, radii summing 25: 400 < 625, the session ends.
    let player = player_at(520, 500);
    let enemy = enemy_at(500, 500);
    let out = enemy_frame_step(&enemy, &player, &screen_1000(), 0, true);
    assert_eq!(out, StepOutcome::Fatal);
}

#[test]
fn touching_circles_do_not_overlap() {
    // Centers exactly radius-sum apart: 625 is not < 625, no collision.
    let player = player_at(525, 500);
    let enemy = enemy_at(500, 500);
    let out = enemy_frame_step(&enemy, &player, &screen_1000(), 0, true);
    match out {
        StepOutcome::Kept { .. } => {}
        other => panic!("expected the hazard to survive, got {:?}", other),
    }
}

#[test]
fn motion_integrates_per_second_velocity() {
    let player = player_at(900, 900);
    let mut enemy = enemy_at(500, 100);
    enemy.velocity = Vec2 { x: 200, y: -60 };
    let out = enemy_frame_step(&enemy, &player, &screen_1000(), 100, true);
    match out {
        StepOutcome::Kept { enemy: e, draw } => {
            // 200 and -60 units/s over 100 ms.
            assert_eq!(e.position, Vec2 { x: 520, y: 94 });
            assert_eq!(e.velocity, Vec2 { x: 200, y: -60 });
            assert_eq!(draw.x, 520);
            assert_eq!(draw.y, 94);
            assert_eq!(draw.color, DrawColor::Red);
        }
        other => panic!("expected a kept hazard, got {:?}", other),
    }
}

#[test]
fn right_edge_reflects_horizontal_velocity() {
    let player = player_at(100, 900);
    let mut enemy = enemy_at(950, 500);
    enemy.velocity = Vec2 { x: 400, y: 0 };
    // After 100 ms the circle at x = 990 with radius 15 crosses width 1000.
    let out = enemy_frame_step(&enemy, &player, &screen_1000(), 100, true);
    match out {
        StepOutcome::Kept { enemy: e, .. } => {
            assert_eq!(e.position.x, 990);
            assert_eq!(e.velocity.x, -400);
            assert_eq!(e.velocity.y, 0);
        }
        other => panic!("expected a kept hazard, got {:?}", other),
    }
}

#[test]
fn left_edge_reflects_horizontal_velocity() {
    let player = player_at(900, 900);
    let mut enemy = enemy_at(20, 500);
    enemy.velocity = Vec2 { x: -100, y: 0 };
    let out = enemy_frame_step(&enemy, &player, &screen_1000(), 100, true);
    match out {
        StepOutcome::Kept { enemy: e, .. } => {
            assert_eq!(e.position.x, 10);
            assert_eq!(e.velocity.x, 100);
        }
        other => panic!("expected a kept hazard, got {:?}", other),
    }
}

#[test]
fn bottom_edge_reflects_vertical_velocity() {
    let player = player_at(100, 100);
    let mut enemy = enemy_at(500, 980);
    enemy.velocity = Vec2 { x: 0, y: 100 };
    let out = enemy_frame_step(&enemy, &player, &screen_1000(), 100, true);
    match out {
        StepOutcome::Kept { enemy: e, .. } => {
            assert_eq!(e.position.y, 990);
            assert_eq!(e.velocity.y, -100);
            assert_eq!(e.velocity.x, 0);
        }
        other => panic!("expected a kept hazard, got {:?}", other),
    }
}

#[test]
fn top_margin_reflects_vertical_velocity() {
    let player = player_at(900, 900);
    let mut enemy = enemy_at(500, -10);
    enemy.velocity = Vec2 { x: 0, y: -100 };
    // At y = -20 the circle top is -35, past the -30 margin above the edge.
    let out = enemy_frame_step(&enemy, &player, &screen_1000(), 100, true);
    match out {
        StepOutcome::Kept { enemy: e, .. } => {
            assert_eq!(e.position.y, -20);
            assert_eq!(e.velocity.y, 100);
        }
        other => panic!("expected a kept hazard, got {:?}", other),
    }
}

#[test]
fn sliced_hazard_turns_dying_and_never_reverts() {
    let mut player = player_at(505, 100);
    player.velocity = Vec2 { x: 10, y: 0 };
    let enemy = enemy_at(505, 300);

    // Frame 1: the sweep [495, 515] covers the hazard and the player is
    // above: the despawn countdown starts and the color flips to dying.
    let out = enemy_frame_step(&enemy, &player, &screen_1000(), 100, true);
    let e1 = match out {
        StepOutcome::Kept { enemy: e, draw } => {
            assert_eq!(draw.color, DrawColor::Green);
            assert!(e.timer.started);
            assert_eq!(e.timer.time_left, ENEMY_DESPAWN_MS);
            e
        }
        other => panic!("expected a kept hazard, got {:?}", other),
    };

    // Move the player away: no re-slice, the countdown just runs.
    let bystander = player_at(50, 900);
    let e2 = match enemy_frame_step(&e1, &bystander, &screen_1000(), 100, true) {
        StepOutcome::Kept { enemy: e, draw } => {
            assert_eq!(draw.color, DrawColor::Green);
            assert_eq!(e.timer.time_left, 200);
            e
        }
        other => panic!("expected a kept hazard, got {:?}", other),
    };
    let e3 = match enemy_frame_step(&e2, &bystander, &screen_1000(), 100, true) {
        StepOutcome::Kept { enemy: e, draw } => {
            assert_eq!(draw.color, DrawColor::Green);
            assert_eq!(e.timer.time_left, 100);
            e
        }
        other => panic!("expected a kept hazard, got {:?}", other),
    };

    // The countdown reaches zero: the hazard is removed, not redrawn.
    let out4 = enemy_frame_step(&e3, &bystander, &screen_1000(), 100, true);
    assert_eq!(out4, StepOutcome::Removed);
}

#[test]
fn removal_takes_precedence_over_fatal() {
    // The hazard overlaps the player, but its countdown finishes this very
    // frame: it is removed first and no fatal signal is raised.
    let player = player_at(515, 500);
    let mut enemy = enemy_at(500, 500);
    enemy.timer.start();
    enemy.timer.update(200);
    assert_eq!(enemy.timer.time_left, 100);
    let out = enemy_frame_step(&enemy, &player, &screen_1000(), 100, true);
    assert_eq!(out, StepOutcome::Removed);

    // With time still on the countdown the same overlap is fatal.
    let mut enemy_live = enemy_at(500, 500);
    enemy_live.timer.start();
    let out_live = enemy_frame_step(&enemy_live, &player, &screen_1000(), 100, true);
    assert_eq!(out_live, StepOutcome::Fatal);
}

#[test]
fn spawned_hazard_aims_at_the_player() {
    // Straight down: the player sits 200 below the spawn point.
    let player = player_at(100, 185);
    let mut enemies: Vec<Enemy> = Vec::new();
    spawn_enemies(&mut enemies, &player, 100);
    assert_eq!(enemies.len(), 1);
    let e = &enemies[0];
    assert_eq!(e.position, Vec2 { x: 100, y: -15 });
    assert_eq!(e.radius, ENEMY_RADIUS);
    assert_eq!(e.velocity, Vec2 { x: 0, y: 500 });
    assert!(!e.timer.started);
    assert_eq!(e.timer.time_left, ENEMY_DESPAWN_MS);
}

#[test]
fn spawned_hazard_velocity_scales_a_diagonal() {
    // Offset (300, 400) has length 500: the velocity is the offset itself.
    let player = player_at(400, 385);
    let mut enemies: Vec<Enemy> = Vec::new();
    spawn_enemies(&mut enemies, &player, 100);
    let e = &enemies[0];
    assert_eq!(e.velocity, Vec2 { x: 300, y: 400 });
}

#[test]
fn spawn_keeps_existing_hazards() {
    let player = player_at(400, 385);
    let mut enemies: Vec<Enemy> = Vec::new();
    spawn_enemies(&mut enemies, &player, 100);
    let first = enemies[0];
    spawn_enemies(&mut enemies, &player, 700);
    assert_eq!(enemies.len(), 2);
    assert_eq!(enemies[0], first);
    assert_eq!(enemies[1].position, Vec2 { x: 700, y: -15 });
}

#[test]
fn spawn_toward_own_position_falls_straight_down() {
    // A zero distance cannot be normalized: the guard sends the hazard
    // straight down at full speed.
    let player = player_at(250, -15);
    let mut enemies: Vec<Enemy> = Vec::new();
    spawn_enemies(&mut enemies, &player, 250);
    assert_eq!(enemies[0].velocity, Vec2 { x: 0, y: 500 });
}

#[test]
fn without_grace_a_slice_removes_on_the_spot() {
    // The simpler variant: no dying state, a sliced hazard leaves at once.
    let mut player = player_at(505, 100);
    player.velocity = Vec2 { x: 10, y: 0 };
    let enemy = enemy_at(505, 300);
    let out = enemy_frame_step(&enemy, &player, &screen_1000(), 100, false);
    assert_eq!(out, StepOutcome::Removed);
}

#[test]
fn without_grace_unsliced_hazards_behave_the_same() {
    let player = player_at(520, 500);
    let enemy = enemy_at(500, 500);
    // The fatal overlap is untouched by the variant flag.
    let out = enemy_frame_step(&enemy, &player, &screen_1000(), 0, false);
    assert_eq!(out, StepOutcome::Fatal);

    let bystander = player_at(100, 900);
    let roamer = enemy_at(500, 500);
    match enemy_frame_step(&roamer, &bystander, &screen_1000(), 100, false) {
        StepOutcome::Kept { draw, .. } => assert_eq!(draw.color, DrawColor::Red),
        other => panic!("expected a kept hazard, got {:?}", other),
    }
}
