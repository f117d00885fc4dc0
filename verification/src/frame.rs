//! The frame orchestrator: one world step per rendered frame.
//!
//! Each frame the session state advances in a fixed order: player physics,
//! then the spawn cadence (possibly creating one hazard), then the combined
//! per-hazard pass of motion, reflection, slice, removal and the fatal
//! check.  The fatal player–hazard overlap is the session's one modeled
//! failure; it is reported as an explicit flag in the frame result, and the
//! loop around the core stops on it.

use crate::enemy::{enemy_frame_step, enemy_wf, spec_enemy_step, Enemy, StepOutcome};
use crate::geom::{screen_wf, Screen, Vec2, DT_MAX};
use crate::player::{
    handle_player_movement, player_wf, spec_player_update, DrawCmd, Inputs, Player,
    PLAYER_RADIUS, PLAYER_SPEED, PLAYER_START_Y,
};
use crate::spawner::{
    gen_spawn_x, is_spawned_enemy, spawn_enemies, SPAWN_MARGIN, SPAWN_PERIOD_MS,
};
use crate::timer::{spec_timer_update, timer_inv, Timer};
use vstd::prelude::*;

verus! {

/// The whole session state: the player, the live hazards (iterated in a
/// stable order), and the spawn cadence timer.
#[derive(Debug)]
pub struct World {
    pub player: Player,
    pub enemies: Vec<Enemy>,
    pub enemy_timer: Timer,
    /// Whether a sliced hazard gets a dying grace period before removal
    /// (the canonical richer variant), or is removed on the spot.
    pub grace_period: bool,
}

/// What one frame hands back to the loop around the core: the draw
/// requests of this frame, and whether a fatal collision ended the session.
#[derive(Debug)]
pub struct FrameResult {
    pub fatal: bool,
    pub draws: Vec<DrawCmd>,
}

pub open spec fn enemies_wf(es: Seq<Enemy>) -> bool {
    forall|i: int| 0 <= i < es.len() ==> enemy_wf(#[trigger] es[i])
}

pub open spec fn world_wf(w: World) -> bool {
    &&& player_wf(w.player)
    &&& timer_inv(w.enemy_timer)
    &&& enemies_wf(w.enemies@)
}

/// The per-hazard pass over the live collection, front to back: removed
/// hazards drop out, kept ones are collected with their draw requests, and
/// a fatal hazard stops the pass on the spot — hazards after it are not
/// processed, exactly as a session-ending abort leaves them.
pub open spec fn spec_process(es: Seq<Enemy>, p: Player, sc: Screen, dt: i64, grace: bool) -> (
    Seq<Enemy>,
    Seq<DrawCmd>,
    bool,
)
    decreases es.len(),
{
    if es.len() == 0 {
        (Seq::<Enemy>::empty(), Seq::<DrawCmd>::empty(), false)
    } else {
        match spec_enemy_step(es[0], p, sc, dt, grace) {
            StepOutcome::Removed => spec_process(es.drop_first(), p, sc, dt, grace),
            StepOutcome::Fatal => (Seq::<Enemy>::empty(), Seq::<DrawCmd>::empty(), true),
            StepOutcome::Kept { enemy, draw } => {
                let rest = spec_process(es.drop_first(), p, sc, dt, grace);
                (seq![enemy] + rest.0, seq![draw] + rest.1, rest.2)
            },
        }
    }
}

/// Run every live hazard through its frame step, in order.  The collection
/// keeps exactly the surviving hazards; their draw requests are appended to
/// `draws`; the result says whether one of them ended the session.
pub fn process_enemies(
    enemies: &mut Vec<Enemy>,
    player: &Player,
    screen: &Screen,
    dt: i64,
    grace: bool,
    draws: &mut Vec<DrawCmd>,
) -> (fatal: bool)
    requires
        enemies_wf(old(enemies)@),
        player_wf(*player),
        screen_wf(*screen),
        0 <= dt <= DT_MAX,
    ensures
        final(enemies)@ == spec_process(old(enemies)@, *player, *screen, dt, grace).0,
        final(draws)@ == old(draws)@ + spec_process(old(enemies)@, *player, *screen, dt, grace).1,
        fatal == spec_process(old(enemies)@, *player, *screen, dt, grace).2,
        enemies_wf(final(enemies)@),
{
    let ghost es = enemies@;
    let ghost dlen0 = draws@.len() as int;
    let ghost whole = spec_process(es, *player, *screen, dt, grace);
    let mut kept: Vec<Enemy> = Vec::new();
    let mut fatal: bool = false;
    let mut i: usize = 0;
    proof {
        assert(es.skip(0) =~= es);
        assert(Seq::<Enemy>::empty() + whole.0 =~= whole.0);
        assert(draws@.skip(dlen0) =~= Seq::<DrawCmd>::empty());
        assert(Seq::<DrawCmd>::empty() + whole.1 =~= whole.1);
        assert(draws@.take(dlen0) =~= draws@);
    }
    while i < enemies.len() && !fatal
        invariant
            enemies@ == es,
            enemies_wf(es),
            player_wf(*player),
            screen_wf(*screen),
            0 <= dt <= DT_MAX,
            0 <= i <= es.len(),
            draws@.len() >= dlen0,
            draws@.take(dlen0) == old(draws)@,
            enemies_wf(kept@),
            whole == spec_process(es, *player, *screen, dt, grace),
            dlen0 == old(draws)@.len(),
            !fatal ==> ({
                let rest = spec_process(es.skip(i as int), *player, *screen, dt, grace);
                &&& whole.0 == kept@ + rest.0
                &&& whole.1 == draws@.skip(dlen0) + rest.1
                &&& whole.2 == rest.2
            }),
            fatal ==> {
                &&& whole.0 == kept@
                &&& whole.1 == draws@.skip(dlen0)
                &&& whole.2
            },
        decreases es.len() - i,
    {
        proof {
            assert(es.skip(i as int)[0] == es[i as int]);
            assert(es.skip(i as int).drop_first() =~= es.skip(i as int + 1));
        }
        let step = enemy_frame_step(&enemies[i], player, screen, dt, grace);
        match step {
            StepOutcome::Removed => {},
            StepOutcome::Fatal => {
                proof {
                    assert(kept@ + Seq::<Enemy>::empty() =~= kept@);
                    assert(draws@.skip(dlen0) + Seq::<DrawCmd>::empty() =~= draws@.skip(dlen0));
                }
                fatal = true;
            },
            StepOutcome::Kept { enemy, draw } => {
                let ghost kept0 = kept@;
                let ghost draws0 = draws@;
                kept.push(enemy);
                draws.push(draw);
                proof {
                    let rest = spec_process(es.skip(i as int + 1), *player, *screen, dt, grace);
                    assert(kept0 + (seq![enemy] + rest.0) =~= kept@ + rest.0);
                    assert(draws0.skip(dlen0) + (seq![draw] + rest.1) =~= draws@.skip(dlen0)
                        + rest.1);
                    assert(draws@.take(dlen0) =~= draws0.take(dlen0));
                    assert(forall|j: int|
                        0 <= j < kept@.len() ==> enemy_wf(#[trigger] kept@[j]));
                }
            },
        }
        i = i + 1;
    }
    proof {
        if !fatal {
            assert(es.skip(es.len() as int) =~= Seq::<Enemy>::empty());
            assert(kept@ + Seq::<Enemy>::empty() =~= kept@);
            assert(draws@.skip(dlen0) + Seq::<DrawCmd>::empty() =~= draws@.skip(dlen0));
        }
        assert(old(draws)@ + draws@.skip(dlen0) =~= draws@);
    }
    *enemies = kept;
    fatal
}

/// Where a fresh hazard's horizontal coordinate may land: within the spawn
/// margins when the playfield is wide enough for them, and pinned to the
/// margin itself on a degenerate, narrower playfield.
pub open spec fn spawn_x_ok(x: i64, sc: Screen) -> bool {
    if sc.width > 2 * SPAWN_MARGIN {
        SPAWN_MARGIN <= x < sc.width - SPAWN_MARGIN
    } else {
        x == SPAWN_MARGIN
    }
}

/// A fresh session: the player centered horizontally near the top, no
/// hazards, and the spawn cadence already running.
pub fn new_world(screen: &Screen) -> (w: World)
    requires
        screen_wf(*screen),
    ensures
        w.player == (Player {
            position: Vec2 { x: (screen.width / 2) as i64, y: PLAYER_START_Y },
            velocity: Vec2 { x: 0, y: 0 },
            radius: PLAYER_RADIUS,
            speed: PLAYER_SPEED,
        }),
        w.enemies@ == Seq::<Enemy>::empty(),
        w.enemy_timer == (Timer {
            duration: SPAWN_PERIOD_MS,
            started: true,
            time_left: SPAWN_PERIOD_MS,
        }),
        w.grace_period,
        world_wf(w),
{
    let mut enemy_timer = Timer::new(SPAWN_PERIOD_MS);
    enemy_timer.start();
    World {
        player: Player {
            position: Vec2 { x: screen.width / 2, y: PLAYER_START_Y },
            velocity: Vec2 { x: 0, y: 0 },
            radius: PLAYER_RADIUS,
            speed: PLAYER_SPEED,
        },
        enemies: Vec::new(),
        enemy_timer,
        grace_period: true,
    }
}

/// One frame of the session: player physics first, then the spawn cadence
/// (one hazard appears whenever the cadence timer runs out, at a random
/// in-margin coordinate, and the timer rearms), then the per-hazard pass.
/// The first draw request is always the player's circle; `r.fatal` reports
/// whether a hazard overlapped the player and ended the session.
pub fn frame_update(world: &mut World, dt: i64, inputs: Inputs, screen: Screen) -> (r:
    FrameResult)
    requires
        world_wf(*old(world)),
        screen_wf(screen),
        0 <= dt <= DT_MAX,
    ensures
        world_wf(*final(world)),
        final(world).player == spec_player_update(old(world).player, dt, inputs, screen).0,
        final(world).grace_period == old(world).grace_period,
        ({
            let p1 = spec_player_update(old(world).player, dt, inputs, screen).0;
            let pdraw = spec_player_update(old(world).player, dt, inputs, screen).1;
            let t1 = spec_timer_update(old(world).enemy_timer, dt);
            if t1.time_left != 0 {
                &&& final(world).enemy_timer == t1
                &&& ({
                    let out = spec_process(old(world).enemies@, p1, screen, dt, old(world).grace_period);
                    &&& final(world).enemies@ == out.0
                    &&& r.draws@ == seq![pdraw] + out.1
                    &&& r.fatal == out.2
                })
            } else {
                &&& final(world).enemy_timer == (Timer {
                    duration: t1.duration,
                    started: true,
                    time_left: t1.duration,
                })
                &&& exists|e: Enemy|
                    {
                        &&& #[trigger] is_spawned_enemy(e, p1, e.position.x)
                        &&& spawn_x_ok(e.position.x, screen)
                        &&& ({
                            let out = spec_process(
                                old(world).enemies@.push(e),
                                p1,
                                screen,
                                dt,
                                old(world).grace_period,
                            );
                            &&& final(world).enemies@ == out.0
                            &&& r.draws@ == seq![pdraw] + out.1
                            &&& r.fatal == out.2
                        })
                    }
            }
        }),
{
    let pdraw = handle_player_movement(&mut world.player, dt, inputs, screen);
    let mut draws: Vec<DrawCmd> = Vec::new();
    draws.push(pdraw);

    world.enemy_timer.update(dt);
    proof {
        crate::timer::lemma_timer_update_invariant(old(world).enemy_timer, dt);
    }
    if world.enemy_timer.is_done() {
        let hi: i64 = if screen.width - SPAWN_MARGIN > SPAWN_MARGIN {
            screen.width - SPAWN_MARGIN
        } else {
            SPAWN_MARGIN + 1
        };
        let drawn = gen_spawn_x(SPAWN_MARGIN, hi);
        // The random source may round up onto `hi` itself; fold that edge
        // back into the intended half-open range.
        let x: i64 = if drawn >= hi {
            hi - 1
        } else {
            drawn
        };
        spawn_enemies(&mut world.enemies, &world.player, x);
        proof {
            let spawned = world.enemies@.last();
            assert(world.enemies@ =~= old(world).enemies@.push(spawned));
            assert(forall|j: int|
                0 <= j < world.enemies@.len() ==> enemy_wf(#[trigger] world.enemies@[j]));
        }
        world.enemy_timer.reset();
        world.enemy_timer.start();
    }

    let ghost pre_enemies = world.enemies@;
    let grace = world.grace_period;
    let fatal = process_enemies(&mut world.enemies, &world.player, &screen, dt, grace, &mut draws);
    proof {
        let p1 = spec_player_update(old(world).player, dt, inputs, screen).0;
        let pdraw_s = spec_player_update(old(world).player, dt, inputs, screen).1;
        let out = spec_process(pre_enemies, p1, screen, dt, old(world).grace_period);
        assert(seq![pdraw_s] + out.1 =~= draws@);
    }
    FrameResult { fatal, draws }
}

} // verus!
