use on_thin_ice::agent::{render_scale_milli, Activity, AgentKind};
use on_thin_ice::field::PixelData;
use on_thin_ice::grid::{CellState, IceGrid};
use on_thin_ice::motion::Pos;
use on_thin_ice::rng::SimRng;
use on_thin_ice::sim::Simulation;

// A position pinned against the east clamp edge: an agent heading east
// stays exactly here, tick after tick.
const PINNED: Pos = Pos { x: 384_000, y: -245_000 };
const EAST_MDEG: u32 = 90_000;

#[test]
fn cell_cracks_then_breaks_at_threshold() {
    let mut grid = IceGrid::new(2);
    assert_eq!(grid.state_of(5, 5), CellState::Ice);
    // first stress at time zero starts the crack, no break
    assert!(!grid.stress_cell(5, 5, 0, 400));
    assert_eq!(grid.state_of(5, 5), CellState::Cracking { since_ms: 0 });
    // at exactly the threshold the cell still holds
    assert!(!grid.stress_cell(5, 5, 400, 400));
    assert_eq!(grid.state_of(5, 5), CellState::Cracking { since_ms: 0 });
    // strictly past the threshold it breaks
    assert!(grid.stress_cell(5, 5, 410, 400));
    assert_eq!(grid.state_of(5, 5), CellState::Broken);
    // broken is terminal: more stress is a no-op
    assert!(!grid.stress_cell(5, 5, 10_000, 400));
    assert_eq!(grid.state_of(5, 5), CellState::Broken);
}

#[test]
fn border_rings_start_cracked() {
    let grid = IceGrid::new(2);
    assert_eq!(grid.state_of(0, 0), CellState::Cracking { since_ms: 0 });
    assert_eq!(grid.state_of(79, 59), CellState::Cracking { since_ms: 0 });
    assert_eq!(grid.state_of(1, 30), CellState::Cracking { since_ms: 0 });
    assert_eq!(grid.state_of(2, 30), CellState::Ice);
    assert_eq!(grid.state_of(40, 30), CellState::Ice);
}

#[test]
fn player_breaks_through_after_threshold() {
    let mut sim = Simulation::new(400, 0, 200);
    let mut rng = SimRng::seeded(42);
    let id = sim.spawn_agent(AgentKind::Player, PINNED, EAST_MDEG);
    assert_eq!(id, 0);

    // standing on pristine ice at time zero starts the crack, no fall yet
    let events = sim.tick(0, None, &mut rng);
    assert!(events.is_empty());
    assert_eq!(sim.cell_state(78, 5), CellState::Cracking { since_ms: 0 });

    // still standing at exactly the threshold: no fall yet
    let events = sim.tick(400, None, &mut rng);
    assert!(events.is_empty());
    assert_eq!(sim.cell_state(78, 5), CellState::Cracking { since_ms: 0 });

    // strictly past the threshold the cell breaks under the player:
    // exactly one fall event, at the player's position
    let events = sim.tick(10, None, &mut rng);
    assert_eq!(events.len(), 1);
    assert_eq!(events[0].agent, 0);
    assert_eq!(events[0].position, PINNED);
    assert_eq!(sim.cell_state(78, 5), CellState::Broken);
    assert_eq!(
        sim.agent(0).activity,
        Activity::Sinking { elapsed_ms: 0, duration_ms: 3000 }
    );
}

#[test]
fn fallen_player_sinks_and_is_excluded() {
    let mut sim = Simulation::new(0, 0, 200);
    let mut rng = SimRng::seeded(42);
    sim.spawn_agent(AgentKind::Player, PINNED, EAST_MDEG);
    sim.tick(0, None, &mut rng);
    let events = sim.tick(1, None, &mut rng);
    assert_eq!(events.len(), 1);

    // partway through the sink the render scale has shrunk linearly
    sim.tick(1000, None, &mut rng);
    let a = sim.agent(0);
    assert_eq!(a.activity, Activity::Sinking { elapsed_ms: 1000, duration_ms: 3000 });
    assert_eq!(render_scale_milli(&a), 666);

    // after the full three seconds the scale is zero and the player
    // stays at the end of its sink
    sim.tick(1000, None, &mut rng);
    sim.tick(1000, None, &mut rng);
    let a = sim.agent(0);
    assert_eq!(a.activity, Activity::Sinking { elapsed_ms: 3000, duration_ms: 3000 });
    assert_eq!(render_scale_milli(&a), 0);

    // a sinking agent neither moves nor stresses the grid: its position
    // holds and no further events fire
    assert_eq!(a.pos, PINNED);
    let events = sim.tick(1000, None, &mut rng);
    assert!(events.is_empty());
    assert_eq!(sim.agent(0).pos, PINNED);
}

#[test]
fn fallen_animal_is_removed_after_its_sink() {
    let mut sim = Simulation::new(0, 0, 200);
    let mut rng = SimRng::seeded(7);
    sim.spawn_agent(AgentKind::Animal, PINNED, EAST_MDEG);
    sim.tick(0, None, &mut rng);
    let events = sim.tick(1, None, &mut rng);
    assert_eq!(events.len(), 1);
    assert_eq!(
        sim.agent(0).activity,
        Activity::Sinking { elapsed_ms: 0, duration_ms: 3000 }
    );
    sim.tick(1000, None, &mut rng);
    sim.tick(1000, None, &mut rng);
    sim.tick(1000, None, &mut rng);
    assert_eq!(sim.agent(0).activity, Activity::Removed);
    assert_eq!(render_scale_milli(&sim.agent(0)), 0);
}

#[test]
fn unstressed_ice_never_decays() {
    let mut sim = Simulation::new(400, 0, 200);
    let mut rng = SimRng::seeded(42);
    sim.spawn_agent(AgentKind::Player, PINNED, EAST_MDEG);
    for _ in 0..20 {
        sim.tick(100, None, &mut rng);
    }
    // the pinned player only ever touches its own cell; everything else
    // is still pristine ice
    for col in 0..80 {
        for row in 0..60 {
            if !(col == 78 && row == 5) {
                assert_eq!(sim.cell_state(col, row), CellState::Ice);
            }
        }
    }
}

#[test]
fn runs_replay_bit_for_bit_from_equal_seeds() {
    let mut sim_a = Simulation::new(400, 2, 200);
    let mut sim_b = Simulation::new(400, 2, 200);
    let mut rng_a = SimRng::seeded(42);
    let mut rng_b = SimRng::seeded(42);
    for sim in [&mut sim_a, &mut sim_b] {
        sim.spawn_agent(AgentKind::Animal, Pos { x: 0, y: 0 }, 76_902);
        sim.spawn_agent(AgentKind::Animal, Pos { x: 50_000, y: -40_000 }, 123_456);
        sim.spawn_agent(AgentKind::Player, Pos { x: -100_000, y: 100_000 }, 0);
    }
    let steering = [None, Some(68_755i64), Some(-68_755i64), None];
    let mut total_events_a = 0;
    let mut total_events_b = 0;
    for t in 0..200 {
        let cmd = steering[t % steering.len()];
        total_events_a += sim_a.tick(16, cmd, &mut rng_a).len();
        total_events_b += sim_b.tick(16, cmd, &mut rng_b).len();
        for id in 0..3 {
            let a = sim_a.agent(id);
            let b = sim_b.agent(id);
            assert_eq!(a.pos, b.pos);
            assert_eq!(a.heading_mdeg, b.heading_mdeg);
            assert_eq!(a.steering_mdeg, b.steering_mdeg);
            assert_eq!(a.activity, b.activity);
        }
    }
    assert_eq!(total_events_a, total_events_b);
    for col in 0..80 {
        for row in 0..60 {
            assert_eq!(sim_a.cell_state(col, row), sim_b.cell_state(col, row));
        }
    }
}

#[test]
fn cosmetic_sampler_fires_on_its_own_cadence() {
    let mut sim = Simulation::new(400, 0, 200);
    sim.spawn_agent(AgentKind::Player, Pos { x: 0, y: 0 }, 0);
    let stencil = vec![PixelData { row: 16, column: 16, offset: 0, data: 100 }];

    // the cadence has not elapsed yet: no stamp
    assert!(!sim.damage_field_tick(100, &stencil));
    let k = (300 * 800 + 400) * 4;
    assert_eq!(sim.damage_byte(k), 0);

    // now it elapses: one stamp at the agent's pixel
    assert!(sim.damage_field_tick(100, &stencil));
    assert_eq!(sim.damage_byte(k), 100);

    // and it accumulates additively on the next firing
    assert!(sim.damage_field_tick(200, &stencil));
    assert_eq!(sim.damage_byte(k), 200);

    // the cosmetic layer never touches gameplay state
    assert_eq!(sim.now_ms(), 0);
    assert_eq!(sim.cell_state(40, 30), CellState::Ice);
    assert_eq!(sim.agent(0).pos, Pos { x: 0, y: 0 });
}

#[test]
fn removed_agent_slot_is_inert() {
    let mut sim = Simulation::new(400, 0, 200);
    let mut rng = SimRng::seeded(42);
    let id = sim.spawn_agent(AgentKind::Animal, PINNED, EAST_MDEG);
    sim.remove_agent(id);
    for _ in 0..5 {
        let events = sim.tick(100, None, &mut rng);
        assert!(events.is_empty());
    }
    assert_eq!(sim.agent(id).activity, Activity::Removed);
    assert_eq!(sim.cell_state(78, 5), CellState::Ice);
}

#[test]
fn same_cell_agents_see_sequential_updates() {
    let mut sim = Simulation::new(0, 0, 200);
    let mut rng = SimRng::seeded(7);
    // two agents pinned on the same cell
    sim.spawn_agent(AgentKind::Player, PINNED, EAST_MDEG);
    sim.spawn_agent(AgentKind::Animal, PINNED, EAST_MDEG);

    // the first agent in slot order cracks the cell; the second already
    // sees it cracking and cannot crack it again
    let events = sim.tick(0, None, &mut rng);
    assert!(events.is_empty());
    assert_eq!(sim.cell_state(78, 5), CellState::Cracking { since_ms: 0 });

    // the first agent breaks the cell; the second sees it already broken,
    // so the shared break fires exactly one event
    let events = sim.tick(1, None, &mut rng);
    assert_eq!(events.len(), 1);
    assert_eq!(events[0].agent, 0);
    assert_eq!(sim.cell_state(78, 5), CellState::Broken);
    assert_eq!(
        sim.agent(0).activity,
        Activity::Sinking { elapsed_ms: 0, duration_ms: 3000 }
    );
    assert_eq!(sim.agent(1).activity, Activity::Active);

    // the broken cell absorbs the second agent's visits: no more events
    let events = sim.tick(1, None, &mut rng);
    assert!(events.is_empty());
}
