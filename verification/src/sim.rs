//! The top-level simulation: agents, grid, damage field and the tick.
//!
//! One call to [`Simulation::tick`] runs three phases in order: every
//! active agent moves (steered by input or by its own random toggles),
//! then every active agent stresses the cell it now stands on and the
//! breaks are collected as fall events, and finally each fallen agent
//! enters its sink. The events of the tick are returned for the caller's
//! audio and visual reactions. The cosmetic damage field advances on its
//! own cadence through [`Simulation::damage_field_tick`] and never feeds
//! back into the grid.
//!
//! All randomness comes from the explicit generator handed in by the
//! caller, one draw per agent slot per tick, so that runs are reproducible
//! from the seed.

use vstd::prelude::*;

verus! {

use crate::GRID_COLS;
use crate::GRID_ROWS;
use crate::agent::Activity;
use crate::agent::Agent;
use crate::agent::AgentKind;
use crate::agent::agent_ticked;
use crate::agent::agent_wf;
use crate::agent::is_active;
use crate::agent::sink_agent;
use crate::agent::sunk;
use crate::agent::tick_agent;
use crate::field::DamageField;
use crate::field::FIELD_BYTES;
use crate::field::PixelData;
use crate::field::pixel_center;
use crate::field::pixel_center_of;
use crate::field::stamped;
use crate::field::stencil_wf;
use crate::grid::CellState;
use crate::grid::IceGrid;
use crate::grid::cell_breaks;
use crate::grid::cell_pos_index;
use crate::grid::cell_progresses;
use crate::grid::cell_stamps_at_most;
use crate::grid::cell_stressed;
use crate::grid::cell_index_for;
use crate::grid::initial_cell;
use crate::grid::lemma_cell_progression;
use crate::grid::lemma_cell_progresses_trans;
use crate::grid::lemma_clamped_position_in_grid;
use crate::motion::MAX_TICK_MS;
use crate::motion::MAX_TURN_RATE_MDEG;
use crate::motion::Pos;
use crate::motion::pos_in_bounds;
use crate::rng::SimRng;
use crate::rng::rng_draw_at;
use crate::rng::rng_state_after;
use crate::trig::FULL_TURN_MDEG;

/// Longest cosmetic-stamp cadence the model accepts, in milliseconds.
pub const MAX_STENCIL_PERIOD_MS: u64 = 10_000;

/// The one-shot signal that a cell broke under an agent this tick.
#[derive(Clone, Copy, Debug, PartialEq, Eq, Structural)]
pub struct FallEvent {
    pub agent: usize,
    pub position: Pos,
}

/// The agents after the motion phase: each slot ticks with the player
/// command and its own draw of the stream seeded at `seed`.
pub open spec fn agents_after_motion(
    agents: Seq<Agent>,
    cmd: Option<i64>,
    seed: u64,
    dt_ms: u64,
) -> Seq<Agent> {
    Seq::new(agents.len(), |i: int| agent_ticked(agents[i], cmd, rng_draw_at(seed, i as nat), dt_ms))
}

/// The grid after the first `n` agents of the stress phase, in slot
/// order: each active agent stresses the cell it stands on, seeing the
/// updates of the agents before it.
pub open spec fn grid_after_stress(
    g: Seq<CellState>,
    agents: Seq<Agent>,
    n: int,
    now_ms: u64,
    threshold_ms: u64,
) -> Seq<CellState>
    decreases n,
{
    if n <= 0 {
        g
    } else {
        let g1 = grid_after_stress(g, agents, n - 1, now_ms, threshold_ms);
        let a = agents[n - 1];
        if is_active(a) {
            g1.update(
                cell_pos_index(a.pos),
                cell_stressed(g1[cell_pos_index(a.pos)], now_ms, threshold_ms),
            )
        } else {
            g1
        }
    }
}

/// The fall events of the first `n` agents of the stress phase: one per
/// agent whose stress broke its cell, in slot order.
pub open spec fn events_after_stress(
    g: Seq<CellState>,
    agents: Seq<Agent>,
    n: int,
    now_ms: u64,
    threshold_ms: u64,
) -> Seq<FallEvent>
    decreases n,
{
    if n <= 0 {
        Seq::empty()
    } else {
        let e1 = events_after_stress(g, agents, n - 1, now_ms, threshold_ms);
        let g1 = grid_after_stress(g, agents, n - 1, now_ms, threshold_ms);
        let a = agents[n - 1];
        if is_active(a) && cell_breaks(g1[cell_pos_index(a.pos)], now_ms, threshold_ms) {
            e1.push(FallEvent { agent: (n - 1) as usize, position: a.pos })
        } else {
            e1
        }
    }
}

/// Whether some event of the tick names agent `i`.
pub open spec fn agent_fell(events: Seq<FallEvent>, i: int) -> bool {
    exists|k: int| 0 <= k < events.len() && (#[trigger] events[k]).agent == i
}

/// The agents after the fall phase: each fallen agent enters its sink.
pub open spec fn agents_after_falls(agents: Seq<Agent>, events: Seq<FallEvent>) -> Seq<Agent> {
    Seq::new(
        agents.len(),
        |i: int|
            if agent_fell(events, i) {
                sunk(agents[i])
            } else {
                agents[i]
            },
    )
}

/// Every active agent among the first `n` stands on an in-range cell.
pub open spec fn stress_indices_in_range(agents: Seq<Agent>, n: int) -> bool {
    forall|i: int|
        0 <= i < n && is_active(#[trigger] agents[i]) ==> {
            &&& pos_in_bounds(agents[i].pos)
            &&& 0 <= cell_pos_index(agents[i].pos) < GRID_COLS * GRID_ROWS
        }
}

/// Well-formed agents stand on in-range cells.
pub proof fn lemma_wf_agents_in_range(agents: Seq<Agent>, n: int)
    requires
        n <= agents.len(),
        forall|i: int| 0 <= i < agents.len() ==> agent_wf(#[trigger] agents[i]),
    ensures
        stress_indices_in_range(agents, n),
{
    assert forall|i: int| 0 <= i < n && is_active(#[trigger] agents[i]) implies {
        &&& pos_in_bounds(agents[i].pos)
        &&& 0 <= cell_pos_index(agents[i].pos) < GRID_COLS * GRID_ROWS
    } by {
        lemma_clamped_position_in_grid(agents[i].pos);
    }
}

/// The stress phase keeps the grid's size.
pub proof fn lemma_stress_keeps_len(
    g: Seq<CellState>,
    agents: Seq<Agent>,
    n: int,
    now_ms: u64,
    threshold_ms: u64,
)
    requires
        g.len() == GRID_COLS * GRID_ROWS,
        stress_indices_in_range(agents, n),
    ensures
        grid_after_stress(g, agents, n, now_ms, threshold_ms).len() == g.len(),
    decreases n,
{
    if n > 0 {
        lemma_stress_keeps_len(g, agents, n - 1, now_ms, threshold_ms);
    }
}

/// Law: a tick's grid only progresses: every cell of the stressed grid is
/// at least as far along the one-way lifecycle as before, cell by cell.
pub proof fn lemma_grid_only_progresses(
    g: Seq<CellState>,
    agents: Seq<Agent>,
    n: int,
    now_ms: u64,
    threshold_ms: u64,
)
    requires
        g.len() == GRID_COLS * GRID_ROWS,
        stress_indices_in_range(agents, n),
    ensures
        forall|c: int|
            0 <= c < g.len() ==> cell_progresses(
                #[trigger] g[c],
                grid_after_stress(g, agents, n, now_ms, threshold_ms)[c],
            ),
    decreases n,
{
    lemma_stress_keeps_len(g, agents, n, now_ms, threshold_ms);
    if n > 0 {
        lemma_grid_only_progresses(g, agents, n - 1, now_ms, threshold_ms);
        lemma_stress_keeps_len(g, agents, n - 1, now_ms, threshold_ms);
        let g1 = grid_after_stress(g, agents, n - 1, now_ms, threshold_ms);
        let g2 = grid_after_stress(g, agents, n, now_ms, threshold_ms);
        assert forall|c: int| 0 <= c < g.len() implies cell_progresses(
            #[trigger] g[c],
            g2[c],
        ) by {
            let a = agents[n - 1];
            if is_active(a) && cell_pos_index(a.pos) == c {
                lemma_cell_progression(g1[c], now_ms, threshold_ms);
                lemma_cell_progresses_trans(g[c], g1[c], g2[c]);
            }
        }
    }
}

/// Law: a cell under no active agent keeps its state through the stress
/// phase; in particular pristine ice under no agent stays pristine ice.
pub proof fn lemma_unstressed_cell_unchanged(
    g: Seq<CellState>,
    agents: Seq<Agent>,
    n: int,
    now_ms: u64,
    threshold_ms: u64,
    c: int,
)
    requires
        g.len() == GRID_COLS * GRID_ROWS,
        stress_indices_in_range(agents, n),
        0 <= c < g.len(),
        forall|i: int|
            0 <= i < n && is_active(#[trigger] agents[i]) ==> cell_pos_index(agents[i].pos) != c,
    ensures
        grid_after_stress(g, agents, n, now_ms, threshold_ms)[c] == g[c],
    decreases n,
{
    lemma_stress_keeps_len(g, agents, n, now_ms, threshold_ms);
    if n > 0 {
        lemma_unstressed_cell_unchanged(g, agents, n - 1, now_ms, threshold_ms, c);
        lemma_stress_keeps_len(g, agents, n - 1, now_ms, threshold_ms);
    }
}

/// Law: the whole tick pipeline is a function of the prior state, the
/// player command, the seed and the step: equal inputs give equal moved
/// agents, equal grids and equal fall events, which is what makes runs
/// replayable bit for bit.
pub proof fn lemma_tick_deterministic(
    agents_a: Seq<Agent>,
    agents_b: Seq<Agent>,
    g_a: Seq<CellState>,
    g_b: Seq<CellState>,
    cmd_a: Option<i64>,
    cmd_b: Option<i64>,
    seed_a: u64,
    seed_b: u64,
    dt_a: u64,
    dt_b: u64,
    now_a: u64,
    now_b: u64,
    thr_a: u64,
    thr_b: u64,
)
    requires
        agents_a == agents_b,
        g_a == g_b,
        cmd_a == cmd_b,
        seed_a == seed_b,
        dt_a == dt_b,
        now_a == now_b,
        thr_a == thr_b,
    ensures
        agents_after_motion(agents_a, cmd_a, seed_a, dt_a) == agents_after_motion(
            agents_b,
            cmd_b,
            seed_b,
            dt_b,
        ),
        ({
            let m_a = agents_after_motion(agents_a, cmd_a, seed_a, dt_a);
            let m_b = agents_after_motion(agents_b, cmd_b, seed_b, dt_b);
            &&& grid_after_stress(g_a, m_a, agents_a.len() as int, now_a, thr_a)
                == grid_after_stress(g_b, m_b, agents_b.len() as int, now_b, thr_b)
            &&& events_after_stress(g_a, m_a, agents_a.len() as int, now_a, thr_a)
                == events_after_stress(g_b, m_b, agents_b.len() as int, now_b, thr_b)
        }),
{
}

/// Law: one tick emits at most one fall event per agent: the events of a
/// tick name pairwise distinct agents, each a slot of the arena.
pub proof fn lemma_one_event_per_agent(
    g: Seq<CellState>,
    agents: Seq<Agent>,
    n: int,
    now_ms: u64,
    threshold_ms: u64,
)
    requires
        n <= usize::MAX,
    ensures
        forall|k: int|
            0 <= k < events_after_stress(g, agents, n, now_ms, threshold_ms).len()
                ==> (#[trigger] events_after_stress(g, agents, n, now_ms, threshold_ms)[k]).agent
                < n,
        forall|k1: int, k2: int|
            0 <= k1 < k2 < events_after_stress(g, agents, n, now_ms, threshold_ms).len()
                ==> (#[trigger] events_after_stress(g, agents, n, now_ms, threshold_ms)[k1]).agent
                != (#[trigger] events_after_stress(g, agents, n, now_ms, threshold_ms)[k2]).agent,
    decreases n,
{
    if n > 0 {
        lemma_one_event_per_agent(g, agents, n - 1, now_ms, threshold_ms);
        let prev = events_after_stress(g, agents, n - 1, now_ms, threshold_ms);
        let cur = events_after_stress(g, agents, n, now_ms, threshold_ms);
        let g1 = grid_after_stress(g, agents, n - 1, now_ms, threshold_ms);
        let a = agents[n - 1];
        if is_active(a) && cell_breaks(g1[cell_pos_index(a.pos)], now_ms, threshold_ms) {
            assert(cur == prev.push(FallEvent { agent: (n - 1) as usize, position: a.pos }));
        } else {
            assert(cur == prev);
        }
        assert forall|k: int| 0 <= k < cur.len() implies (#[trigger] cur[k]).agent < n by {
            if k < prev.len() {
                assert(cur[k] == prev[k]);
            }
        }
        assert forall|k1: int, k2: int| 0 <= k1 < k2 < cur.len() implies (#[trigger] cur[k1]).agent
            != (#[trigger] cur[k2]).agent by {
            assert(cur[k1] == prev[k1]);
            if k2 < prev.len() {
                assert(cur[k2] == prev[k2]);
                assert(prev[k1].agent != prev[k2].agent);
            } else {
                assert(cur.len() == prev.len() + 1);
                assert(k2 == prev.len());
                assert(cur[k2] == (FallEvent { agent: (n - 1) as usize, position: a.pos }));
                assert(prev[k1].agent < n - 1);
            }
        }
    }
}

/// The damage field after the cosmetic sampler has stamped the stencil at
/// each of the first `n` agents that is active.
pub open spec fn field_after_stamps(
    f: Seq<u8>,
    agents: Seq<Agent>,
    s: Seq<PixelData>,
    n: int,
) -> Seq<u8>
    decreases n,
{
    if n <= 0 {
        f
    } else {
        let f1 = field_after_stamps(f, agents, s, n - 1);
        let a = agents[n - 1];
        if is_active(a) {
            stamped(f1, s, pixel_center(a.pos).0, pixel_center(a.pos).1)
        } else {
            f1
        }
    }
}

/// The simulation state of one level: the agent arena, the grid, the
/// cosmetic damage field and the clock.
pub struct Simulation {
    agents: Vec<Agent>,
    grid: IceGrid,
    field: DamageField,
    time_ms: u64,
    threshold_ms: u64,
    stencil_period_ms: u64,
    stencil_acc_ms: u64,
}

impl Simulation {
    /// The agent arena; slots of removed agents stay, so indices are
    /// stable identifiers.
    pub closed spec fn agents(&self) -> Seq<Agent> {
        self.agents@
    }

    /// The grid cells, row-major.
    pub closed spec fn grid_cells(&self) -> Seq<CellState> {
        self.grid@
    }

    /// The damage buffer bytes.
    pub closed spec fn field_bytes(&self) -> Seq<u8> {
        self.field@
    }

    /// The simulation clock, in milliseconds.
    pub closed spec fn time(&self) -> u64 {
        self.time_ms
    }

    /// How long a cell cracks before it can break, in milliseconds.
    pub closed spec fn threshold(&self) -> u64 {
        self.threshold_ms
    }

    /// The cosmetic sampler's cadence, in milliseconds.
    pub closed spec fn stencil_period(&self) -> u64 {
        self.stencil_period_ms
    }

    /// Time accumulated toward the next cosmetic stamp.
    pub closed spec fn stencil_acc(&self) -> u64 {
        self.stencil_acc_ms
    }

    /// Well-formedness: full-size grid and field, well-formed agents, no
    /// cracking timestamp in the future, a sound sampler cadence.
    pub open spec fn wf(&self) -> bool {
        &&& self.grid_cells().len() == GRID_COLS * GRID_ROWS
        &&& self.field_bytes().len() == FIELD_BYTES
        &&& (forall|i: int|
            0 <= i < self.agents().len() ==> agent_wf(#[trigger] self.agents()[i]))
        &&& cell_stamps_at_most(self.grid_cells(), self.time())
        &&& 0 < self.stencil_period() <= MAX_STENCIL_PERIOD_MS
        &&& self.stencil_acc() < self.stencil_period()
    }

    /// Builds a fresh level: clock at zero, no agents, a grid with
    /// `border_rings` pre-cracked outer rings, a blank damage field.
    pub fn new(threshold_ms: u64, border_rings: usize, stencil_period_ms: u64) -> (s: Simulation)
        requires
            border_rings <= 30,
            0 < stencil_period_ms <= MAX_STENCIL_PERIOD_MS,
        ensures
            s.wf(),
            s.time() == 0,
            s.threshold() == threshold_ms,
            s.stencil_period() == stencil_period_ms,
            s.stencil_acc() == 0,
            s.agents().len() == 0,
            forall|row: int, col: int|
                0 <= row < GRID_ROWS && 0 <= col < GRID_COLS
                    ==> s.grid_cells()[row * GRID_COLS + col] == initial_cell(
                    col,
                    row,
                    border_rings as int,
                ),
            forall|k: int| 0 <= k < FIELD_BYTES ==> s.field_bytes()[k] == 0u8,
    {
        let grid = IceGrid::new(border_rings);
        let field = DamageField::new();
        let s = Simulation {
            agents: Vec::new(),
            grid,
            field,
            time_ms: 0,
            threshold_ms,
            stencil_period_ms,
            stencil_acc_ms: 0,
        };
        proof {
            assert forall|c: int|
                0 <= c < s.grid_cells().len() implies ((#[trigger] s.grid_cells()[c])
                matches CellState::Cracking { since_ms } ==> since_ms <= s.time()) by {
                let row = c / (GRID_COLS as int);
                let col = c % (GRID_COLS as int);
                vstd::arithmetic::div_mod::lemma_fundamental_div_mod(c, GRID_COLS as int);
                vstd::arithmetic::div_mod::lemma_mod_division_less_than_divisor(
                    c,
                    GRID_COLS as int,
                );
                vstd::arithmetic::div_mod::lemma_div_pos_is_pos(c, GRID_COLS as int);
                vstd::arithmetic::div_mod::lemma_multiply_divide_lt(
                    c,
                    GRID_COLS as int,
                    GRID_ROWS as int,
                );
                assert(s.grid_cells()[row * GRID_COLS + col] == initial_cell(
                    col,
                    row,
                    border_rings as int,
                ));
            }
        }
        s
    }

    /// Adds an agent to the arena, active, going straight; returns its
    /// stable identifier.
    pub fn spawn_agent(&mut self, kind: AgentKind, pos: Pos, heading_mdeg: u32) -> (id: usize)
        requires
            old(self).wf(),
            pos_in_bounds(pos),
            heading_mdeg < FULL_TURN_MDEG,
        ensures
            final(self).wf(),
            id == old(self).agents().len(),
            final(self).agents() == old(self).agents().push(
                Agent {
                    kind,
                    pos,
                    heading_mdeg,
                    steering_mdeg: None,
                    activity: Activity::Active,
                },
            ),
            final(self).grid_cells() == old(self).grid_cells(),
            final(self).field_bytes() == old(self).field_bytes(),
            final(self).time() == old(self).time(),
            final(self).threshold() == old(self).threshold(),
            final(self).stencil_period() == old(self).stencil_period(),
            final(self).stencil_acc() == old(self).stencil_acc(),
    {
        let id = self.agents.len();
        self.agents.push(
            Agent { kind, pos, heading_mdeg, steering_mdeg: None, activity: Activity::Active },
        );
        proof {
            assert forall|i: int|
                0 <= i < self.agents().len() implies agent_wf(#[trigger] self.agents()[i]) by {
                if i < old(self).agents().len() {
                    assert(self.agents()[i] == old(self).agents()[i]);
                    assert(agent_wf(old(self).agents()[i]));
                }
            }
        }
        id
    }

    /// Takes an agent out of play immediately.
    pub fn remove_agent(&mut self, id: usize)
        requires
            old(self).wf(),
            id < old(self).agents().len(),
        ensures
            final(self).wf(),
            final(self).agents() == old(self).agents().update(
                id as int,
                Agent { activity: Activity::Removed, ..old(self).agents()[id as int] },
            ),
            final(self).grid_cells() == old(self).grid_cells(),
            final(self).field_bytes() == old(self).field_bytes(),
            final(self).time() == old(self).time(),
            final(self).threshold() == old(self).threshold(),
            final(self).stencil_period() == old(self).stencil_period(),
            final(self).stencil_acc() == old(self).stencil_acc(),
    {
        let a = self.agents[id];
        self.agents.set(id, Agent { activity: Activity::Removed, ..a });
    }

    /// How many agent slots the arena holds.
    pub fn agent_count(&self) -> (n: usize)
        ensures
            n == self.agents().len(),
    {
        self.agents.len()
    }

    /// Reads one agent, for the renderer.
    pub fn agent(&self, id: usize) -> (a: Agent)
        requires
            id < self.agents().len(),
        ensures
            a == self.agents()[id as int],
    {
        self.agents[id]
    }

    /// Reads one cell, for diagnostics.
    pub fn cell_state(&self, col: usize, row: usize) -> (c: CellState)
        requires
            self.wf(),
            col < GRID_COLS,
            row < GRID_ROWS,
        ensures
            c == self.grid_cells()[row * GRID_COLS + col],
    {
        self.grid.state_of(col, row)
    }

    /// The simulation clock, in milliseconds.
    pub fn now_ms(&self) -> (t: u64)
        ensures
            t == self.time(),
    {
        self.time_ms
    }

    /// The damage buffer, for the renderer's texture upload.
    pub fn damage_buffer(&self) -> (r: &Vec<u8>)
        ensures
            r@ == self.field_bytes(),
    {
        self.field.bytes()
    }

    /// Reads one damage-buffer byte, for the renderer's texture upload.
    pub fn damage_byte(&self, k: usize) -> (b: u8)
        requires
            self.wf(),
            k < FIELD_BYTES,
        ensures
            b == self.field_bytes()[k as int],
    {
        self.field.byte_at(k)
    }

    /// One simulation tick: motion, then grid stress, then falls. Returns
    /// the fall events of the tick, in agent order. The grid cell by cell
    /// only progresses, and every agent ends the tick inside the clamped
    /// world rectangle.
    pub fn tick(&mut self, dt_ms: u64, player_steering: Option<i64>, rng: &mut SimRng) -> (events:
        Vec<FallEvent>)
        requires
            old(self).wf(),
            dt_ms <= MAX_TICK_MS,
            old(self).time() + dt_ms <= u64::MAX,
            player_steering matches Some(v) ==> -MAX_TURN_RATE_MDEG <= v <= MAX_TURN_RATE_MDEG,
        ensures
            final(self).wf(),
            final(self).time() == old(self).time() + dt_ms,
            final(self).threshold() == old(self).threshold(),
            final(self).field_bytes() == old(self).field_bytes(),
            final(self).stencil_period() == old(self).stencil_period(),
            final(self).stencil_acc() == old(self).stencil_acc(),
            final(self).agents().len() == old(self).agents().len(),
            final(rng)@ == rng_state_after(old(rng)@, old(self).agents().len() as nat),
            ({
                let moved = agents_after_motion(
                    old(self).agents(),
                    player_steering,
                    old(rng)@,
                    dt_ms,
                );
                let now = (old(self).time() + dt_ms) as u64;
                let n = old(self).agents().len() as int;
                &&& final(self).grid_cells() == grid_after_stress(
                    old(self).grid_cells(),
                    moved,
                    n,
                    now,
                    old(self).threshold(),
                )
                &&& events@ == events_after_stress(
                    old(self).grid_cells(),
                    moved,
                    n,
                    now,
                    old(self).threshold(),
                )
                &&& final(self).agents() == agents_after_falls(moved, events@)
            }),
            forall|c: int|
                0 <= c < old(self).grid_cells().len() ==> cell_progresses(
                    #[trigger] old(self).grid_cells()[c],
                    final(self).grid_cells()[c],
                ),
            forall|i: int|
                0 <= i < final(self).agents().len() ==> pos_in_bounds(
                    (#[trigger] final(self).agents()[i]).pos,
                ),
    {
        let ghost seed: u64 = rng@;
        let ghost agents0 = self.agents@;
        let ghost g0 = self.grid@;
        let n = self.agents.len();
        let now = self.time_ms + dt_ms;
        let threshold = self.threshold_ms;
        let ghost moved = agents_after_motion(agents0, player_steering, seed, dt_ms);
        proof {
            assert forall|j: int| 0 <= j < n implies agent_wf(#[trigger] agents0[j]) by {
                assert(agents0[j] == old(self).agents()[j]);
                assert(agent_wf(old(self).agents()[j]));
            }
        }

        // Phase 1: motion, one draw per agent slot.
        let mut i: usize = 0;
        while i < n
            invariant
                i <= n,
                n == self.agents@.len(),
                agents0.len() == n,
                moved == agents_after_motion(agents0, player_steering, seed, dt_ms),
                rng@ == rng_state_after(seed, i as nat),
                dt_ms <= MAX_TICK_MS,
                player_steering matches Some(v) ==> -MAX_TURN_RATE_MDEG <= v
                    <= MAX_TURN_RATE_MDEG,
                forall|j: int| 0 <= j < n ==> agent_wf(#[trigger] agents0[j]),
                forall|j: int| i <= j < n ==> self.agents@[j] == agents0[j],
                forall|j: int| 0 <= j < i ==> self.agents@[j] == moved[j],
                forall|j: int| 0 <= j < i ==> agent_wf(#[trigger] self.agents@[j]),
                self.grid@ == g0,
                self.field@ == old(self).field@,
                self.time_ms == old(self).time_ms,
                self.threshold_ms == old(self).threshold_ms,
                self.stencil_period_ms == old(self).stencil_period_ms,
                self.stencil_acc_ms == old(self).stencil_acc_ms,
            decreases n - i,
        {
            let draw = rng.next_draw();
            proof {
                assert(rng_state_after(seed, (i + 1) as nat) == crate::rng::rng_step(
                    rng_state_after(seed, i as nat),
                ));
                assert(draw == rng_draw_at(seed, i as nat));
            }
            let a = self.agents[i];
            proof {
                assert(a == agents0[i as int]);
                assert(agent_wf(agents0[i as int]));
            }
            let a2 = tick_agent(a, player_steering, draw, dt_ms);
            self.agents.set(i, a2);
            i = i + 1;
        }
        proof {
            assert(self.agents@ =~= moved);
        }

        // Phase 2: grid stress in slot order; collect the breaks.
        let mut events: Vec<FallEvent> = Vec::new();
        let mut i: usize = 0;
        while i < n
            invariant
                i <= n,
                n == self.agents@.len(),
                self.agents@ == moved,
                moved.len() == n,
                forall|j: int| 0 <= j < n ==> agent_wf(#[trigger] moved[j]),
                self.grid@.len() == GRID_COLS * GRID_ROWS,
                g0.len() == GRID_COLS * GRID_ROWS,
                self.grid@ == grid_after_stress(g0, moved, i as int, now, threshold),
                events@ == events_after_stress(g0, moved, i as int, now, threshold),
                cell_stamps_at_most(self.grid@, now),
                forall|k: int| 0 <= k < events@.len() ==> (#[trigger] events@[k]).agent < n,
                forall|k: int|
                    0 <= k < events@.len() ==> pos_in_bounds((#[trigger] events@[k]).position),
                self.field@ == old(self).field@,
                self.time_ms == old(self).time_ms,
                self.threshold_ms == old(self).threshold_ms,
                threshold == self.threshold_ms,
                self.stencil_period_ms == old(self).stencil_period_ms,
                self.stencil_acc_ms == old(self).stencil_acc_ms,
            decreases n - i,
        {
            let a = self.agents[i];
            let active = match a.activity {
                Activity::Active => true,
                _ => false,
            };
            if active {
                let rc = cell_index_for(a.pos);
                let col = rc.0;
                let row = rc.1;
                let broke = self.grid.stress_cell(col, row, now, threshold);
                if broke {
                    events.push(FallEvent { agent: i, position: a.pos });
                }
            }
            i = i + 1;
        }

        // Phase 3: each fallen agent enters its sink.
        let ghost evs = events@;
        let m = events.len();
        let mut j: usize = 0;
        while j < m
            invariant
                j <= m,
                m == evs.len(),
                events@ == evs,
                n == self.agents@.len(),
                moved.len() == n,
                forall|k: int| 0 <= k < evs.len() ==> (#[trigger] evs[k]).agent < n,
                forall|p: int| 0 <= p < n ==> agent_wf(#[trigger] moved[p]),
                forall|p: int|
                    0 <= p < n ==> #[trigger] self.agents@[p] == if agent_fell(
                        evs.take(j as int),
                        p,
                    ) {
                        sunk(moved[p])
                    } else {
                        moved[p]
                    },
                self.grid@ == grid_after_stress(g0, moved, n as int, now, threshold),
                self.grid@.len() == GRID_COLS * GRID_ROWS,
                cell_stamps_at_most(self.grid@, now),
                self.field@ == old(self).field@,
                self.time_ms == old(self).time_ms,
                self.threshold_ms == old(self).threshold_ms,
                self.stencil_period_ms == old(self).stencil_period_ms,
                self.stencil_acc_ms == old(self).stencil_acc_ms,
            decreases m - j,
        {
            let e = events[j];
            let a = self.agents[e.agent];
            proof {
                assert(agent_wf(a));
            }
            let a2 = sink_agent(a);
            self.agents.set(e.agent, a2);
            proof {
                assert(evs.take(j + 1).drop_last() =~= evs.take(j as int));
                assert forall|p: int| 0 <= p < n implies #[trigger] self.agents@[p] == (
                if agent_fell(evs.take(j + 1), p) {
                    sunk(moved[p])
                } else {
                    moved[p]
                }) by {
                    if p == e.agent as int {
                        assert(evs.take(j + 1)[j as int] == e);
                        assert(agent_fell(evs.take(j + 1), p));
                    } else {
                        assert(agent_fell(evs.take(j + 1), p) == agent_fell(
                            evs.take(j as int),
                            p,
                        )) by {
                            if agent_fell(evs.take(j as int), p) {
                                let k = choose|k: int|
                                    0 <= k < evs.take(j as int).len() && (#[trigger] evs.take(
                                        j as int,
                                    )[k]).agent == p;
                                assert(evs.take(j + 1)[k].agent == p);
                            }
                            if agent_fell(evs.take(j + 1), p) {
                                let k = choose|k: int|
                                    0 <= k < evs.take(j + 1).len() && (#[trigger] evs.take(
                                        j + 1,
                                    )[k]).agent == p;
                                assert(k < j + 1);
                                assert(k != j);
                                assert(evs.take(j as int)[k].agent == p);
                            }
                        }
                    }
                }
            }
            j = j + 1;
        }
        proof {
            assert(evs.take(m as int) =~= evs);
            assert(self.agents@ =~= agents_after_falls(moved, evs));
        }

        self.time_ms = now;
        proof {
            lemma_grid_only_progresses(g0, moved, n as int, now, threshold);
            assert forall|i2: int|
                0 <= i2 < self.agents@.len() implies agent_wf(#[trigger] self.agents@[i2]) by {
                assert(self.agents@[i2] == agents_after_falls(moved, evs)[i2]);
            }
        }
        events
    }

    /// Advances the cosmetic sampler by `dt_ms`: when its cadence elapses
    /// it stamps the given stencil at every active agent's pixel position
    /// (clipped, saturating) and starts over. Gameplay state is untouched,
    /// whatever happens here.
    pub fn damage_field_tick(&mut self, dt_ms: u64, stencil: &Vec<PixelData>) -> (fired: bool)
        requires
            old(self).wf(),
            dt_ms <= MAX_TICK_MS,
            stencil_wf(stencil@),
        ensures
            final(self).wf(),
            fired == (old(self).stencil_acc() + dt_ms >= old(self).stencil_period()),
            final(self).stencil_acc() == if fired {
                0u64
            } else {
                (old(self).stencil_acc() + dt_ms) as u64
            },
            final(self).field_bytes() == if fired {
                field_after_stamps(
                    old(self).field_bytes(),
                    old(self).agents(),
                    stencil@,
                    old(self).agents().len() as int,
                )
            } else {
                old(self).field_bytes()
            },
            final(self).agents() == old(self).agents(),
            final(self).grid_cells() == old(self).grid_cells(),
            final(self).time() == old(self).time(),
            final(self).threshold() == old(self).threshold(),
            final(self).stencil_period() == old(self).stencil_period(),
    {
        let ghost f0 = self.field@;
        proof {
            assert forall|j: int|
                0 <= j < self.agents@.len() implies agent_wf(#[trigger] self.agents@[j]) by {
                assert(self.agents@[j] == old(self).agents()[j]);
                assert(agent_wf(old(self).agents()[j]));
            }
        }
        let acc = self.stencil_acc_ms + dt_ms;
        if acc >= self.stencil_period_ms {
            let n = self.agents.len();
            let mut i: usize = 0;
            while i < n
                invariant
                    i <= n,
                    n == self.agents@.len(),
                    forall|j: int| 0 <= j < n ==> agent_wf(#[trigger] self.agents@[j]),
                    stencil_wf(stencil@),
                    self.field@.len() == FIELD_BYTES,
                    self.field@ == field_after_stamps(f0, self.agents@, stencil@, i as int),
                    self.agents@ == old(self).agents@,
                    self.grid@ == old(self).grid@,
                    self.time_ms == old(self).time_ms,
                    self.threshold_ms == old(self).threshold_ms,
                    self.stencil_period_ms == old(self).stencil_period_ms,
                    self.stencil_acc_ms == old(self).stencil_acc_ms,
                decreases n - i,
            {
                let a = self.agents[i];
                let active = match a.activity {
                    Activity::Active => true,
                    _ => false,
                };
                if active {
                    let c = pixel_center_of(a.pos);
                    self.field.stamp(stencil, c.0, c.1);
                }
                i = i + 1;
            }
            self.stencil_acc_ms = 0;
            true
        } else {
            self.stencil_acc_ms = acc;
            false
        }
    }
}

} // verus!
