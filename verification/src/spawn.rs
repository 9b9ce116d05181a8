//! Spawn-point sampling with a minimum separation.
//!
//! New agents spawn uniformly inside the world rectangle inset by a
//! border, at least a minimum distance from every previously chosen spawn
//! point of the wave; a candidate too close to an earlier point is
//! rejected and redrawn, and after a bounded number of attempts sampling
//! reports exhaustion. The generator is the deterministic [`SimRng`], so
//! the whole outcome — which point comes back, or that none fits, and the
//! generator state left behind — is a function of the inputs, and the
//! contracts here pin it exactly.

use vstd::prelude::*;

verus! {

use crate::motion::Pos;
use crate::motion::pos_in_bounds;
use crate::rng::SimRng;
use crate::rng::rng_step;
use crate::rng::rng_draw;
use crate::rng::rng_state_after;
use crate::trig::FULL_TURN_MDEG;

/// Default minimum separation between spawn points, in thousandths of a
/// unit.
pub const SPAWN_MIN_SEP_MILLI: i64 = 100_000;

/// Largest separation the sampler accepts.
pub const MAX_SEP_MILLI: i64 = 1_000_000;

/// How many candidates one spawn request may draw before reporting
/// exhaustion.
pub const SPAWN_MAX_ATTEMPTS: usize = 64;

/// Half-width of the spawn area: half the world width, inset by 100
/// units, in thousandths of a unit.
pub const SPAWN_X_LIMIT: i64 = 300_000;

/// Half-height of the spawn area: half the world height, inset by 100
/// units, in thousandths of a unit.
pub const SPAWN_Y_LIMIT: i64 = 200_000;

/// Failure of the sampler: the world could not satisfy the separation
/// constraint within the attempt budget.
#[derive(Clone, Copy, Debug, PartialEq, Eq, Structural)]
pub enum SpawnError {
    ExhaustedSpawnAttempts,
}

/// A position lies in the inset spawn area.
pub open spec fn in_spawn_area(p: Pos) -> bool {
    &&& -SPAWN_X_LIMIT <= p.x <= SPAWN_X_LIMIT
    &&& -SPAWN_Y_LIMIT <= p.y <= SPAWN_Y_LIMIT
}

/// Squared distance between two positions.
pub open spec fn dist_sq(a: Pos, b: Pos) -> int {
    (a.x - b.x) * (a.x - b.x) + (a.y - b.y) * (a.y - b.y)
}

/// `p` keeps at least distance `d` from every point of `pts`.
pub open spec fn separated_from_all(pts: Seq<Pos>, p: Pos, d: int) -> bool {
    forall|i: int| 0 <= i < pts.len() ==> dist_sq(#[trigger] pts[i], p) >= d * d
}

/// All points of `pts` are pairwise at least distance `d` apart.
pub open spec fn pairwise_separated(pts: Seq<Pos>, d: int) -> bool {
    forall|i: int, j: int|
        0 <= i < j < pts.len() ==> dist_sq(#[trigger] pts[i], #[trigger] pts[j]) >= d * d
}

/// Computes the squared distance.
pub fn dist_sq_milli(a: Pos, b: Pos) -> (r: i64)
    requires
        pos_in_bounds(a),
        pos_in_bounds(b),
    ensures
        r == dist_sq(a, b),
        r >= 0,
{
    let dx = a.x - b.x;
    let dy = a.y - b.y;
    proof {
        assert(dx * dx + dy * dy <= 768_000int * 768_000 + 568_000int * 568_000)
            by (nonlinear_arith)
            requires
                -768_000 <= dx <= 768_000,
                -568_000 <= dy <= 568_000,
        ;
        assert(dx * dx >= 0) by (nonlinear_arith);
        assert(dy * dy >= 0) by (nonlinear_arith);
    }
    dx * dx + dy * dy
}

/// Whether `p` keeps at least distance `d` from every point of `pts`.
pub fn far_from_all(pts: &Vec<Pos>, p: Pos, d: i64) -> (r: bool)
    requires
        forall|i: int| 0 <= i < pts@.len() ==> pos_in_bounds(#[trigger] pts@[i]),
        pos_in_bounds(p),
        0 <= d <= MAX_SEP_MILLI,
    ensures
        r == separated_from_all(pts@, p, d as int),
{
    proof {
        assert(d * d <= MAX_SEP_MILLI * MAX_SEP_MILLI) by (nonlinear_arith)
            requires
                0 <= d <= MAX_SEP_MILLI,
        ;
    }
    let dd = d * d;
    let n = pts.len();
    let mut i: usize = 0;
    while i < n
        invariant
            n == pts@.len(),
            i <= n,
            forall|k: int| 0 <= k < pts@.len() ==> pos_in_bounds(#[trigger] pts@[k]),
            pos_in_bounds(p),
            dd == d * d,
            forall|k: int| 0 <= k < i ==> dist_sq(#[trigger] pts@[k], p) >= d * d,
        decreases n - i,
    {
        let ds = dist_sq_milli(pts[i], p);
        if ds < dd {
            return false;
        }
        i = i + 1;
    }
    true
}

/// The candidate position two draws denote: uniform over the inset spawn
/// area.
pub open spec fn candidate_pos(dx: u32, dy: u32) -> Pos {
    Pos {
        x: (-SPAWN_X_LIMIT + dx as int % (2 * SPAWN_X_LIMIT + 1)) as i64,
        y: (-SPAWN_Y_LIMIT + dy as int % (2 * SPAWN_Y_LIMIT + 1)) as i64,
    }
}

/// The candidate the `k`-th attempt draws from the stream seeded at `s`;
/// each attempt consumes two draws.
pub open spec fn candidate_at(s: u64, k: nat) -> Pos {
    candidate_pos(rng_draw(rng_state_after(s, 2 * k)), rng_draw(rng_state_after(s, 2 * k + 1)))
}

/// Whether the `k`-th candidate of the stream keeps its distance from all
/// of `taken`.
pub open spec fn candidate_fits(s: u64, taken: Seq<Pos>, d: int, k: nat) -> bool {
    separated_from_all(taken, candidate_at(s, k), d)
}

/// The least attempt index in `[k, m)` whose candidate fits, or `m` when
/// none does.
pub open spec fn first_fit_from(s: u64, taken: Seq<Pos>, d: int, k: nat, m: nat) -> nat
    decreases m - k,
{
    if k >= m {
        m
    } else if candidate_fits(s, taken, d, k) {
        k
    } else {
        first_fit_from(s, taken, d, k + 1, m)
    }
}

/// The least attempt of the whole budget whose candidate fits, or the
/// budget itself when none does.
pub open spec fn first_fit(s: u64, taken: Seq<Pos>, d: int) -> nat {
    first_fit_from(s, taken, d, 0, SPAWN_MAX_ATTEMPTS as nat)
}

/// What one spawn pick returns: the candidate of the least fitting
/// attempt, or exhaustion when no attempt of the budget fits.
pub open spec fn pick_result(s: u64, taken: Seq<Pos>, d: int) -> Result<Pos, SpawnError> {
    if first_fit(s, taken, d) < SPAWN_MAX_ATTEMPTS {
        Result::Ok(candidate_at(s, first_fit(s, taken, d)))
    } else {
        Result::Err(SpawnError::ExhaustedSpawnAttempts)
    }
}

/// How many draws one spawn pick consumes: two per attempt, up to and
/// including the fitting one.
pub open spec fn pick_draws(s: u64, taken: Seq<Pos>, d: int) -> nat {
    if first_fit(s, taken, d) < SPAWN_MAX_ATTEMPTS {
        2 * (first_fit(s, taken, d) + 1)
    } else {
        2 * (SPAWN_MAX_ATTEMPTS as nat)
    }
}

/// `first_fit_from` is pinned by its defining facts: no earlier candidate
/// fits and, short of the budget, the found one does.
proof fn lemma_first_fit_from_is(s: u64, taken: Seq<Pos>, d: int, k: nat, m: nat, f: nat)
    requires
        k <= f <= m,
        forall|j: nat| k <= j < f ==> !candidate_fits(s, taken, d, j),
        f < m ==> candidate_fits(s, taken, d, f),
    ensures
        first_fit_from(s, taken, d, k, m) == f,
    decreases f - k,
{
    if k < f {
        assert(!candidate_fits(s, taken, d, k));
        lemma_first_fit_from_is(s, taken, d, k + 1, m, f);
    }
}

/// Conversely, `first_fit_from` has its defining properties: it lies in
/// `[k, m]`, its candidate fits when it is short of `m`, and no earlier
/// candidate fits.
pub proof fn lemma_first_fit_characterizes(s: u64, taken: Seq<Pos>, d: int, k: nat, m: nat)
    requires
        k <= m,
    ensures
        k <= first_fit_from(s, taken, d, k, m) <= m,
        first_fit_from(s, taken, d, k, m) < m ==> candidate_fits(
            s,
            taken,
            d,
            first_fit_from(s, taken, d, k, m),
        ),
        forall|j: nat|
            k <= j < first_fit_from(s, taken, d, k, m) ==> !candidate_fits(s, taken, d, j),
    decreases m - k,
{
    if k < m && !candidate_fits(s, taken, d, k) {
        lemma_first_fit_characterizes(s, taken, d, k + 1, m);
    }
}

/// Law: a spawn pick reports exhaustion exactly when no candidate of the
/// whole attempt budget keeps the separation; otherwise it returns the
/// candidate of the least fitting attempt.
pub proof fn lemma_pick_exhaustion(s: u64, taken: Seq<Pos>, d: int)
    ensures
        pick_result(s, taken, d) is Err <==> (forall|k: nat|
            k < SPAWN_MAX_ATTEMPTS ==> !candidate_fits(s, taken, d, k)),
{
    lemma_first_fit_characterizes(s, taken, d, 0, SPAWN_MAX_ATTEMPTS as nat);
    if pick_result(s, taken, d) is Err {
        assert forall|k: nat| k < SPAWN_MAX_ATTEMPTS implies !candidate_fits(s, taken, d, k) by {
            assert(first_fit(s, taken, d) == SPAWN_MAX_ATTEMPTS as nat);
        }
    }
}

/// Draws one candidate from the generator.
fn draw_candidate(rng: &mut SimRng) -> (p: Pos)
    ensures
        p == candidate_pos(rng_draw(old(rng)@), rng_draw(rng_step(old(rng)@))),
        final(rng)@ == rng_step(rng_step(old(rng)@)),
        in_spawn_area(p),
        pos_in_bounds(p),
{
    let dx = rng.next_draw();
    let dy = rng.next_draw();
    let x: i64 = -SPAWN_X_LIMIT + ((dx as i64) % (2 * SPAWN_X_LIMIT + 1));
    let y: i64 = -SPAWN_Y_LIMIT + ((dy as i64) % (2 * SPAWN_Y_LIMIT + 1));
    Pos { x, y }
}

/// Picks one spawn point at least `min_sep` away from every point of
/// `taken`: the candidate of the least fitting attempt, or
/// `ExhaustedSpawnAttempts` when none of the budget's candidates fits. On
/// an empty `taken` the very first candidate fits, so success is owed.
pub fn pick_spawn_point(taken: &Vec<Pos>, min_sep: i64, rng: &mut SimRng) -> (r: Result<
    Pos,
    SpawnError,
>)
    requires
        forall|i: int| 0 <= i < taken@.len() ==> pos_in_bounds(#[trigger] taken@[i]),
        0 <= min_sep <= MAX_SEP_MILLI,
    ensures
        r == pick_result(old(rng)@, taken@, min_sep as int),
        final(rng)@ == rng_state_after(
            old(rng)@,
            pick_draws(old(rng)@, taken@, min_sep as int),
        ),
        taken@.len() == 0 ==> r is Ok,
        r matches Ok(p) ==> {
            &&& in_spawn_area(p)
            &&& pos_in_bounds(p)
            &&& separated_from_all(taken@, p, min_sep as int)
        },
        r is Err ==> r == Result::<Pos, SpawnError>::Err(SpawnError::ExhaustedSpawnAttempts),
{
    let ghost seed: u64 = rng@;
    let ghost d: int = min_sep as int;
    let mut attempts: usize = 0;
    while attempts < SPAWN_MAX_ATTEMPTS
        invariant
            forall|i: int| 0 <= i < taken@.len() ==> pos_in_bounds(#[trigger] taken@[i]),
            0 <= min_sep <= MAX_SEP_MILLI,
            d == min_sep as int,
            seed == old(rng)@,
            attempts <= SPAWN_MAX_ATTEMPTS,
            rng@ == rng_state_after(seed, 2 * (attempts as nat)),
            forall|j: nat| j < attempts ==> !candidate_fits(seed, taken@, d, j),
        decreases SPAWN_MAX_ATTEMPTS - attempts,
    {
        proof {
            assert(rng_state_after(seed, 2 * (attempts as nat) + 1) == rng_step(
                rng_state_after(seed, 2 * (attempts as nat)),
            ));
            assert(rng_state_after(seed, 2 * (attempts as nat) + 2) == rng_step(
                rng_state_after(seed, 2 * (attempts as nat) + 1),
            ));
        }
        let p = draw_candidate(rng);
        proof {
            assert(p == candidate_at(seed, attempts as nat));
            assert(rng@ == rng_state_after(seed, 2 * (attempts as nat + 1)));
        }
        if far_from_all(taken, p, min_sep) {
            proof {
                assert(candidate_fits(seed, taken@, d, attempts as nat));
                lemma_first_fit_from_is(
                    seed,
                    taken@,
                    d,
                    0,
                    SPAWN_MAX_ATTEMPTS as nat,
                    attempts as nat,
                );
            }
            return Ok(p);
        }
        proof {
            assert(!candidate_fits(seed, taken@, d, attempts as nat));
        }
        attempts = attempts + 1;
    }
    proof {
        lemma_first_fit_from_is(
            seed,
            taken@,
            d,
            0,
            SPAWN_MAX_ATTEMPTS as nat,
            SPAWN_MAX_ATTEMPTS as nat,
        );
        if taken@.len() == 0 {
            assert(candidate_fits(seed, taken@, d, 0));
            assert(false);
        }
    }
    Err(SpawnError::ExhaustedSpawnAttempts)
}

/// The outcome of sampling `n` further points after `acc`, from the
/// stream at state `s`: the final point set (or the exhaustion error) and
/// the generator state left behind.
pub open spec fn sample_outcome(s: u64, acc: Seq<Pos>, d: int, n: nat) -> (
    Result<Seq<Pos>, SpawnError>,
    u64,
)
    decreases n,
{
    if n == 0 {
        (Result::Ok(acc), s)
    } else {
        let s1 = rng_state_after(s, pick_draws(s, acc, d));
        match pick_result(s, acc, d) {
            Result::Ok(p) => sample_outcome(s1, acc.push(p), d, (n - 1) as nat),
            Result::Err(e) => (Result::Err(e), s1),
        }
    }
}

/// Samples `n` spawn points, all inside the spawn area and pairwise at
/// least `min_sep` apart, or reports exhaustion if some point cannot be
/// placed within the attempt budget. Result and generator state are
/// exactly those of [`sample_outcome`] on the empty set; in particular
/// zero points always succeed.
pub fn sample_spawn_points(n: usize, min_sep: i64, rng: &mut SimRng) -> (r: Result<
    Vec<Pos>,
    SpawnError,
>)
    requires
        0 <= min_sep <= MAX_SEP_MILLI,
    ensures
        final(rng)@ == sample_outcome(old(rng)@, Seq::empty(), min_sep as int, n as nat).1,
        n == 0 ==> r is Ok,
        r matches Ok(pts) ==> {
            &&& sample_outcome(old(rng)@, Seq::empty(), min_sep as int, n as nat).0
                == Result::<Seq<Pos>, SpawnError>::Ok(pts@)
            &&& pts@.len() == n
            &&& pairwise_separated(pts@, min_sep as int)
            &&& forall|i: int| 0 <= i < pts@.len() ==> in_spawn_area(#[trigger] pts@[i])
            &&& forall|i: int| 0 <= i < pts@.len() ==> pos_in_bounds(#[trigger] pts@[i])
        },
        r is Err ==> {
            &&& r == Result::<Vec<Pos>, SpawnError>::Err(SpawnError::ExhaustedSpawnAttempts)
            &&& sample_outcome(old(rng)@, Seq::empty(), min_sep as int, n as nat).0
                == Result::<Seq<Pos>, SpawnError>::Err(SpawnError::ExhaustedSpawnAttempts)
        },
{
    let ghost seed: u64 = rng@;
    let ghost d: int = min_sep as int;
    let mut pts: Vec<Pos> = Vec::new();
    proof {
        assert(pts@ =~= Seq::<Pos>::empty());
    }
    let mut k: usize = 0;
    while k < n
        invariant
            k <= n,
            pts@.len() == k,
            0 <= min_sep <= MAX_SEP_MILLI,
            d == min_sep as int,
            seed == old(rng)@,
            pairwise_separated(pts@, d),
            forall|i: int| 0 <= i < pts@.len() ==> in_spawn_area(#[trigger] pts@[i]),
            forall|i: int| 0 <= i < pts@.len() ==> pos_in_bounds(#[trigger] pts@[i]),
            sample_outcome(seed, Seq::empty(), d, n as nat) == sample_outcome(
                rng@,
                pts@,
                d,
                (n - k) as nat,
            ),
        decreases n - k,
    {
        let ghost pre: u64 = rng@;
        let ghost before = pts@;
        match pick_spawn_point(&pts, min_sep, rng) {
            Ok(p) => {
                proof {
                    assert(pick_result(pre, before, d) == Result::<Pos, SpawnError>::Ok(p));
                    assert(sample_outcome(pre, before, d, (n - k) as nat) == sample_outcome(
                        rng@,
                        before.push(p),
                        d,
                        (n - k - 1) as nat,
                    ));
                }
                pts.push(p);
                proof {
                    assert forall|i: int, j: int| 0 <= i < j < pts@.len() implies dist_sq(
                        #[trigger] pts@[i],
                        #[trigger] pts@[j],
                    ) >= min_sep * min_sep by {
                        if j < before.len() {
                            assert(dist_sq(before[i], before[j]) >= min_sep * min_sep);
                        } else {
                            assert(pts@[j] == p);
                            assert(dist_sq(before[i], p) >= min_sep * min_sep);
                        }
                    }
                }
                k = k + 1;
            },
            Err(e) => {
                proof {
                    assert(sample_outcome(pre, before, d, (n - k) as nat).0
                        == Result::<Seq<Pos>, SpawnError>::Err(
                        SpawnError::ExhaustedSpawnAttempts,
                    ));
                    assert(sample_outcome(pre, before, d, (n - k) as nat).1 == rng@);
                }
                return Err(e);
            },
        }
    }
    proof {
        assert(sample_outcome(rng@, pts@, d, 0nat) == (
            Result::<Seq<Pos>, SpawnError>::Ok(pts@),
            rng@,
        ));
    }
    Ok(pts)
}

/// A heading drawn uniformly over the full circle.
pub fn random_heading(rng: &mut SimRng) -> (h: u32)
    ensures
        h == rng_draw(old(rng)@) % FULL_TURN_MDEG,
        h < FULL_TURN_MDEG,
        final(rng)@ == rng_step(old(rng)@),
{
    let d = rng.next_draw();
    d % FULL_TURN_MDEG
}

} // verus!
