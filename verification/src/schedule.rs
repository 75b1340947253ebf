//! The order in which a step visits the pairs of bodies.
//!
//! A step lets every two bodies attract each other once. It goes through the
//! pairs `(first, second)` with `first < second` row by row: `(0, 1)`, `(0, 2)`,
//! and so on to the last body, then `(1, 2)`, and so on. A pair whose bodies
//! share an x-coordinate is passed over: the force law has no finite value
//! there. When no pair is left, the bodies move.

use crate::actor::{bodies_of, Body, SimulationActor};
use vstd::prelude::*;

verus! {

/// What the host is asked to compute next in a step.
#[derive(Clone, Copy, Debug, PartialEq, Eq, Structural)]
pub enum StepAction {
    /// The velocities that the bodies at these two places have after
    /// attracting each other for one time step.
    Attract { first: usize, second: usize },
    /// The position of every body after moving at its velocity for one time
    /// step.
    Move,
    /// Nothing: the step is complete.
    Done,
}

/// The two bodies have numerically equal x-coordinates.
pub open spec fn same_abscissa(a: Body, b: Body) -> bool {
    a.position.0.equal(b.position.0)
}

/// `(first, second)` is a pair that a step visits: two different places in
/// `bodies`, the smaller first, whose bodies do not share an x-coordinate.
pub open spec fn live_pair(bodies: Seq<Body>, first: int, second: int) -> bool {
    0 <= first < second < bodies.len() && !same_abscissa(bodies[first], bodies[second])
}

/// `a` comes before `b` in the order of visiting, or is `b`.
pub open spec fn not_after(a: (int, int), b: (int, int)) -> bool {
    a.0 < b.0 || (a.0 == b.0 && a.1 <= b.1)
}

/// The action for the first live pair that is not before `(first, second)`;
/// `Move` if there is none.
pub open spec fn seek(bodies: Seq<Body>, first: int, second: int) -> StepAction
    decreases bodies.len() - first, bodies.len() - second,
{
    if first + 1 >= bodies.len() {
        StepAction::Move
    } else if second >= bodies.len() {
        seek(bodies, first + 1, first + 2)
    } else if !same_abscissa(bodies[first], bodies[second]) {
        StepAction::Attract { first: first as usize, second: second as usize }
    } else {
        seek(bodies, first, second + 1)
    }
}

/// Finds the first pair to visit that is not before `(first, second)`.
pub fn next_action(elements: &[SimulationActor], first: usize, second: usize) -> (action:
    StepAction)
    requires
        first < second,
    ensures
        action == seek(bodies_of(elements@), first as int, second as int),
{
    let n = elements.len();
    let mut i: usize = first;
    let mut j: usize = second;
    loop
        invariant
            n == elements@.len(),
            i < j,
            seek(bodies_of(elements@), i as int, j as int) == seek(
                bodies_of(elements@),
                first as int,
                second as int,
            ),
        decreases n - i, n - j,
    {
        if n < 2 || i >= n - 1 {
            return StepAction::Move;
        }
        if j >= n {
            i = i + 1;
            j = i + 1;
        } else if !elements[i].coordinates().0.eq(&elements[j].coordinates().0) {
            return StepAction::Attract { first: i, second: j };
        } else {
            j = j + 1;
        }
    }
}

/// What `seek` finds is a live pair, and it is not before the pair that the
/// search started from.
pub proof fn lemma_seek_finds_live_pair(bodies: Seq<Body>, first: int, second: int)
    requires
        0 <= first < second,
        bodies.len() <= usize::MAX,
    ensures
        match seek(bodies, first, second) {
            StepAction::Attract { first: f, second: s } => live_pair(bodies, f as int, s as int)
                && not_after((first, second), (f as int, s as int)),
            StepAction::Move => true,
            StepAction::Done => false,
        },
    decreases bodies.len() - first, bodies.len() - second,
{
    if first + 1 >= bodies.len() {
    } else if second >= bodies.len() {
        lemma_seek_finds_live_pair(bodies, first + 1, first + 2);
    } else if !same_abscissa(bodies[first], bodies[second]) {
    } else {
        lemma_seek_finds_live_pair(bodies, first, second + 1);
    }
}

/// `seek` passes over no live pair: a live pair that is not before the start
/// of the search is not before what the search finds either.
pub proof fn lemma_seek_skips_no_live_pair(
    bodies: Seq<Body>,
    first: int,
    second: int,
    a: int,
    b: int,
)
    requires
        0 <= first < second,
        live_pair(bodies, a, b),
        not_after((first, second), (a, b)),
    ensures
        match seek(bodies, first, second) {
            StepAction::Attract { first: f, second: s } => not_after(
                (f as int, s as int),
                (a, b),
            ),
            _ => false,
        },
    decreases bodies.len() - first, bodies.len() - second,
{
    if first + 1 >= bodies.len() {
    } else if second >= bodies.len() {
        lemma_seek_skips_no_live_pair(bodies, first + 1, first + 2, a, b);
    } else if !same_abscissa(bodies[first], bodies[second]) {
    } else {
        lemma_seek_skips_no_live_pair(bodies, first, second + 1, a, b);
    }
}

/// The search looks at x-coordinates only: two sequences of bodies that agree
/// on them are searched with the same result.
pub proof fn lemma_seek_reads_abscissas_only(
    before: Seq<Body>,
    after: Seq<Body>,
    first: int,
    second: int,
)
    requires
        0 <= first < second,
        before.len() == after.len(),
        forall|k: int| 0 <= k < before.len() ==> before[k].position.0 == after[k].position.0,
    ensures
        seek(before, first, second) == seek(after, first, second),
    decreases before.len() - first, before.len() - second,
{
    if first + 1 >= before.len() {
    } else if second >= before.len() {
        lemma_seek_reads_abscissas_only(before, after, first + 1, first + 2);
    } else if !same_abscissa(before[first], before[second]) {
    } else {
        lemma_seek_reads_abscissas_only(before, after, first, second + 1);
    }
}

/// With fewer than two bodies there is no pair to visit.
pub proof fn lemma_lone_body_has_no_pair(bodies: Seq<Body>)
    requires
        bodies.len() <= 1,
    ensures
        seek(bodies, 0, 1) == StepAction::Move,
{
}

} // verus!
