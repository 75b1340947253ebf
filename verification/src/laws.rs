//! What holds of every world and of every step, whatever the host reports.

use crate::actor::Body;
use crate::scalar::Scalar;
use crate::schedule::{
    lemma_lone_body_has_no_pair, lemma_seek_finds_live_pair, lemma_seek_reads_abscissas_only,
    lemma_seek_skips_no_live_pair, live_pair, not_after, same_abscissa, StepAction,
};
use crate::simulation::{
    attracted, moved, pruned, Pull, SimulationConfig, StepEvent, Stepping, World,
};
use std::time::SystemTime;
use vstd::prelude::*;

verus! {

/// Every velocity component of every body is a finite number.
pub open spec fn velocities_finite(bodies: Seq<Body>) -> bool {
    forall|k: int|
        0 <= k < bodies.len() ==> (#[trigger] bodies[k]).velocity.0.finite()
            && bodies[k].velocity.1.finite()
}

impl Stepping {
    /// The same step of a world that runs, or does not.
    pub open spec fn with_running(self, running: bool) -> Stepping {
        Stepping { world: World { running, ..self.world }, ..self }
    }
}

/// Resuming a world that runs leaves it running, suspending a world always
/// leaves it suspended, and neither touches anything but the run state.
pub proof fn lemma_run_state(world: World)
    ensures
        world.resumed().running,
        world.resumed().resumed() == world.resumed(),
        !world.suspended().running,
        world.suspended().suspended() == world.suspended(),
        world.resumed().suspended() == world.suspended(),
        world.suspended().resumed() == world.resumed(),
        world.resumed() == (World { running: true, ..world }),
        world.suspended() == (World { running: false, ..world }),
{
}

/// Whether a world runs makes no difference to the step that begins in it:
/// the run state is carried along and nothing else depends on it.
pub proof fn lemma_begin_ignores_run_state(world: World, running: bool, now: SystemTime)
    ensures
        (World { running, ..world }).begun(now) == world.begun(now).with_running(running),
        world.begun(now).world.running == world.running,
{
}

/// Whether a world runs makes no difference to what a report does to a step.
pub proof fn lemma_advance_ignores_run_state(step: Stepping, running: bool, event: StepEvent)
    ensures
        step.with_running(running).advanced(event) == step.advanced(event).with_running(running),
        step.advanced(event).world.running == step.world.running,
{
}

/// A step begins with the first live pair if there is one, and with the move
/// if there is none. It changes nothing but the time of the last step.
pub proof fn lemma_begin(world: World, now: SystemTime)
    requires
        world.bodies.len() <= usize::MAX,
    ensures
        world.begun(now).well_formed(),
        world.begun(now).world == (World { last_step: now, ..world }),
        world.begun(now).pending != StepAction::Done,
        forall|a: int, b: int|
            live_pair(world.bodies, a, b) ==> match world.begun(now).pending {
                StepAction::Attract { first, second } => not_after(
                    (first as int, second as int),
                    (a, b),
                ),
                _ => false,
            },
{
    lemma_seek_finds_live_pair(world.bodies, 0, 1);
    assert forall|a: int, b: int| live_pair(world.bodies, a, b) implies match world.begun(
        now,
    ).pending {
        StepAction::Attract { first, second } => not_after((first as int, second as int), (a, b)),
        _ => false,
    } by {
        lemma_seek_skips_no_live_pair(world.bodies, 0, 1, a, b);
    }
}

/// A report changes only what it is about. The run state, the time of the
/// last step, the constants, the number of bodies and each body's mass, radius
/// and colour stay as they are. While a pair is pending no body moves, so
/// every pair is dealt with at the positions that the step began with. The
/// move changes no velocity. A complete step takes no report.
pub proof fn lemma_advance_changes_only_what_is_reported(step: Stepping, event: StepEvent)
    requires
        step.well_formed(),
    ensures
        ({
            let next = step.advanced(event);
            &&& next.world.running == step.world.running
            &&& next.world.last_step == step.world.last_step
            &&& next.world.config == step.world.config
            &&& next.world.bodies.len() == step.world.bodies.len()
            &&& forall|k: int|
                0 <= k < step.world.bodies.len() ==> {
                    &&& (#[trigger] next.world.bodies[k]).mass == step.world.bodies[k].mass
                    &&& next.world.bodies[k].radius == step.world.bodies[k].radius
                    &&& next.world.bodies[k].color == step.world.bodies[k].color
                }
            &&& step.pending is Attract ==> forall|k: int|
                0 <= k < step.world.bodies.len() ==> (#[trigger] next.world.bodies[k]).position
                    == step.world.bodies[k].position
            &&& step.pending is Move ==> forall|k: int|
                0 <= k < step.world.bodies.len() ==> (#[trigger] next.world.bodies[k]).velocity
                    == step.world.bodies[k].velocity
            &&& step.pending is Done ==> next == step
        }),
{
}

/// A report for a pair changes the two bodies of the pair and no other, and
/// of the two only the velocity.
pub proof fn lemma_attraction_touches_the_pair_only(
    bodies: Seq<Body>,
    first: int,
    second: int,
    pull: Pull,
)
    requires
        0 <= first < bodies.len(),
        0 <= second < bodies.len(),
    ensures
        attracted(bodies, first, second, pull).len() == bodies.len(),
        forall|k: int|
            0 <= k < bodies.len() && k != first && k != second ==> attracted(
                bodies,
                first,
                second,
                pull,
            )[k] == bodies[k],
        forall|k: int|
            0 <= k < bodies.len() ==> #[trigger] attracted(bodies, first, second, pull)[k] == (Body {
                velocity: attracted(bodies, first, second, pull)[k].velocity,
                ..bodies[k]
            }),
{
}

/// A report for two bodies that share an x-coordinate, for a body paired
/// with itself, or with a component that is an infinity or a NaN, changes
/// nothing.
pub proof fn lemma_degenerate_pair_changes_nothing(
    bodies: Seq<Body>,
    first: int,
    second: int,
    pull: Pull,
)
    requires
        first == second || same_abscissa(bodies[first], bodies[second]) || !pull.finite(),
    ensures
        attracted(bodies, first, second, pull) == bodies,
{
}

/// No report for a pair puts an infinity or a NaN into a velocity: where all
/// velocities were finite before, they are finite after.
pub proof fn lemma_attraction_keeps_velocities_finite(
    bodies: Seq<Body>,
    first: int,
    second: int,
    pull: Pull,
)
    requires
        0 <= first < bodies.len(),
        0 <= second < bodies.len(),
        velocities_finite(bodies),
    ensures
        velocities_finite(attracted(bodies, first, second, pull)),
{
    let after = attracted(bodies, first, second, pull);
    assert forall|k: int| 0 <= k < after.len() implies (#[trigger] after[k]).velocity.0.finite()
        && after[k].velocity.1.finite() by {
        assert(bodies[k].velocity.0.finite());
    }
}

/// No report of any kind puts an infinity or a NaN into a velocity.
pub proof fn lemma_step_keeps_velocities_finite(step: Stepping, event: StepEvent)
    requires
        step.well_formed(),
        velocities_finite(step.world.bodies),
    ensures
        velocities_finite(step.advanced(event).world.bodies),
{
    let next = step.advanced(event);
    match (step.pending, event) {
        (StepAction::Attract { first, second }, StepEvent::Attracted(pull)) => {
            lemma_attraction_keeps_velocities_finite(
                step.world.bodies,
                first as int,
                second as int,
                pull,
            );
        },
        _ => {
            assert forall|k: int| 0 <= k < next.world.bodies.len() implies (
            #[trigger] next.world.bodies[k]).velocity.0.finite()
                && next.world.bodies[k].velocity.1.finite() by {
                assert(step.world.bodies[k].velocity.0.finite());
            }
        },
    }
}

/// The pairs come in order, each a live pair: after the report for one pair,
/// what is pending is a live pair that comes later, or the move.
pub proof fn lemma_pairs_come_in_order(step: Stepping, pull: Pull)
    requires
        step.well_formed(),
        step.pending is Attract,
    ensures
        step.advanced(StepEvent::Attracted(pull)).well_formed(),
        match (step.pending, step.advanced(StepEvent::Attracted(pull)).pending) {
            (
                StepAction::Attract { first, second },
                StepAction::Attract { first: later_first, second: later_second },
            ) => not_after((first as int, second + 1), (later_first as int, later_second as int))
                && live_pair(step.world.bodies, later_first as int, later_second as int),
            (_, StepAction::Move) => true,
            _ => false,
        },
{
    if let StepAction::Attract { first, second } = step.pending {
        let after = attracted(step.world.bodies, first as int, second as int, pull);
        lemma_seek_finds_live_pair(after, first as int, second + 1);
    }
}

/// No pair is passed over: after the report for one pair, a live pair that
/// comes later is what is pending, or comes after what is pending.
pub proof fn lemma_no_pair_is_passed_over(step: Stepping, pull: Pull, a: int, b: int)
    requires
        step.well_formed(),
        step.pending is Attract,
        live_pair(step.world.bodies, a, b),
        match step.pending {
            StepAction::Attract { first, second } => not_after((first as int, second + 1), (a, b)),
            _ => false,
        },
    ensures
        match step.advanced(StepEvent::Attracted(pull)).pending {
            StepAction::Attract { first, second } => not_after(
                (first as int, second as int),
                (a, b),
            ),
            _ => false,
        },
{
    if let StepAction::Attract { first, second } = step.pending {
        let after = attracted(step.world.bodies, first as int, second as int, pull);
        lemma_seek_reads_abscissas_only(step.world.bodies, after, first as int, second + 1);
        lemma_seek_skips_no_live_pair(step.world.bodies, first as int, second + 1, a, b);
    }
}

/// The number of pairs in the rows before row `first`, among `count` bodies:
/// row `i` holds the pairs `(i, i + 1)` to `(i, count - 1)`.
pub open spec fn pairs_before_row(count: int, first: int) -> int
    decreases first,
{
    if first <= 0 {
        0
    } else {
        pairs_before_row(count, first - 1) + (count - first)
    }
}

/// The number of pairs that come before `(first, second)` in the order of
/// visiting, among `count` bodies.
pub open spec fn pairs_before(count: int, first: int, second: int) -> int {
    pairs_before_row(count, first) + (second - first - 1)
}

/// The number of pairs among `count` bodies: `count * (count - 1) / 2`.
pub open spec fn pairs_among(count: int) -> int {
    if count <= 0 {
        0
    } else {
        pairs_before_row(count, count - 1)
    }
}

/// An upper bound on the number of reports that a step still takes before
/// it is complete: one for the move, and one for the pending pair and each
/// pair after it.
pub open spec fn reports_left(step: Stepping) -> int {
    match step.pending {
        StepAction::Done => 0,
        StepAction::Move => 1,
        StepAction::Attract { first, second } => 1 + pairs_among(step.world.bodies.len() as int)
            - pairs_before(step.world.bodies.len() as int, first as int, second as int),
    }
}

/// The event answers what is pending in the step.
pub open spec fn answers(step: Stepping, event: StepEvent) -> bool {
    match (step.pending, event) {
        (StepAction::Attract { .. }, StepEvent::Attracted(_)) => true,
        (StepAction::Move, StepEvent::Moved(places)) => places@.len()
            == step.world.bodies.len(),
        _ => false,
    }
}

/// Later rows begin after more pairs.
proof fn lemma_rows_begin_in_order(count: int, first: int, later: int)
    requires
        0 <= first <= later < count,
    ensures
        pairs_before_row(count, first) <= pairs_before_row(count, later),
    decreases later - first,
{
    if first < later {
        lemma_rows_begin_in_order(count, first, later - 1);
    }
}

/// The number of pairs among `count` bodies is `count * (count - 1) / 2`.
pub proof fn lemma_pairs_among(count: int)
    requires
        0 <= count,
    ensures
        2 * pairs_among(count) == count * (count - 1),
{
    if count > 0 {
        lemma_pairs_before_row(count, count - 1);
        assert(2 * pairs_before_row(count, count - 1) == count * (count - 1)) by (nonlinear_arith)
            requires
                2 * pairs_before_row(count, count - 1) == (count - 1) * (2 * count - (count - 1)
                    - 1),
        ;
    }
}

/// The rows before row `first` hold `first * (2 * count - first - 1) / 2` pairs.
proof fn lemma_pairs_before_row(count: int, first: int)
    requires
        0 <= first,
    ensures
        2 * pairs_before_row(count, first) == first * (2 * count - first - 1),
    decreases first,
{
    if first > 0 {
        lemma_pairs_before_row(count, first - 1);
        assert((first - 1) * (2 * count - (first - 1) - 1) + 2 * (count - first) == first * (2
            * count - first - 1)) by (nonlinear_arith);
    } else {
        assert(first * (2 * count - first - 1) == 0) by (nonlinear_arith)
            requires
                first == 0,
        ;
    }
}

/// A pair that comes later in the order of visiting has more pairs before it,
/// and no pair has as many pairs before it as there are pairs.
pub proof fn lemma_later_pairs_have_more_before(
    count: int,
    pair: (int, int),
    later: (int, int),
)
    requires
        0 <= pair.0 < pair.1 < count,
        0 <= later.0 < later.1 < count,
        not_after((pair.0, pair.1 + 1), later),
    ensures
        0 <= pairs_before(count, pair.0, pair.1) < pairs_before(count, later.0, later.1)
            < pairs_among(count),
{
    lemma_rows_begin_in_order(count, 0, pair.0);
    lemma_rows_begin_in_order(count, later.0 + 1, count - 1);
    if pair.0 < later.0 {
        lemma_rows_begin_in_order(count, pair.0 + 1, later.0);
    }
}

/// Every report that answers what is pending brings the end of the step
/// nearer. A step of a world of `n` bodies is therefore complete after at
/// most `n * (n - 1) / 2 + 1` such reports.
pub proof fn lemma_every_answer_brings_the_end_nearer(step: Stepping, event: StepEvent)
    requires
        step.well_formed(),
        answers(step, event),
    ensures
        0 <= reports_left(step.advanced(event)) < reports_left(step),
        reports_left(step) <= 1 + pairs_among(step.world.bodies.len() as int),
        reports_left(step) == 0 <==> step.pending == StepAction::Done,
{
    let count = step.world.bodies.len() as int;
    if count > 0 {
        lemma_rows_begin_in_order(count, 0, count - 1);
    }
    match (step.pending, event) {
        (StepAction::Attract { first, second }, StepEvent::Attracted(pull)) => {
            lemma_pairs_come_in_order(step, pull);
            lemma_rows_begin_in_order(count, 0, first as int);
            lemma_rows_begin_in_order(count, first + 1, count - 1);
            match step.advanced(event).pending {
                StepAction::Attract { first: later_first, second: later_second } => {
                    lemma_later_pairs_have_more_before(
                        count,
                        (first as int, second as int),
                        (later_first as int, later_second as int),
                    );
                },
                _ => {},
            }
        },
        _ => {},
    }
}

/// A step begins with no more reports left than there are pairs, and one.
pub proof fn lemma_a_step_is_bounded(world: World, now: SystemTime)
    requires
        world.bodies.len() <= usize::MAX,
    ensures
        0 < reports_left(world.begun(now)) <= 1 + pairs_among(world.bodies.len() as int),
        2 * pairs_among(world.bodies.len() as int) == world.bodies.len() * (world.bodies.len()
            - 1),
{
    let count = world.bodies.len() as int;
    lemma_begin(world, now);
    lemma_pairs_among(count);
    match world.begun(now).pending {
        StepAction::Attract { first, second } => {
            lemma_rows_begin_in_order(count, 0, first as int);
            lemma_rows_begin_in_order(count, first + 1, count - 1);
        },
        _ => {},
    }
}

/// A world of one body has no pair: its step begins with the move, and the
/// report of the body's new place completes it, leaving the body there with
/// the velocity, mass, radius and colour that it had.
pub proof fn lemma_lone_body_only_moves(world: World, now: SystemTime, place: (Scalar, Scalar))
    requires
        world.bodies.len() == 1,
    ensures
        world.begun(now).pending == StepAction::Move,
        forall|places: Vec<(Scalar, Scalar)>|
            places@ == seq![place] ==> {
                let done = #[trigger] world.begun(now).advanced(StepEvent::Moved(places));
                &&& done.pending == StepAction::Done
                &&& done.world.bodies == seq![Body { position: place, ..world.bodies[0] }]
            },
{
    lemma_lone_body_has_no_pair(world.bodies);
    assert forall|places: Vec<(Scalar, Scalar)>| places@ == seq![place] implies {
        let done = #[trigger] world.begun(now).advanced(StepEvent::Moved(places));
        &&& done.pending == StepAction::Done
        &&& done.world.bodies == seq![Body { position: place, ..world.bodies[0] }]
    } by {
        let done = world.begun(now).advanced(StepEvent::Moved(places));
        assert(done.world.bodies =~= seq![Body { position: place, ..world.bodies[0] }]);
    }
}

/// Two bodies that share an x-coordinate, as two bodies at the same place
/// do, are never paired: the step of a world of two such bodies begins with
/// the move, so no report can touch their velocities.
pub proof fn lemma_bodies_on_one_vertical_are_not_paired(world: World, now: SystemTime)
    requires
        world.bodies.len() == 2,
        same_abscissa(world.bodies[0], world.bodies[1]),
    ensures
        world.begun(now).pending == StepAction::Move,
{
    reveal_with_fuel(crate::schedule::seek, 3);
}

/// The report of the move puts every body where the report says and changes
/// nothing else about it.
pub proof fn lemma_move_puts_bodies_in_place(bodies: Seq<Body>, places: Seq<(Scalar, Scalar)>)
    requires
        places.len() == bodies.len(),
    ensures
        moved(bodies, places).len() == bodies.len(),
        forall|k: int|
            0 <= k < bodies.len() ==> #[trigger] moved(bodies, places)[k] == (Body {
                position: places[k],
                ..bodies[k]
            }),
{
}

/// The places of the bodies that pruning keeps, in increasing order.
pub open spec fn kept_places(config: SimulationConfig, bodies: Seq<Body>) -> Seq<int>
    decreases bodies.len(),
{
    if bodies.len() == 0 {
        Seq::empty()
    } else {
        let before = kept_places(config, bodies.drop_last());
        if config.keeps(bodies.last()) {
            before.push(bodies.len() - 1)
        } else {
            before
        }
    }
}

/// Pruning keeps exactly the bodies that have neither escaped nor become
/// negligible, and keeps them in their order: what is left are the bodies at
/// the kept places, which are all the places of bodies that pass, in
/// increasing order.
pub proof fn lemma_pruning_keeps_the_right_bodies_in_order(
    config: SimulationConfig,
    bodies: Seq<Body>,
)
    ensures
        pruned(config, bodies).len() == kept_places(config, bodies).len(),
        forall|i: int|
            0 <= i < kept_places(config, bodies).len() ==> {
                let place = #[trigger] kept_places(config, bodies)[i];
                &&& 0 <= place < bodies.len()
                &&& config.keeps(bodies[place])
                &&& pruned(config, bodies)[i] == bodies[place]
            },
        forall|i: int, j: int|
            0 <= i < j < kept_places(config, bodies).len() ==> #[trigger] kept_places(
                config,
                bodies,
            )[i] < #[trigger] kept_places(config, bodies)[j],
        forall|k: int|
            0 <= k < bodies.len() && config.keeps(#[trigger] bodies[k]) ==> kept_places(
                config,
                bodies,
            ).contains(k),
    decreases bodies.len(),
{
    reveal(Seq::filter);
    if bodies.len() > 0 {
        let front = bodies.drop_last();
        lemma_pruning_keeps_the_right_bodies_in_order(config, front);
        let places = kept_places(config, bodies);
        let front_places = kept_places(config, front);
        assert forall|k: int| 0 <= k < bodies.len() && config.keeps(
            #[trigger] bodies[k],
        ) implies places.contains(k) by {
            if k < bodies.len() - 1 {
                assert(front[k] == bodies[k]);
                let i = choose|i: int| 0 <= i < front_places.len() && front_places[i] == k;
                assert(places[i] == k);
            } else {
                assert(places[places.len() - 1] == k);
            }
        }
    }
}

} // verus!
