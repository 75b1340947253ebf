//! The world: its bodies, whether it runs, and how it is stepped and pruned.
//!
//! The engine does no arithmetic on real numbers. A step therefore runs as a
//! conversation with the host. [`SimulationContainer::step`] turns the world
//! into a [`Step`]; the step says what it needs next ([`Step::pending`]); the
//! host computes that from the bodies it can read through [`Step::world`] and
//! reports it with [`Step::advance`]; when nothing is pending any more,
//! [`Step::finish`] gives the world back. The engine decides which pairs of
//! bodies attract each other and in what order, which reports are let into the
//! state, and that no body moves before every pair has been dealt with.

use crate::actor::{bodies_of, Body, SimulationActor};
use crate::clock::wall_clock;
use crate::scalar::Scalar;
use crate::schedule::{
    lemma_seek_finds_live_pair, live_pair, next_action, same_abscissa, seek, StepAction,
};
use std::time::SystemTime;
use vstd::prelude::*;

verus! {

/// The pattern of 1.0, the standard gravitational constant.
pub const GRAVITATIONAL_CONSTANT_BITS: u64 = 0x3FF0_0000_0000_0000;

/// The pattern of 0.05, the standard length of a time step.
pub const SIMULATION_TIME_STEP_BITS: u64 = 0x3FA9_9999_9999_999A;

/// The pattern of 100000.0, the standard distance from an axis at which a
/// body has left the region of interest.
pub const SIMULATION_PRUNE_ZONE_BITS: u64 = 0x40F8_6A00_0000_0000;

/// The standard radius up to which a body counts as negligible.
pub const NEGLIGIBLE_RADIUS: u32 = 10;

/// The standard time between two steps of a running world, in milliseconds.
pub const SIM_STEP_MILLIS: u64 = 50;

/// The constants of a world.
#[derive(Clone, Copy, Debug)]
pub struct SimulationConfig {
    /// The factor `G` of the force law. The host reads it; the engine does not.
    pub gravitational_constant: Scalar,
    /// The time that one step covers. The host reads it; the engine does not.
    pub time_step: Scalar,
    /// A body whose `|x|` or `|y|` has reached this value is pruned.
    pub prune_zone: Scalar,
    /// A body whose radius is this small or smaller is pruned.
    pub negligible_radius: u32,
    /// A running world is due for a step when this many milliseconds have
    /// passed since the last one.
    pub step_interval_millis: u64,
}

impl SimulationConfig {
    /// The standard constants.
    pub open spec fn standard() -> SimulationConfig {
        SimulationConfig {
            gravitational_constant: Scalar { bits: GRAVITATIONAL_CONSTANT_BITS },
            time_step: Scalar { bits: SIMULATION_TIME_STEP_BITS },
            prune_zone: Scalar { bits: SIMULATION_PRUNE_ZONE_BITS },
            negligible_radius: NEGLIGIBLE_RADIUS,
            step_interval_millis: SIM_STEP_MILLIS,
        }
    }

    /// The body has left the region of interest: `|x|` or `|y|` is at least
    /// the prune zone.
    pub open spec fn escaped(self, body: Body) -> bool {
        self.prune_zone.at_most(body.position.0.absolute()) || self.prune_zone.at_most(
            body.position.1.absolute(),
        )
    }

    /// The body is too small to matter.
    pub open spec fn negligible(self, body: Body) -> bool {
        body.radius <= self.negligible_radius
    }

    /// Pruning leaves the body in the world.
    pub open spec fn keeps(self, body: Body) -> bool {
        !self.escaped(body) && !self.negligible(body)
    }

    /// Whether pruning leaves the body in the world.
    pub fn retains(&self, actor: &SimulationActor) -> (kept: bool)
        ensures
            kept == self.keeps(actor@),
    {
        let at = actor.coordinates();
        !self.prune_zone.le(&at.0.abs()) && !self.prune_zone.le(&at.1.abs()) && actor.radius()
            > self.negligible_radius
    }
}

impl Default for SimulationConfig {
    fn default() -> (config: Self)
        ensures
            config == SimulationConfig::standard(),
    {
        SimulationConfig {
            gravitational_constant: Scalar::from_bits(GRAVITATIONAL_CONSTANT_BITS),
            time_step: Scalar::from_bits(SIMULATION_TIME_STEP_BITS),
            prune_zone: Scalar::from_bits(SIMULATION_PRUNE_ZONE_BITS),
            negligible_radius: NEGLIGIBLE_RADIUS,
            step_interval_millis: SIM_STEP_MILLIS,
        }
    }
}

/// The bodies that pruning leaves, in their order.
pub open spec fn pruned(config: SimulationConfig, bodies: Seq<Body>) -> Seq<Body> {
    bodies.filter(|body: Body| config.keeps(body))
}

/// What the host reports for a pair of bodies: the velocity of each after the
/// two have attracted each other for one time step.
#[derive(Clone, Copy, Debug)]
pub struct Pull {
    /// The velocity of the pair's first body.
    pub first: (Scalar, Scalar),
    /// The velocity of the pair's second body.
    pub second: (Scalar, Scalar),
}

impl Pull {
    /// All four components are finite numbers.
    pub open spec fn finite(self) -> bool {
        self.first.0.finite() && self.first.1.finite() && self.second.0.finite()
            && self.second.1.finite()
    }

    /// Whether all four components are finite numbers.
    pub fn is_finite(&self) -> (r: bool)
        ensures
            r == self.finite(),
    {
        self.first.0.is_finite() && self.first.1.is_finite() && self.second.0.is_finite()
            && self.second.1.is_finite()
    }
}

/// The report `pull` for the bodies at `first` and `second` is let into the
/// state: the two are different bodies, they do not share an x-coordinate, and
/// every reported component is a finite number.
pub open spec fn takes_effect(bodies: Seq<Body>, first: int, second: int, pull: Pull) -> bool {
    first != second && !same_abscissa(bodies[first], bodies[second]) && pull.finite()
}

/// The bodies after the pair at `first` and `second` has been dealt with: the
/// two have the reported velocities if the report takes effect, and nothing
/// has changed if it does not.
pub open spec fn attracted(bodies: Seq<Body>, first: int, second: int, pull: Pull) -> Seq<
    Body,
> {
    if takes_effect(bodies, first, second, pull) {
        bodies.update(first, Body { velocity: pull.first, ..bodies[first] }).update(
            second,
            Body { velocity: pull.second, ..bodies[second] },
        )
    } else {
        bodies
    }
}

/// The bodies after each has been put where `places` says. A report that does
/// not name one place for each body changes nothing.
pub open spec fn moved(bodies: Seq<Body>, places: Seq<(Scalar, Scalar)>) -> Seq<Body> {
    if places.len() == bodies.len() {
        Seq::new(bodies.len(), |k: int| Body { position: places[k], ..bodies[k] })
    } else {
        bodies
    }
}

/// Lets the reported mutual attraction of two bodies into their velocities,
/// unless the pair is degenerate: a body paired with itself, two bodies that
/// share an x-coordinate, or a report that holds an infinity or a NaN.
pub fn apply_gravity(elements: &mut [SimulationActor], first: usize, second: usize, pull: &Pull)
    requires
        first < old(elements)@.len(),
        second < old(elements)@.len(),
    ensures
        bodies_of(final(elements)@) == attracted(
            bodies_of(old(elements)@),
            first as int,
            second as int,
            *pull,
        ),
{
    let one = elements[first];
    let other = elements[second];
    if first != second && !one.coordinates().0.eq(&other.coordinates().0) && pull.is_finite() {
        elements[first] = one.with_velocity(pull.first);
        elements[second] = other.with_velocity(pull.second);
        assert(bodies_of(elements@) =~= attracted(
            bodies_of(old(elements)@),
            first as int,
            second as int,
            *pull,
        ));
    } else {
        assert(bodies_of(elements@) =~= bodies_of(old(elements)@));
    }
}

/// Puts each body where `places` says it is after the time step. Nothing
/// changes unless `places` names one place for each body.
pub fn move_actors(actors: &mut [SimulationActor], places: &[(Scalar, Scalar)])
    ensures
        bodies_of(final(actors)@) == moved(bodies_of(old(actors)@), places@),
{
    let n = actors.len();
    if places.len() != n {
        assert(bodies_of(actors@) =~= bodies_of(old(actors)@));
        return ;
    }
    let mut k: usize = 0;
    while k < n
        invariant
            k <= n,
            n == actors@.len(),
            n == old(actors)@.len(),
            n == places@.len(),
            forall|i: int| 0 <= i < k ==> (#[trigger] actors@[i])@ == (Body {
                position: places@[i],
                ..old(actors)@[i]@
            }),
            forall|i: int| k <= i < n ==> actors@[i] == old(actors)@[i],
        decreases n - k,
    {
        actors[k] = actors[k].with_position(places[k]);
        k = k + 1;
    }
    assert(bodies_of(actors@) =~= moved(bodies_of(old(actors)@), places@));
}

/// What a world is.
pub struct World {
    /// The driver may step the world on its cadence.
    pub running: bool,
    /// The bodies, in the order in which they were added.
    pub bodies: Seq<Body>,
    /// When the most recent step began; for a world never stepped, when it
    /// was made.
    pub last_step: SystemTime,
    /// The world's constants.
    pub config: SimulationConfig,
}

impl World {
    /// The same world, running.
    pub open spec fn resumed(self) -> World {
        World { running: true, ..self }
    }

    /// The same world, suspended.
    pub open spec fn suspended(self) -> World {
        World { running: false, ..self }
    }

    /// The world with one more body at the end.
    pub open spec fn with_body(self, body: Body) -> World {
        World { bodies: self.bodies.push(body), ..self }
    }

    /// The world without the bodies that have escaped or become negligible.
    pub open spec fn pruned(self) -> World {
        World { bodies: pruned(self.config, self.bodies), ..self }
    }

    /// The driver should step the world now, `elapsed_millis` milliseconds
    /// after the last step began: the world runs and the interval has passed.
    pub open spec fn due(self, elapsed_millis: u128) -> bool {
        self.running && elapsed_millis >= self.config.step_interval_millis
    }

    /// The step that begins at `now`.
    pub open spec fn begun(self, now: SystemTime) -> Stepping {
        Stepping { world: World { last_step: now, ..self }, pending: seek(self.bodies, 0, 1) }
    }
}

/// A set of bodies under gravity, stepped by a driver while it runs.
#[derive(Debug)]
pub struct SimulationContainer {
    is_running: bool,
    space: Vec<SimulationActor>,
    prev_step: SystemTime,
    config: SimulationConfig,
}

impl View for SimulationContainer {
    type V = World;

    closed spec fn view(&self) -> World {
        World {
            running: self.is_running,
            bodies: bodies_of(self.space@),
            last_step: self.prev_step,
            config: self.config,
        }
    }
}

impl SimulationContainer {
    /// An empty, suspended world with the standard constants.
    pub fn new() -> (world: Self)
        ensures
            !world@.running,
            world@.bodies == Seq::<Body>::empty(),
            world@.config == SimulationConfig::standard(),
    {
        Self::with_config(SimulationConfig::default())
    }

    /// An empty, suspended world with the given constants.
    pub fn with_config(config: SimulationConfig) -> (world: Self)
        ensures
            !world@.running,
            world@.bodies == Seq::<Body>::empty(),
            world@.config == config,
    {
        let world = Self { is_running: false, space: Vec::new(), prev_step: wall_clock(), config };
        assert(world@.bodies =~= Seq::<Body>::empty());
        world
    }

    /// Stops the driver from stepping the world on its cadence.
    pub fn suspend(&mut self)
        ensures
            final(self)@ == old(self)@.suspended(),
    {
        self.is_running = false;
    }

    /// Lets the driver step the world on its cadence.
    pub fn resume(&mut self)
        ensures
            final(self)@ == old(self)@.resumed(),
    {
        self.is_running = true;
    }

    /// Whether the driver may step the world on its cadence.
    pub fn is_running(&self) -> (running: bool)
        ensures
            running == self@.running,
    {
        self.is_running
    }

    /// When the most recent step began.
    pub fn last_step_time(&self) -> (at: SystemTime)
        ensures
            at == self@.last_step,
    {
        self.prev_step
    }

    /// The world's constants.
    pub fn config(&self) -> (config: SimulationConfig)
        ensures
            config == self@.config,
    {
        self.config
    }

    /// The bodies, in order.
    pub fn space(&self) -> (actors: &[SimulationActor])
        ensures
            bodies_of(actors@) == self@.bodies,
    {
        self.space.as_slice()
    }

    /// Whether the driver should step the world now, `elapsed_millis`
    /// milliseconds after the last step began.
    pub fn step_due(&self, elapsed_millis: u128) -> (due: bool)
        ensures
            due == self@.due(elapsed_millis),
    {
        self.is_running && elapsed_millis >= self.config.step_interval_millis as u128
    }

    /// Adds a body at the end.
    pub fn add_actor(&mut self, a: SimulationActor)
        ensures
            final(self)@ == old(self)@.with_body(a@),
    {
        self.space.push(a);
        assert(bodies_of(self.space@) =~= bodies_of(old(self).space@).push(a@));
    }

    /// Removes every body that has escaped the region of interest or has
    /// become negligible. The others keep their order.
    pub fn prune(&mut self)
        ensures
            final(self)@ == old(self)@.pruned(),
    {
        let ghost before = bodies_of(self.space@);
        let n = self.space.len();
        let mut kept: Vec<SimulationActor> = Vec::new();
        let mut k: usize = 0;
        assert(before.take(0) =~= Seq::<Body>::empty());
        assert(bodies_of(kept@) =~= pruned(self.config, before.take(0))) by {
            reveal(Seq::filter);
        }
        while k < n
            invariant
                k <= n,
                n == self.space@.len(),
                before == bodies_of(self.space@),
                bodies_of(kept@) == pruned(self.config, before.take(k as int)),
            decreases n - k,
        {
            let actor = self.space[k];
            proof {
                lemma_pruned_one_more(self.config, before, k as int);
            }
            if self.config.retains(&actor) {
                kept.push(actor);
                assert(bodies_of(kept@) =~= pruned(self.config, before.take(k as int)).push(
                    actor@,
                ));
            }
            k = k + 1;
        }
        assert(before.take(n as int) =~= before);
        self.space = kept;
    }

    /// Begins a step at the present time: the step is `self@.begun(now)` for
    /// the `now` that the clock gives.
    pub fn step(self) -> (step: Step)
        ensures
            exists|now: SystemTime| step@ == #[trigger] self@.begun(now),
            step@.well_formed(),
    {
        self.step_at(wall_clock())
    }

    /// Begins a step at the time `now`. Whether the world runs makes no
    /// difference to the step.
    pub fn step_at(self, now: SystemTime) -> (step: Step)
        ensures
            step@ == self@.begun(now),
            step@.well_formed(),
    {
        let mut world = self;
        world.prev_step = now;
        let pending = next_action(world.space.as_slice(), 0, 1);
        proof {
            assert(bodies_of(world.space@).len() == world.space.len());
            lemma_seek_finds_live_pair(bodies_of(world.space@), 0, 1);
        }
        Step { world, pending }
    }
}

impl Default for SimulationContainer {
    fn default() -> (world: Self)
        ensures
            !world@.running,
            world@.bodies == Seq::<Body>::empty(),
            world@.config == SimulationConfig::standard(),
    {
        SimulationContainer::new()
    }
}

/// What the host reports to a step.
#[derive(Debug)]
pub enum StepEvent {
    /// The answer to [`StepAction::Attract`].
    Attracted(Pull),
    /// The answer to [`StepAction::Move`]: the new position of each body, in
    /// the order of the bodies.
    Moved(Vec<(Scalar, Scalar)>),
}

/// What a step under way is.
pub struct Stepping {
    /// The world as far as the step has changed it.
    pub world: World,
    /// What the host is to compute next.
    pub pending: StepAction,
}

impl Stepping {
    /// The pair that is pending, if one is, is a pair that a step visits.
    pub open spec fn well_formed(self) -> bool {
        &&& self.world.bodies.len() <= usize::MAX
        &&& match self.pending {
            StepAction::Attract { first, second } => live_pair(
                self.world.bodies,
                first as int,
                second as int,
            ),
            _ => true,
        }
    }

    /// The step after the host has reported `event`. A report that does not
    /// answer what is pending changes nothing.
    pub open spec fn advanced(self, event: StepEvent) -> Stepping {
        match (self.pending, event) {
            (StepAction::Attract { first, second }, StepEvent::Attracted(pull)) => {
                let bodies = attracted(self.world.bodies, first as int, second as int, pull);
                Stepping {
                    world: World { bodies, ..self.world },
                    pending: seek(bodies, first as int, second + 1),
                }
            },
            (StepAction::Move, StepEvent::Moved(places)) => {
                if places@.len() == self.world.bodies.len() {
                    Stepping {
                        world: World { bodies: moved(self.world.bodies, places@), ..self.world },
                        pending: StepAction::Done,
                    }
                } else {
                    self
                }
            },
            _ => self,
        }
    }
}

/// A step under way: a world taken out of circulation until every pair of
/// bodies has been dealt with and every body has moved.
#[derive(Debug)]
pub struct Step {
    world: SimulationContainer,
    pending: StepAction,
}

impl View for Step {
    type V = Stepping;

    closed spec fn view(&self) -> Stepping {
        Stepping { world: self.world@, pending: self.pending }
    }
}

impl Step {
    #[verifier::type_invariant]
    spec fn pending_pair_is_live(self) -> bool {
        self@.well_formed()
    }

    /// What the host is to compute next.
    pub fn pending(&self) -> (action: StepAction)
        ensures
            action == self@.pending,
            self@.well_formed(),
    {
        proof {
            use_type_invariant(self);
        }
        self.pending
    }

    /// The world as far as the step has changed it.
    pub fn world(&self) -> (world: &SimulationContainer)
        ensures
            world@ == self@.world,
    {
        &self.world
    }

    /// Takes the host's report and says what is pending after it.
    pub fn advance(self, event: StepEvent) -> (next: Step)
        ensures
            next@ == self@.advanced(event),
            next@.well_formed(),
    {
        proof {
            use_type_invariant(&self);
        }
        let Step { world, pending } = self;
        let mut world = world;
        match (pending, event) {
            (StepAction::Attract { first, second }, StepEvent::Attracted(pull)) => {
                let ghost before = bodies_of(world.space@);
                apply_gravity(world.space.as_mut_slice(), first, second, &pull);
                let pending = next_action(world.space.as_slice(), first, second + 1);
                proof {
                    assert(bodies_of(world.space@).len() == world.space.len());
                    lemma_seek_finds_live_pair(bodies_of(world.space@), first as int, second + 1);
                }
                Step { world, pending }
            },
            (StepAction::Move, StepEvent::Moved(places)) => {
                if places.len() == world.space.len() {
                    move_actors(world.space.as_mut_slice(), places.as_slice());
                    Step { world, pending: StepAction::Done }
                } else {
                    Step { world, pending }
                }
            },
            (pending, _) => Step { world, pending },
        }
    }

    /// Gives the world back once the step is complete. A step that is not
    /// complete comes back unchanged.
    pub fn finish(self) -> (outcome: Result<SimulationContainer, Step>)
        ensures
            match outcome {
                Ok(world) => self@.pending == StepAction::Done && world@ == self@.world,
                Err(step) => self@.pending != StepAction::Done && step@ == self@,
            },
    {
        match self.pending {
            StepAction::Done => Ok(self.world),
            _ => Err(self),
        }
    }
}

/// Pruning one body more: the body at `k` joins the bodies kept of those
/// before it if it is kept itself.
pub proof fn lemma_pruned_one_more(config: SimulationConfig, bodies: Seq<Body>, k: int)
    requires
        0 <= k < bodies.len(),
    ensures
        pruned(config, bodies.take(k + 1)) == if config.keeps(bodies[k]) {
            pruned(config, bodies.take(k)).push(bodies[k])
        } else {
            pruned(config, bodies.take(k))
        },
{
    reveal(Seq::filter);
    assert(bodies.take(k + 1).drop_last() =~= bodies.take(k));
}

} // verus!
