//! The bodies that a simulation moves.

use crate::scalar::Scalar;
use vstd::prelude::*;

verus! {

/// The radius that a newly made body has.
pub const INITIAL_RADIUS: u32 = 100;

/// What a body is: the state of one point mass, and how it is drawn.
pub struct Body {
    /// Where the body is, as `(x, y)`.
    pub position: (Scalar, Scalar),
    /// How fast the position changes, as `(x, y)` per unit of time.
    pub velocity: (Scalar, Scalar),
    /// The mass, which scales the force between this body and any other.
    pub mass: Scalar,
    /// The size at which the body is drawn. A body whose radius has become
    /// negligible is removed when the world is pruned.
    pub radius: u32,
    /// The colour in which the body is drawn: red, green, blue, alpha.
    pub color: [u8; 4],
}

/// One body of a simulation. Its mass is greater than zero, always.
///
/// A body has no name of its own: inside a world it is known by its place in
/// the world's sequence of bodies, and pruning may change that place.
#[derive(Clone, Copy, Debug)]
pub struct SimulationActor {
    x_pos: Scalar,
    y_pos: Scalar,
    x_vel: Scalar,
    y_vel: Scalar,
    mass: Scalar,
    radius: u32,
    color: [u8; 4],
}

impl View for SimulationActor {
    type V = Body;

    closed spec fn view(&self) -> Body {
        Body {
            position: (self.x_pos, self.y_pos),
            velocity: (self.x_vel, self.y_vel),
            mass: self.mass,
            radius: self.radius,
            color: self.color,
        }
    }
}

impl SimulationActor {
    #[verifier::type_invariant]
    spec fn mass_is_positive(self) -> bool {
        self.mass.positive()
    }

    /// A body at rest at `(x, y)`, with the initial radius.
    pub fn new(x: Scalar, y: Scalar, mass: Scalar, color: [u8; 4]) -> (actor: Self)
        requires
            mass.positive(),
        ensures
            actor@ == (Body {
                position: (x, y),
                velocity: (Scalar { bits: 0 }, Scalar { bits: 0 }),
                mass,
                radius: INITIAL_RADIUS,
                color,
            }),
    {
        Self {
            x_pos: x,
            y_pos: y,
            x_vel: Scalar::zero(),
            y_vel: Scalar::zero(),
            mass,
            radius: INITIAL_RADIUS,
            color,
        }
    }

    /// Where the body is.
    pub fn coordinates(&self) -> (at: (Scalar, Scalar))
        ensures
            at == self@.position,
    {
        (self.x_pos, self.y_pos)
    }

    /// How fast the body moves.
    pub fn velocity(&self) -> (v: (Scalar, Scalar))
        ensures
            v == self@.velocity,
    {
        (self.x_vel, self.y_vel)
    }

    /// The body's mass, which is greater than zero.
    pub fn mass(&self) -> (m: Scalar)
        ensures
            m == self@.mass,
            m.positive(),
    {
        proof {
            use_type_invariant(self);
        }
        self.mass
    }

    /// Gives the body another colour.
    pub fn change_color(&mut self, color: [u8; 4])
        ensures
            final(self)@ == (Body { color, ..old(self)@ }),
    {
        proof {
            use_type_invariant(&*self);
        }
        self.color = color
    }

    /// The colour in which the body is drawn.
    pub fn get_color(&self) -> (color: [u8; 4])
        ensures
            color == self@.color,
    {
        self.color
    }

    /// The size at which the body is drawn.
    pub fn radius(&self) -> (radius: u32)
        ensures
            radius == self@.radius,
    {
        self.radius
    }

    /// The same body somewhere else.
    pub fn with_position(self, position: (Scalar, Scalar)) -> (actor: Self)
        ensures
            actor@ == (Body { position, ..self@ }),
    {
        proof {
            use_type_invariant(&self);
        }
        Self { x_pos: position.0, y_pos: position.1, ..self }
    }

    /// The same body moving at another velocity.
    pub fn with_velocity(self, velocity: (Scalar, Scalar)) -> (actor: Self)
        ensures
            actor@ == (Body { velocity, ..self@ }),
    {
        proof {
            use_type_invariant(&self);
        }
        Self { x_vel: velocity.0, y_vel: velocity.1, ..self }
    }

    /// The same body drawn at another size.
    pub fn with_radius(self, radius: u32) -> (actor: Self)
        ensures
            actor@ == (Body { radius, ..self@ }),
    {
        proof {
            use_type_invariant(&self);
        }
        Self { radius, ..self }
    }
}

impl Default for SimulationActor {
    /// A white body of mass 1 at rest at the origin.
    fn default() -> (actor: Self)
        ensures
            actor@ == (Body {
                position: (Scalar { bits: 0 }, Scalar { bits: 0 }),
                velocity: (Scalar { bits: 0 }, Scalar { bits: 0 }),
                mass: Scalar { bits: crate::scalar::ONE_BITS },
                radius: INITIAL_RADIUS,
                color: [255u8, 255u8, 255u8, 255u8],
            }),
    {
        SimulationActor::new(Scalar::zero(), Scalar::zero(), Scalar::one(), [255, 255, 255, 255])
    }
}

/// The states of a sequence of bodies, in the same order.
pub open spec fn bodies_of(actors: Seq<SimulationActor>) -> Seq<Body> {
    actors.map_values(|a: SimulationActor| a@)
}

/// Two bodies with the same state are the same body.
pub proof fn lemma_body_determines_actor(a: SimulationActor, b: SimulationActor)
    requires
        a@ == b@,
    ensures
        a == b,
{
}

} // verus!
