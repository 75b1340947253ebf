use space_simulation::actor::SimulationActor;
use space_simulation::scalar::Scalar;
use space_simulation::schedule::{next_action, StepAction};
use space_simulation::simulation::{
    apply_gravity, move_actors, Pull, SimulationConfig, SimulationContainer, Step, StepEvent,
};
use std::time::{Duration, SystemTime};

fn s(x: f64) -> Scalar {
    Scalar::from_bits(x.to_bits())
}

fn f(x: Scalar) -> f64 {
    f64::from_bits(x.to_bits())
}

fn body(x: f64, y: f64, mass: f64) -> SimulationActor {
    SimulationActor::new(s(x), s(y), s(mass), [255u8; 4])
}

fn moving(x: f64, y: f64, vx: f64, vy: f64) -> SimulationActor {
    body(x, y, 1.0).with_velocity((s(vx), s(vy)))
}

fn world_of(bodies: &[SimulationActor]) -> SimulationContainer {
    let mut world = SimulationContainer::new();
    for b in bodies {
        world.add_actor(*b);
    }
    world
}

fn state(a: &SimulationActor) -> [u64; 5] {
    [
        a.coordinates().0.to_bits(),
        a.coordinates().1.to_bits(),
        a.velocity().0.to_bits(),
        a.velocity().1.to_bits(),
        a.mass().to_bits(),
    ]
}

fn states(world: &SimulationContainer) -> Vec<[u64; 5]> {
    world.space().iter().map(state).collect()
}

/// The force law and the integration, in machine arithmetic.
fn attract(world: &SimulationContainer, first: usize, second: usize) -> Pull {
    let g = f(world.config().gravitational_constant);
    let a = &world.space()[first];
    let b = &world.space()[second];
    let (dx, dy) = (
        f(a.coordinates().0) - f(b.coordinates().0),
        f(a.coordinates().1) - f(b.coordinates().1),
    );
    let r = (dx.powf(2f64) + dy.powf(2f64)).sqrt();
    let mag = g * f(a.mass()) * f(b.mass()) * r.recip().powf(2f64);
    let theta = (dy / dx).atan();
    Pull {
        first: (
            s(f(a.velocity().0) + mag * theta.cos() * -dx.signum()),
            s(f(a.velocity().1) + mag * theta.sin() * -dy.signum()),
        ),
        second: (
            s(f(b.velocity().0) + mag * theta.cos() * dx.signum()),
            s(f(b.velocity().1) + mag * theta.sin() * dy.signum()),
        ),
    }
}

fn glide(world: &SimulationContainer) -> Vec<(Scalar, Scalar)> {
    let dt = f(world.config().time_step);
    world
        .space()
        .iter()
        .map(|a| {
            (
                s(f(a.coordinates().0) + f(a.velocity().0) * dt),
                s(f(a.coordinates().1) + f(a.velocity().1) * dt),
            )
        })
        .collect()
}

fn drive(mut step: Step) -> (SimulationContainer, Vec<StepAction>) {
    let mut asked = Vec::new();
    loop {
        let action = step.pending();
        asked.push(action);
        let event = match action {
            StepAction::Attract { first, second } => {
                StepEvent::Attracted(attract(step.world(), first, second))
            }
            StepAction::Move => StepEvent::Moved(glide(step.world())),
            StepAction::Done => break,
        };
        step = step.advance(event);
    }
    match step.finish() {
        Ok(world) => (world, asked),
        Err(_) => panic!("a complete step did not finish"),
    }
}

fn pair(first: usize, second: usize) -> StepAction {
    StepAction::Attract { first, second }
}

#[test]
fn lone_body_moves_by_its_velocity_times_the_time_step() {
    let world = world_of(&[moving(3.0, -4.0, 2.0, 0.5)]);
    let (world, asked) = drive(world.step());
    assert_eq!(asked, vec![StepAction::Move, StepAction::Done]);
    let a = &world.space()[0];
    assert_eq!(f(a.coordinates().0), 3.0 + 2.0 * 0.05);
    assert_eq!(f(a.coordinates().1), -4.0 + 0.5 * 0.05);
    assert_eq!(f(a.coordinates().0), 3.1);
    assert_eq!(f(a.coordinates().1), -3.975);
    assert_eq!(f(a.velocity().0), 2.0);
    assert_eq!(f(a.velocity().1), 0.5);
    assert_eq!(f(a.mass()), 1.0);
}

#[test]
fn empty_world_steps_to_itself() {
    let step = SimulationContainer::new().step();
    assert_eq!(step.pending(), StepAction::Move);
    let step = step.advance(StepEvent::Moved(Vec::new()));
    assert_eq!(step.pending(), StepAction::Done);
    let world = step.finish().unwrap();
    assert!(world.space().is_empty());
}

#[test]
fn two_bodies_pull_each_other_together() {
    let world = world_of(&[body(200.0, 300.0, 100.0), body(600.0, 300.0, 100.0)]);
    let (world, asked) = drive(world.step());
    assert_eq!(asked, vec![pair(0, 1), StepAction::Move, StepAction::Done]);
    let a = &world.space()[0];
    let b = &world.space()[1];
    let mag = 1.0 * 100.0 * 100.0 * 400.0f64.recip().powf(2f64);
    assert!((mag - 0.0625).abs() < 1e-12);
    assert_eq!(f(a.velocity().0), mag);
    assert_eq!(f(b.velocity().0), -mag);
    assert_eq!(f(a.velocity().1), 0.0);
    assert_eq!(f(b.velocity().1), 0.0);
    assert_eq!(f(a.coordinates().0), 200.0 + mag * 0.05);
    assert_eq!(f(b.coordinates().0), 600.0 + -mag * 0.05);
    assert_eq!(f(a.coordinates().1), 300.0);
    assert_eq!(f(b.coordinates().1), 300.0);
    assert!(f(a.coordinates().0) > 200.0 && f(b.coordinates().0) < 600.0);
}

#[test]
fn two_bodies_get_opposite_impulses_and_keep_their_momentum() {
    let first = body(-3.0, 1.0, 2.0).with_velocity((s(0.25), s(-1.0)));
    let second = body(5.0, 7.0, 6.0).with_velocity((s(-0.5), s(0.75)));
    let before = world_of(&[first, second]);
    let momentum = |w: &SimulationContainer| {
        let mut p = (0.0, 0.0);
        for a in w.space() {
            p.0 += f(a.mass()) * f(a.velocity().0);
            p.1 += f(a.mass()) * f(a.velocity().1);
        }
        p
    };
    let p0 = momentum(&before);
    let (after, _) = drive(before.step());
    let p1 = momentum(&after);
    let a = &after.space()[0];
    let b = &after.space()[1];
    let impulse_a = (f(a.velocity().0) - 0.25, f(a.velocity().1) - -1.0);
    let impulse_b = (f(b.velocity().0) - -0.5, f(b.velocity().1) - 0.75);
    assert!((impulse_a.0 + impulse_b.0).abs() < 1e-12);
    assert!((impulse_a.1 + impulse_b.1).abs() < 1e-12);
    assert!(impulse_a.0 != 0.0);
    let unit = (p1.0 - p0.0, p1.1 - p0.1);
    assert!((unit.0 - (2.0 - 6.0) * impulse_a.0).abs() < 1e-9);
    assert!((unit.1 - (2.0 - 6.0) * impulse_a.1).abs() < 1e-9);
}

#[test]
fn equal_masses_at_rest_keep_zero_momentum_exactly() {
    let world = world_of(&[body(1.0, 2.0, 3.0), body(4.0, 6.0, 3.0)]);
    let (world, _) = drive(world.step());
    let a = &world.space()[0];
    let b = &world.space()[1];
    assert_eq!(f(a.velocity().0), -f(b.velocity().0));
    assert_eq!(f(a.velocity().1), -f(b.velocity().1));
    assert!(f(a.velocity().0) != 0.0);
    assert_eq!(f(a.mass()) * f(a.velocity().0) + f(b.mass()) * f(b.velocity().0), 0.0);
    assert_eq!(f(a.mass()) * f(a.velocity().1) + f(b.mass()) * f(b.velocity().1), 0.0);
}

#[test]
fn coincident_bodies_are_not_paired() {
    let world = world_of(&[moving(5.0, 5.0, 1.0, 2.0), moving(5.0, 5.0, -1.0, 0.0)]);
    let (world, asked) = drive(world.step());
    assert_eq!(asked, vec![StepAction::Move, StepAction::Done]);
    for a in world.space() {
        for bits in state(a) {
            assert!(f64::from_bits(bits).is_finite());
        }
    }
    assert_eq!(f(world.space()[0].velocity().0), 1.0);
    assert_eq!(f(world.space()[0].velocity().1), 2.0);
    assert_eq!(f(world.space()[1].velocity().0), -1.0);
    assert_eq!(f(world.space()[0].coordinates().0), 5.0 + 1.0 * 0.05);
    assert_eq!(f(world.space()[0].coordinates().1), 5.0 + 2.0 * 0.05);
    assert_eq!(f(world.space()[1].coordinates().0), 5.0 + -1.0 * 0.05);
}

#[test]
fn bodies_on_one_vertical_are_not_paired() {
    let world = world_of(&[body(5.0, 1.0, 10.0), body(5.0, 9.0, 10.0), body(-5.0, 9.0, 10.0)]);
    let (world, asked) = drive(world.step());
    assert_eq!(asked, vec![pair(0, 2), pair(1, 2), StepAction::Move, StepAction::Done]);
    for a in world.space() {
        for bits in state(a) {
            assert!(f64::from_bits(bits).is_finite());
        }
    }
}

#[test]
fn zeros_of_either_sign_share_an_abscissa() {
    let world = world_of(&[body(0.0, 1.0, 10.0), body(-0.0, 9.0, 10.0)]);
    let step = world.step();
    assert_eq!(step.pending(), StepAction::Move);
}

#[test]
fn pairs_come_row_by_row_each_once() {
    let world = world_of(&[
        body(0.0, 0.0, 1.0),
        body(1.0, 0.0, 1.0),
        body(2.0, 5.0, 1.0),
        body(3.0, -5.0, 1.0),
    ]);
    let (_, asked) = drive(world.step());
    assert_eq!(
        asked,
        vec![
            pair(0, 1),
            pair(0, 2),
            pair(0, 3),
            pair(1, 2),
            pair(1, 3),
            pair(2, 3),
            StepAction::Move,
            StepAction::Done
        ]
    );
}

#[test]
fn degenerate_pairs_are_passed_over_wherever_they_stand() {
    let world = world_of(&[
        body(1.0, 0.0, 1.0),
        body(1.0, 1.0, 1.0),
        body(2.0, 0.0, 1.0),
        body(2.0, 3.0, 1.0),
        body(1.0, 7.0, 1.0),
    ]);
    let (_, asked) = drive(world.step());
    assert_eq!(
        asked,
        vec![
            pair(0, 2),
            pair(0, 3),
            pair(1, 2),
            pair(1, 3),
            pair(2, 4),
            pair(3, 4),
            StepAction::Move,
            StepAction::Done
        ]
    );
}

#[test]
fn every_pair_sees_the_positions_that_the_step_began_with() {
    let bodies = [body(0.0, 0.0, 5.0), body(3.0, 4.0, 7.0), body(-6.0, 8.0, 9.0)];
    let mut step = world_of(&bodies).step();
    let mut pairs = 0;
    while let StepAction::Attract { first, second } = step.pending() {
        for (k, b) in bodies.iter().enumerate() {
            assert_eq!(state(&step.world().space()[k])[..2], state(b)[..2]);
        }
        let pull = attract(step.world(), first, second);
        step = step.advance(StepEvent::Attracted(pull));
        pairs += 1;
    }
    assert_eq!(pairs, 3);
    assert_eq!(step.pending(), StepAction::Move);
    let expected: Vec<(f64, f64)> = step
        .world()
        .space()
        .iter()
        .map(|a| {
            (
                f(a.coordinates().0) + f(a.velocity().0) * 0.05,
                f(a.coordinates().1) + f(a.velocity().1) * 0.05,
            )
        })
        .collect();
    let velocities: Vec<[u64; 5]> = states(step.world());
    let there = glide(step.world());
    let step = step.advance(StepEvent::Moved(there));
    let world = step.finish().unwrap();
    for (k, a) in world.space().iter().enumerate() {
        assert_eq!((f(a.coordinates().0), f(a.coordinates().1)), expected[k]);
        assert_eq!(state(a)[2..], velocities[k][2..]);
        assert!(f(a.velocity().0) != 0.0);
    }
}

#[test]
fn three_bodies_step_as_a_direct_loop_over_the_pairs_does() {
    let bodies = [
        body(0.0, 0.0, 5.0).with_velocity((s(1.0), s(0.0))),
        body(3.0, 4.0, 7.0),
        body(-6.0, 8.0, 9.0).with_velocity((s(0.0), s(-2.0))),
    ];
    let mut x: Vec<[f64; 5]> = bodies.iter().map(|b| state(b).map(f64::from_bits)).collect();
    for i in 0..x.len() {
        for j in i..x.len() {
            if i == j {
                continue;
            }
            let (dx, dy) = (x[i][0] - x[j][0], x[i][1] - x[j][1]);
            let r = (dx.powf(2f64) + dy.powf(2f64)).sqrt();
            let mag = 1.0 * x[i][4] * x[j][4] * r.recip().powf(2f64);
            let theta = (dy / dx).atan();
            x[i][2] += mag * theta.cos() * -dx.signum();
            x[i][3] += mag * theta.sin() * -dy.signum();
            x[j][2] += mag * theta.cos() * dx.signum();
            x[j][3] += mag * theta.sin() * dy.signum();
        }
    }
    for a in x.iter_mut() {
        a[0] += a[2] * 0.05;
        a[1] += a[3] * 0.05;
    }
    let (world, _) = drive(world_of(&bodies).step());
    let got: Vec<[f64; 5]> = states(&world).iter().map(|b| b.map(f64::from_bits)).collect();
    assert_eq!(got, x);
}

#[test]
fn a_report_with_an_infinity_or_a_nan_is_not_let_in() {
    let bodies = [moving(0.0, 0.0, 1.0, 2.0), moving(1.0, 0.0, 3.0, 4.0)];
    for bad in [f64::NAN, f64::INFINITY, f64::NEG_INFINITY] {
        for slot in 0..4 {
            let mut v = [5.0, 6.0, 7.0, 8.0];
            v[slot] = bad;
            let pull = Pull { first: (s(v[0]), s(v[1])), second: (s(v[2]), s(v[3])) };
            let step = world_of(&bodies).step();
            assert_eq!(step.pending(), pair(0, 1));
            let step = step.advance(StepEvent::Attracted(pull));
            assert_eq!(step.pending(), StepAction::Move);
            assert_eq!(states(step.world()), bodies.iter().map(state).collect::<Vec<_>>());
        }
    }
    let pull = Pull { first: (s(5.0), s(6.0)), second: (s(7.0), s(8.0)) };
    let step = world_of(&bodies).step().advance(StepEvent::Attracted(pull));
    assert_eq!(f(step.world().space()[0].velocity().0), 5.0);
    assert_eq!(f(step.world().space()[0].velocity().1), 6.0);
    assert_eq!(f(step.world().space()[1].velocity().0), 7.0);
    assert_eq!(f(step.world().space()[1].velocity().1), 8.0);
    assert_eq!(f(step.world().space()[0].coordinates().0), 0.0);
    assert_eq!(f(step.world().space()[1].coordinates().0), 1.0);
}

#[test]
fn a_report_that_answers_nothing_pending_changes_nothing() {
    let bodies = [moving(0.0, 0.0, 1.0, 2.0), moving(1.0, 0.0, 3.0, 4.0)];
    let before: Vec<[u64; 5]> = bodies.iter().map(state).collect();
    let pull = Pull { first: (s(5.0), s(6.0)), second: (s(7.0), s(8.0)) };
    let there = vec![(s(9.0), s(9.0)), (s(8.0), s(8.0))];

    let step = world_of(&bodies).step();
    let step = step.advance(StepEvent::Moved(there.clone()));
    assert_eq!(step.pending(), pair(0, 1));
    assert_eq!(states(step.world()), before);

    let step = step.advance(StepEvent::Attracted(pull));
    assert_eq!(step.pending(), StepAction::Move);
    let pulled = states(step.world());
    let step = step.advance(StepEvent::Attracted(Pull { first: (s(0.0), s(0.0)), ..pull }));
    assert_eq!(step.pending(), StepAction::Move);
    assert_eq!(states(step.world()), pulled);

    let step = step.advance(StepEvent::Moved(vec![(s(9.0), s(9.0))]));
    assert_eq!(step.pending(), StepAction::Move);
    assert_eq!(states(step.world()), pulled);
    let step = step.advance(StepEvent::Moved(vec![(s(9.0), s(9.0)); 3]));
    assert_eq!(step.pending(), StepAction::Move);
    assert_eq!(states(step.world()), pulled);

    let step = step.advance(StepEvent::Moved(there.clone()));
    assert_eq!(step.pending(), StepAction::Done);
    let done = states(step.world());
    assert_eq!(f64::from_bits(done[0][0]), 9.0);
    assert_eq!(f64::from_bits(done[1][1]), 8.0);
    assert_eq!(f64::from_bits(done[0][2]), 5.0);
    let step = step.advance(StepEvent::Moved(vec![(s(1.0), s(1.0)); 2]));
    assert_eq!(step.pending(), StepAction::Done);
    let step = step.advance(StepEvent::Attracted(pull));
    assert_eq!(step.pending(), StepAction::Done);
    assert_eq!(states(step.world()), done);
}

#[test]
fn finish_gives_an_incomplete_step_back() {
    let bodies = [body(0.0, 0.0, 1.0), body(1.0, 0.0, 1.0)];
    let step = world_of(&bodies).step();
    let step = match step.finish() {
        Ok(_) => panic!("finished with a pair pending"),
        Err(step) => step,
    };
    assert_eq!(step.pending(), pair(0, 1));
    let pull = attract(step.world(), 0, 1);
    let step = step.advance(StepEvent::Attracted(pull));
    let step = match step.finish() {
        Ok(_) => panic!("finished with the move pending"),
        Err(step) => step,
    };
    assert_eq!(step.pending(), StepAction::Move);
    let there = glide(step.world());
    let step = step.advance(StepEvent::Moved(there));
    assert!(step.finish().is_ok());
}

#[test]
fn step_does_not_depend_on_the_run_state() {
    let bodies = [body(0.0, 0.0, 5.0), body(3.0, 4.0, 7.0), body(-6.0, 8.0, 9.0)];
    let suspended = world_of(&bodies);
    let mut running = world_of(&bodies);
    running.resume();
    let (suspended, asked_suspended) = drive(suspended.step());
    let (running, asked_running) = drive(running.step());
    assert_eq!(asked_suspended, asked_running);
    assert_eq!(states(&suspended), states(&running));
    assert!(!suspended.is_running());
    assert!(running.is_running());
}

#[test]
fn step_keeps_constants_mass_radius_and_color() {
    let config = SimulationConfig { time_step: s(0.5), ..SimulationConfig::default() };
    let mut world = SimulationContainer::with_config(config);
    world.add_actor(body(0.0, 0.0, 5.0).with_radius(3).with_velocity((s(2.0), s(0.0))));
    world.add_actor(SimulationActor::new(s(30.0), s(40.0), s(7.0), [1, 2, 3, 4]));
    let (world, _) = drive(world.step());
    assert_eq!(f(world.config().time_step), 0.5);
    assert_eq!(world.space().len(), 2);
    assert_eq!(world.space()[0].radius(), 3);
    assert_eq!(world.space()[1].radius(), 100);
    assert_eq!(f(world.space()[0].mass()), 5.0);
    assert_eq!(f(world.space()[1].mass()), 7.0);
    assert_eq!(world.space()[0].get_color(), [255u8; 4]);
    assert_eq!(world.space()[1].get_color(), [1, 2, 3, 4]);
    assert!(f(world.space()[0].coordinates().0) > 1.0);
}

#[test]
fn step_at_records_the_time() {
    let at = SystemTime::UNIX_EPOCH + Duration::from_secs(1_234_567);
    let world = world_of(&[body(0.0, 0.0, 1.0)]);
    assert!(world.last_step_time() != at);
    let step = world.step_at(at);
    assert_eq!(step.world().last_step_time(), at);
    let (world, _) = drive(step);
    assert_eq!(world.last_step_time(), at);
}

#[test]
fn step_records_the_present_time() {
    let world = world_of(&[body(0.0, 0.0, 1.0)]);
    let made = world.last_step_time();
    let before = SystemTime::now();
    let step = world.step();
    let after = SystemTime::now();
    let at = step.world().last_step_time();
    assert!(made <= before);
    assert!(before <= at && at <= after);
}

#[test]
fn apply_gravity_changes_the_velocities_of_the_pair() {
    let mut bodies = vec![moving(0.0, 0.0, 1.0, 2.0), moving(1.0, 0.0, 3.0, 4.0), moving(2.0, 0.0, 0.0, 0.0)];
    let pull = Pull { first: (s(5.0), s(6.0)), second: (s(7.0), s(8.0)) };
    apply_gravity(&mut bodies, 2, 0, &pull);
    assert_eq!(f(bodies[2].velocity().0), 5.0);
    assert_eq!(f(bodies[2].velocity().1), 6.0);
    assert_eq!(f(bodies[0].velocity().0), 7.0);
    assert_eq!(f(bodies[0].velocity().1), 8.0);
    assert_eq!(f(bodies[1].velocity().0), 3.0);
    assert_eq!(f(bodies[2].coordinates().0), 2.0);
    assert_eq!(f(bodies[0].coordinates().0), 0.0);
}

#[test]
fn apply_gravity_leaves_degenerate_pairs_alone() {
    let start = vec![moving(0.0, 0.0, 1.0, 2.0), moving(0.0, 5.0, 3.0, 4.0), moving(2.0, 0.0, 0.0, 0.0)];
    let pull = Pull { first: (s(5.0), s(6.0)), second: (s(7.0), s(8.0)) };
    let mut bodies = start.clone();
    apply_gravity(&mut bodies, 0, 1, &pull);
    assert_eq!(bodies.iter().map(state).collect::<Vec<_>>(), start.iter().map(state).collect::<Vec<_>>());
    apply_gravity(&mut bodies, 2, 2, &pull);
    assert_eq!(bodies.iter().map(state).collect::<Vec<_>>(), start.iter().map(state).collect::<Vec<_>>());
    let bad = Pull { second: (s(7.0), s(f64::INFINITY)), ..pull };
    apply_gravity(&mut bodies, 0, 2, &bad);
    assert_eq!(bodies.iter().map(state).collect::<Vec<_>>(), start.iter().map(state).collect::<Vec<_>>());
}

#[test]
fn move_actors_puts_each_body_in_its_place() {
    let mut bodies = vec![moving(0.0, 0.0, 1.0, 2.0), moving(1.0, 0.0, 3.0, 4.0)];
    move_actors(&mut bodies, &[(s(10.0), s(11.0)), (s(12.0), s(13.0))]);
    assert_eq!(f(bodies[0].coordinates().0), 10.0);
    assert_eq!(f(bodies[0].coordinates().1), 11.0);
    assert_eq!(f(bodies[1].coordinates().0), 12.0);
    assert_eq!(f(bodies[1].coordinates().1), 13.0);
    assert_eq!(f(bodies[0].velocity().1), 2.0);
    assert_eq!(f(bodies[1].velocity().0), 3.0);
    move_actors(&mut bodies, &[(s(0.0), s(0.0))]);
    assert_eq!(f(bodies[0].coordinates().0), 10.0);
    move_actors(&mut bodies, &[(s(0.0), s(0.0)); 3]);
    assert_eq!(f(bodies[1].coordinates().1), 13.0);
    let mut none: Vec<SimulationActor> = Vec::new();
    move_actors(&mut none, &[]);
    assert!(none.is_empty());
}

#[test]
fn next_action_searches_from_the_given_pair() {
    let bodies = [body(1.0, 0.0, 1.0), body(1.0, 1.0, 1.0), body(2.0, 0.0, 1.0)];
    assert_eq!(next_action(&bodies, 0, 1), pair(0, 2));
    assert_eq!(next_action(&bodies, 0, 2), pair(0, 2));
    assert_eq!(next_action(&bodies, 0, 3), pair(1, 2));
    assert_eq!(next_action(&bodies, 1, 2), pair(1, 2));
    assert_eq!(next_action(&bodies, 1, 3), StepAction::Move);
    assert_eq!(next_action(&bodies, 2, 3), StepAction::Move);
    assert_eq!(next_action(&bodies, 7, 9), StepAction::Move);
    assert_eq!(next_action(&[], 0, 1), StepAction::Move);
    assert_eq!(next_action(&bodies[..1], 0, 1), StepAction::Move);
}
