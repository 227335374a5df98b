use gravity_circles::body::{Body, Color};
use gravity_circles::boundary::resolve_bounds;
use gravity_circles::forces::compute_forces;
use gravity_circles::sim::{spawn_bodies, FrameInput, SimulationState, INITIAL_GRAVITY};

fn plain_color() -> Color {
    Color { r: 500, g: 500, b: 500, a: 900 }
}

fn no_input() -> FrameInput {
    FrameInput { raise_gravity: false, lower_gravity: false }
}

// Two bodies of mass 10 at (100,100) and (110,100) with G = 5000: the
// expected force magnitude is 5000*10*10/100 = 5000 along the x axis,
// pulling them together.
#[test]
fn two_body_force_magnitude() {
    let b0 = Body::new(100_000, 100_000, 0, 0, 10_000, plain_color());
    let b1 = Body::new(110_000, 100_000, 0, 0, 10_000, plain_color());
    let forces = compute_forces(&vec![b0, b1], 5_000);
    assert_eq!(forces.len(), 2);
    assert_eq!(forces[0].x, 5_000_000);
    assert_eq!(forces[0].y, 0);
    assert_eq!(forces[1].x, -5_000_000);
    assert_eq!(forces[1].y, 0);
}

// After one step with dt = 0.016 s each body's velocity moves toward the
// other by 5000/10*0.016*0.99 = 7.92 units/sec, with opposite signs.
#[test]
fn two_body_step_velocities() {
    let b0 = Body::new(100_000, 100_000, 0, 0, 10_000, plain_color());
    let b1 = Body::new(110_000, 100_000, 0, 0, 10_000, plain_color());
    let mut state = SimulationState::new(vec![b0, b1], 5_000);
    state.step(16, no_input(), 800_000, 600_000);
    assert_eq!(state.bodies[0].velocity.x, 7_920);
    assert_eq!(state.bodies[0].velocity.y, 0);
    assert_eq!(state.bodies[1].velocity.x, -7_920);
    assert_eq!(state.bodies[1].velocity.y, 0);
    // The displacement uses the pre-update (zero) velocity.
    assert_eq!(state.bodies[0].position.x, 100_000);
    assert_eq!(state.bodies[1].position.x, 110_000);
    assert_eq!(state.gravitational_constant, 5_000);
}

// Momentum conservation on a diagonal pair: the force added to one body
// is the exact negation of the force added to the other.
#[test]
fn pairwise_momentum_conservation() {
    let b0 = Body::new(100_000, 100_000, 0, 0, 12_000, plain_color());
    let b1 = Body::new(107_000, 103_000, 0, 0, 33_000, plain_color());
    let forces = compute_forces(&vec![b0, b1], 5_000);
    assert!(forces[0].x > 0);
    assert!(forces[0].y > 0);
    assert_eq!(forces[0].x, -forces[1].x);
    assert_eq!(forces[0].y, -forces[1].y);
}

// A pair at most one pixel apart contributes no force to either body.
#[test]
fn close_pair_contributes_nothing() {
    let b0 = Body::new(100_000, 100_000, 0, 0, 10_000, plain_color());
    let half_pixel = Body::new(100_500, 100_000, 0, 0, 10_000, plain_color());
    let forces = compute_forces(&vec![b0, half_pixel], 5_000);
    assert_eq!((forces[0].x, forces[0].y), (0, 0));
    assert_eq!((forces[1].x, forces[1].y), (0, 0));

    // Exactly one pixel apart is still skipped (distance_sq <= 1.0).
    let one_pixel = Body::new(101_000, 100_000, 0, 0, 10_000, plain_color());
    let forces = compute_forces(&vec![b0, one_pixel], 5_000);
    assert_eq!((forces[0].x, forces[0].y), (0, 0));
    assert_eq!((forces[1].x, forces[1].y), (0, 0));
}

// Three collinear bodies: accumulators superpose pairwise forces, the
// middle body's contributions cancel, and the total is zero.
#[test]
fn three_body_superposition() {
    let b0 = Body::new(100_000, 100_000, 0, 0, 10_000, plain_color());
    let b1 = Body::new(110_000, 100_000, 0, 0, 10_000, plain_color());
    let b2 = Body::new(120_000, 100_000, 0, 0, 10_000, plain_color());
    let forces = compute_forces(&vec![b0, b1, b2], 5_000);
    // Neighbors pull with 5000, the outer pair with 5000/4 = 1250.
    assert_eq!(forces[0].x, 5_000_000 + 1_250_000);
    assert_eq!(forces[1].x, 0);
    assert_eq!(forces[2].x, -5_000_000 - 1_250_000);
    assert_eq!(forces[0].x + forces[1].x + forces[2].x, 0);
    assert_eq!(forces[0].y + forces[1].y + forces[2].y, 0);
}

// A body overlapping two edges at once is reflected on both axes.
#[test]
fn corner_reflection() {
    let mut b = Body::new(10_000, 10_000, -5_000, -6_000, 30_000, plain_color());
    resolve_bounds(&mut b, 800_000, 600_000);
    assert_eq!(b.position.x, 15_000);
    assert_eq!(b.position.y, 15_000);
    assert_eq!(b.velocity.x, 5_000);
    assert_eq!(b.velocity.y, 6_000);
}

// A single body at position (radius - 5, 50) moving left: after one
// boundary pass it sits exactly on the edge with its velocity reflected.
#[test]
fn left_edge_reflection() {
    // mass 30 -> radius 15; position x = 10 = radius - 5 pixels.
    let mut b = Body::new(10_000, 50_000, -10_000, 0, 30_000, plain_color());
    resolve_bounds(&mut b, 800_000, 600_000);
    assert_eq!(b.position.x, 15_000);
    assert_eq!(b.velocity.x, 10_000);
    assert_eq!(b.position.y, 50_000);
    assert_eq!(b.velocity.y, 0);
}

// After the boundary resolver runs, every body is contained in
// [radius, viewport - radius] on both axes.
#[test]
fn boundary_containment() {
    let overshoots = vec![
        Body::new(795_000, 300_000, 5_000, 0, 20_000, plain_color()),
        Body::new(400_000, 599_000, 0, 9_000, 20_000, plain_color()),
        Body::new(3_000, 2_000, -1_000, -1_000, 20_000, plain_color()),
    ];
    for mut b in overshoots {
        resolve_bounds(&mut b, 800_000, 600_000);
        assert!(b.radius <= b.position.x && b.position.x <= 800_000 - b.radius);
        assert!(b.radius <= b.position.y && b.position.y <= 600_000 - b.radius);
    }
}

// The radius always equals half the mass, from creation through steps.
#[test]
fn radius_is_half_mass() {
    let b = Body::new(100_000, 100_000, 0, 0, 9_001, plain_color());
    assert_eq!(b.radius, 9_001 / 2);
    let mut state = SimulationState::new(vec![b], INITIAL_GRAVITY);
    for _ in 0..10 {
        state.step(16, no_input(), 800_000, 600_000);
        assert_eq!(state.bodies[0].radius, state.bodies[0].mass / 2);
        assert_eq!(state.bodies[0].mass, 9_001);
    }
}

// Damping: with no partner and no force, one step scales the velocity by
// 99/100 while the displacement still uses the pre-damping velocity.
#[test]
fn damping_uses_old_velocity_for_position() {
    let b = Body::new(100_000, 100_000, 1_000, 0, 10_000, plain_color());
    let mut state = SimulationState::new(vec![b], 5_000);
    state.step(1_000, no_input(), 800_000, 600_000);
    assert_eq!(state.bodies[0].velocity.x, 990);
    assert_eq!(state.bodies[0].position.x, 101_000);
}

// The gravitational constant never drops below zero and saturates its
// steps at the floor.
#[test]
fn gravity_floor() {
    let mut state = SimulationState::new(Vec::new(), 30);
    let lower = FrameInput { raise_gravity: false, lower_gravity: true };
    state.step(16, lower, 800_000, 600_000);
    assert_eq!(state.gravitational_constant, 0);
    state.step(16, lower, 800_000, 600_000);
    assert_eq!(state.gravitational_constant, 0);
}

// Raising adds one step per frame; holding both keys cancels out.
#[test]
fn gravity_adjustment_steps() {
    let mut state = SimulationState::new(Vec::new(), INITIAL_GRAVITY);
    let raise = FrameInput { raise_gravity: true, lower_gravity: false };
    state.step(16, raise, 800_000, 600_000);
    assert_eq!(state.gravitational_constant, 5_050);
    let both = FrameInput { raise_gravity: true, lower_gravity: true };
    state.step(16, both, 800_000, 600_000);
    assert_eq!(state.gravitational_constant, 5_050);
    let lower = FrameInput { raise_gravity: false, lower_gravity: true };
    state.step(16, lower, 800_000, 600_000);
    assert_eq!(state.gravitational_constant, 5_000);
}

// Kinetic energy: exact value for a 3-4-5 velocity and never negative.
#[test]
fn kinetic_energy_exact_and_nonnegative() {
    let b = Body::new(100_000, 100_000, 3_000, 4_000, 10_000, plain_color());
    let still = Body::new(200_000, 200_000, 0, 0, 50_000, plain_color());
    let state = SimulationState::new(vec![b, still], INITIAL_GRAVITY);
    // 10000 * (3000^2 + 4000^2) / 2 = 125_000_000_000.
    assert_eq!(state.total_kinetic_energy(), 125_000_000_000);
    let mut moving = SimulationState::new(vec![b, still], INITIAL_GRAVITY);
    for _ in 0..20 {
        moving.step(16, no_input(), 800_000, 600_000);
        let _nonneg: u128 = moving.total_kinetic_energy();
    }
}

// Average speed: the mean of the velocity magnitudes, rounded down.
#[test]
fn average_speed_exact() {
    let fast = Body::new(100_000, 100_000, 3_000, 4_000, 10_000, plain_color());
    let still = Body::new(200_000, 200_000, 0, 0, 50_000, plain_color());
    let one = SimulationState::new(vec![fast], INITIAL_GRAVITY);
    assert_eq!(one.average_speed(), 5_000);
    let two = SimulationState::new(vec![fast, still], INITIAL_GRAVITY);
    assert_eq!(two.average_speed(), 2_500);
}

// Spawning: the requested count, masses in [8, 75), derived radii,
// positions clustered around the viewport center, small velocities and
// color channels below one.
#[test]
fn spawn_population_ranges() {
    let width: i64 = 800_000;
    let height: i64 = 600_000;
    let bodies = spawn_bodies(74, width, height);
    assert_eq!(bodies.len(), 74);
    let (cx, cy) = (width / 2, height / 2);
    for b in &bodies {
        assert!(8_000 <= b.mass && b.mass < 75_000);
        assert_eq!(b.radius, b.mass / 2);
        assert!(cx - cx / 10 <= b.position.x && b.position.x < cx + cx / 10);
        assert!(cy - cy / 10 <= b.position.y && b.position.y < cy + cy / 10);
        assert!(-100 <= b.velocity.x && b.velocity.x < 100);
        assert!(-100 <= b.velocity.y && b.velocity.y < 100);
        assert!(b.color.r < 1_000 && b.color.g < 1_000 && b.color.b < 1_000 && b.color.a < 1_000);
    }
}

// A spawned population can be stepped many frames and stays well formed.
#[test]
fn spawned_population_runs() {
    let bodies = spawn_bodies(25, 800_000, 600_000);
    let mut state = SimulationState::new(bodies, INITIAL_GRAVITY);
    for _ in 0..30 {
        state.step(16, no_input(), 800_000, 600_000);
    }
    for b in &state.bodies {
        assert!(b.radius <= b.position.x && b.position.x <= 800_000 - b.radius);
        assert!(b.radius <= b.position.y && b.position.y <= 600_000 - b.radius);
        assert_eq!(b.radius, b.mass / 2);
    }
    let _ = state.average_speed();
    let _ = state.total_kinetic_energy();
}
