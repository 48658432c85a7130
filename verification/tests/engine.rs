use convection::scalar::CfdScalar;
use convection::fixed::Fixed;
use convection::simulation::ConfigError;
use convection::simulation::ProgressObserver;
use convection::simulation::SimParameters;
use convection::simulation::SimState;
use convection::simulation::Simulation;
use convection::render::temperature_hue;

fn fx(n: usize) -> Fixed {
    Fixed::from_usize(n)
}

fn ratio(num: usize, den: usize) -> Fixed {
    Fixed::div(Fixed::from_usize(num), Fixed::from_usize(den))
}

fn params(nx: usize, ny: usize) -> SimParameters<Fixed> {
    SimParameters { nx, ny, dt: ratio(1, 10000), pr: ratio(71, 100), ra: fx(10000) }
}

fn all_cells_zero(g: &Vec<Vec<Fixed>>) -> bool {
    g.iter().all(|row| row.iter().all(|c| *c == Fixed::zero()))
}

#[test]
fn construction_rejects_small_grid() {
    assert_eq!(Simulation::new(params(1, 5)).err(), Some(ConfigError::GridTooSmall));
    assert_eq!(Simulation::new(params(5, 0)).err(), Some(ConfigError::GridTooSmall));
}

#[test]
fn construction_rejects_non_positive_time_step() {
    let mut p = params(5, 5);
    p.dt = Fixed::zero();
    assert_eq!(Simulation::new(p).err(), Some(ConfigError::NonPositiveTimeStep));
    let mut q = params(5, 5);
    q.dt = Fixed::neg(ratio(1, 10000));
    assert_eq!(Simulation::new(q).err(), Some(ConfigError::NonPositiveTimeStep));
}

#[test]
fn construction_stamps_boundaries() {
    let sim = Simulation::new(params(5, 4)).ok().unwrap();
    let one = Fixed::one();
    let zero = Fixed::zero();
    for j in 0..5 {
        assert_eq!(sim.state.temp[0][j], one);
    }
    for j in 1..4 {
        assert_eq!(sim.state.temp[3][j], zero);
    }
    for i in 0..4 {
        assert_eq!(sim.state.temp[i][0], one);
        assert_eq!(sim.state.temp[i][4], one);
    }
    assert_eq!(sim.state.temp[1][2], zero);
    assert!(all_cells_zero(&sim.state.vort));
    assert!(all_cells_zero(&sim.state.stream));
    assert!(all_cells_zero(&sim.state.u));
    assert!(all_cells_zero(&sim.state.v));
}

#[test]
fn shape_invariant_under_steps() {
    let mut sim = Simulation::new(params(6, 4)).ok().unwrap();
    for _ in 0..3 {
        sim.step();
    }
    let fields = [&sim.state.temp, &sim.state.vort, &sim.state.stream, &sim.state.u,
        &sim.state.v];
    for f in fields {
        assert_eq!(f.len(), 4);
        for row in f.iter() {
            assert_eq!(row.len(), 6);
        }
    }
}

#[test]
fn determinism_two_runs_agree() {
    let mut a = Simulation::new(params(5, 5)).ok().unwrap();
    let mut b = Simulation::new(params(5, 5)).ok().unwrap();
    for _ in 0..3 {
        a.step();
        b.step();
    }
    assert_eq!(a.state.temp, b.state.temp);
    assert_eq!(a.state.vort, b.state.vort);
    assert_eq!(a.state.stream, b.state.stream);
    assert_eq!(a.state.u, b.state.u);
    assert_eq!(a.state.v, b.state.v);
}

#[test]
fn boundary_temperature_survives_steps() {
    let mut sim = Simulation::new(params(5, 5)).ok().unwrap();
    for _ in 0..2 {
        sim.step();
    }
    let one = Fixed::one();
    let zero = Fixed::zero();
    for j in 0..5 {
        assert_eq!(sim.state.temp[0][j], one);
    }
    for j in 1..4 {
        assert_eq!(sim.state.temp[4][j], zero);
    }
    for i in 0..5 {
        assert_eq!(sim.state.temp[i][0], one);
        assert_eq!(sim.state.temp[i][4], one);
    }
}

#[test]
fn zero_rayleigh_stays_stationary() {
    let mut p = params(5, 5);
    p.ra = Fixed::zero();
    let mut sim = Simulation::new(p).ok().unwrap();
    for _ in 0..3 {
        sim.step();
    }
    assert!(all_cells_zero(&sim.state.vort));
    assert!(all_cells_zero(&sim.state.stream));
    assert!(all_cells_zero(&sim.state.u));
    assert!(all_cells_zero(&sim.state.v));
}

#[test]
fn one_step_concrete_scenario() {
    let mut sim = Simulation::new(params(5, 5)).ok().unwrap();
    let before = sim.state.temp.clone();
    sim.step();
    let one = Fixed::one();
    let zero = Fixed::zero();
    for j in 0..5 {
        assert_eq!(sim.state.temp[0][j], before[0][j]);
        assert_eq!(sim.state.temp[4][j], before[4][j]);
    }
    for i in 0..5 {
        assert_eq!(sim.state.temp[i][0], one);
        assert_eq!(sim.state.temp[i][4], one);
    }
    assert_eq!(sim.state.vort[0][0], zero);
    assert_eq!(sim.state.vort[0][4], zero);
    assert_eq!(sim.state.vort[4][0], zero);
    assert_eq!(sim.state.vort[4][4], zero);
    let mut near_wall_nonzero = false;
    for i in 1..4 {
        if sim.state.vort[i][1] != zero {
            near_wall_nonzero = true;
        }
    }
    assert!(near_wall_nonzero);
}

struct CountingObserver {
    calls: Vec<(usize, usize)>,
}

impl ProgressObserver for CountingObserver {
    fn on_progress(&mut self, completed: usize, total: usize) {
        self.calls.push((completed, total));
    }
}

#[test]
fn run_notifies_every_hundred_steps() {
    let mut sim = Simulation::new(params(3, 3)).ok().unwrap();
    let mut obs = CountingObserver { calls: Vec::new() };
    sim.run(250, &mut obs);
    assert_eq!(obs.calls, vec![(0, 250), (100, 250), (200, 250)]);
}

#[test]
fn run_matches_manual_steps() {
    let mut by_run = Simulation::new(params(4, 4)).ok().unwrap();
    let mut by_hand = Simulation::new(params(4, 4)).ok().unwrap();
    let mut obs = CountingObserver { calls: Vec::new() };
    by_run.run(5, &mut obs);
    for _ in 0..5 {
        by_hand.step();
    }
    assert_eq!(by_run.state.temp, by_hand.state.temp);
    assert_eq!(by_run.state.vort, by_hand.state.vort);
    assert_eq!(by_run.state.stream, by_hand.state.stream);
}

#[test]
fn fresh_state_is_zero_and_shaped() {
    let s: SimState<Fixed> = SimState::new(7, 3);
    assert_eq!(s.temp.len(), 3);
    assert_eq!(s.temp[0].len(), 7);
    assert!(all_cells_zero(&s.temp));
    assert!(all_cells_zero(&s.vort));
}

#[test]
fn smallest_grid_steps_without_change() {
    let mut sim = Simulation::new(params(2, 2)).ok().unwrap();
    sim.step();
    sim.step();
    let one = Fixed::one();
    for i in 0..2 {
        for j in 0..2 {
            assert_eq!(sim.state.temp[i][j], one);
        }
    }
    assert!(all_cells_zero(&sim.state.vort));
    assert!(all_cells_zero(&sim.state.stream));
    assert!(all_cells_zero(&sim.state.u));
    assert!(all_cells_zero(&sim.state.v));
}

#[test]
fn relaxation_budget_is_configurable() {
    let mut a = Simulation::new(params(5, 5)).ok().unwrap();
    let mut b = Simulation::new(params(5, 5)).ok().unwrap();
    assert_eq!(a.relax_iters, 50);
    b.relax_iters = 1;
    for _ in 0..2 {
        a.step();
        b.step();
    }
    assert_ne!(a.state.stream, b.state.stream);
}

#[test]
fn hue_ramp_hits_exact_values() {
    assert_eq!(temperature_hue(Fixed::one()), Fixed::zero());
    assert_eq!(temperature_hue(Fixed::zero()), fx(240));
    assert_eq!(temperature_hue(ratio(1, 2)), fx(120));
}
