use convection::scalar::CfdScalar;
use convection::fixed::Fixed;
use convection::simulation::SimParameters;
use convection::simulation::Simulation;
use convection::sweeps::jacobi_sweep;
use convection::records::CellRecord;
use convection::records::export_records;
use convection::records::load_state;

fn fx(n: usize) -> Fixed {
    Fixed::from_usize(n)
}

fn ratio(num: usize, den: usize) -> Fixed {
    Fixed::div(Fixed::from_usize(num), Fixed::from_usize(den))
}

fn le(a: Fixed, b: Fixed) -> bool {
    !Fixed::is_pos(Fixed::sub(a, b))
}

fn grid_of(ny: usize, nx: usize, v: Fixed) -> Vec<Vec<Fixed>> {
    (0..ny).map(|_| (0..nx).map(|_| v).collect()).collect()
}

/// Squared interior residual of the system the sweep relaxes,
/// `sum (lap(psi) - vort)^2`. The update formula drives the stream
/// function toward `lap(psi) = vort` for the vorticity it is handed, so
/// this is the defect that successive sweeps shrink.
fn residual(s: &Vec<Vec<Fixed>>, w: &Vec<Vec<Fixed>>, dx: Fixed, dy: Fixed) -> Fixed {
    let ny = s.len();
    let nx = s[0].len();
    let two = fx(2);
    let mut total = Fixed::zero();
    for i in 1..ny - 1 {
        for j in 1..nx - 1 {
            let lap_x = Fixed::div(
                Fixed::add(Fixed::sub(s[i][j + 1], Fixed::mul(two, s[i][j])), s[i][j - 1]),
                Fixed::mul(dx, dx),
            );
            let lap_y = Fixed::div(
                Fixed::add(Fixed::sub(s[i + 1][j], Fixed::mul(two, s[i][j])), s[i - 1][j]),
                Fixed::mul(dy, dy),
            );
            let r = Fixed::sub(Fixed::add(lap_x, lap_y), w[i][j]);
            total = Fixed::add(total, Fixed::mul(r, r));
        }
    }
    total
}

#[test]
fn fixed_arithmetic_exact_values() {
    assert_eq!(Fixed::add(ratio(1, 4), ratio(1, 4)), ratio(1, 2));
    assert_eq!(Fixed::sub(fx(3), fx(5)), Fixed::neg(fx(2)));
    assert_eq!(Fixed::mul(fx(3), fx(4)), fx(12));
    assert_eq!(Fixed::mul(Fixed::neg(fx(3)), Fixed::neg(fx(4))), fx(12));
    assert_eq!(Fixed::div(fx(1), fx(4)), ratio(1, 4));
    assert_eq!(Fixed::div(fx(1), Fixed::zero()), Fixed::zero());
    assert_eq!(Fixed::neg(Fixed::zero()), Fixed::zero());
    assert!(Fixed::is_pos(fx(1)));
    assert!(!Fixed::is_pos(Fixed::zero()));
    assert!(!Fixed::is_pos(Fixed::neg(fx(1))));
}

#[test]
fn fixed_arithmetic_saturates_instead_of_panicking() {
    let huge = fx(usize::MAX);
    let sum = Fixed::add(huge, huge);
    assert!(Fixed::is_pos(sum));
    let product = Fixed::mul(huge, huge);
    assert!(Fixed::is_pos(product));
    assert_eq!(Fixed::sub(huge, huge), Fixed::zero());
}

#[test]
fn jacobi_sweep_exact_center_value() {
    // On a 5-by-5 grid with unit vorticity, zero stream function and
    // spacing 1/4, one sweep puts -(1/64) in every interior cell.
    let s = grid_of(5, 5, Fixed::zero());
    let w = grid_of(5, 5, Fixed::one());
    let h = ratio(1, 4);
    let s1 = jacobi_sweep(5, 5, &s, &w, h, h);
    let expected = Fixed::neg(ratio(1, 64));
    for i in 1..4 {
        for j in 1..4 {
            assert_eq!(s1[i][j], expected);
        }
    }
    for j in 0..5 {
        assert_eq!(s1[0][j], Fixed::zero());
        assert_eq!(s1[4][j], Fixed::zero());
    }
}

#[test]
fn jacobi_residual_never_increases() {
    let mut s = grid_of(5, 5, Fixed::zero());
    let w = grid_of(5, 5, Fixed::one());
    let h = ratio(1, 4);
    let mut prev = residual(&s, &w, h, h);
    for _ in 0..8 {
        s = jacobi_sweep(5, 5, &s, &w, h, h);
        let next = residual(&s, &w, h, h);
        assert!(le(next, prev));
        prev = next;
    }
}

#[test]
fn export_is_row_major_per_cell() {
    let mut sim = Simulation::new(SimParameters {
        nx: 2,
        ny: 2,
        dt: ratio(1, 10000),
        pr: ratio(71, 100),
        ra: fx(10000),
    })
    .unwrap();
    sim.state.u[1][0] = fx(7);
    let recs = export_records(&sim.state, 2, 2);
    assert_eq!(recs.len(), 4);
    assert_eq!((recs[0].x, recs[0].y), (0, 0));
    assert_eq!((recs[1].x, recs[1].y), (1, 0));
    assert_eq!((recs[2].x, recs[2].y), (0, 1));
    assert_eq!((recs[3].x, recs[3].y), (1, 1));
    assert_eq!(recs[2].u_velocity, fx(7));
    assert_eq!(recs[0].temperature, Fixed::one());
}

#[test]
fn load_ignores_out_of_range_records() {
    let records = vec![
        CellRecord { x: 1, y: 1, temperature: fx(3), u_velocity: fx(4), v_velocity: fx(5) },
        CellRecord { x: 9, y: 0, temperature: fx(8), u_velocity: fx(8), v_velocity: fx(8) },
        CellRecord { x: 0, y: 9, temperature: fx(8), u_velocity: fx(8), v_velocity: fx(8) },
    ];
    let s = load_state(3, 3, &records);
    assert_eq!(s.temp[1][1], fx(3));
    assert_eq!(s.u[1][1], fx(4));
    assert_eq!(s.v[1][1], fx(5));
    assert_eq!(s.temp[0][0], Fixed::zero());
    for row in s.temp.iter() {
        assert_eq!(row.len(), 3);
        for c in row.iter() {
            assert!(*c == fx(3) || *c == Fixed::zero());
        }
    }
}

#[test]
fn persistence_round_trip_restores_fields() {
    let mut sim = Simulation::new(SimParameters {
        nx: 5,
        ny: 5,
        dt: ratio(1, 10000),
        pr: ratio(71, 100),
        ra: fx(10000),
    })
    .unwrap();
    for _ in 0..2 {
        sim.step();
    }
    let recs = export_records(&sim.state, 5, 5);
    let loaded = load_state(5, 5, &recs);
    assert_eq!(loaded.temp, sim.state.temp);
    assert_eq!(loaded.u, sim.state.u);
    assert_eq!(loaded.v, sim.state.v);
    for i in 0..5 {
        for j in 0..5 {
            assert_eq!(loaded.vort[i][j], Fixed::zero());
            assert_eq!(loaded.stream[i][j], Fixed::zero());
        }
    }
}
