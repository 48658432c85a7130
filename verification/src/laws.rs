use vstd::prelude::*;
use crate::scalar::CfdScalar;
use crate::scalar::zero_arith_laws;
use crate::fixed::Fixed;
use crate::fixed::lemma_fixed_zero_laws;
use crate::grid::all_zero;
use crate::model::StateModel;
use crate::model::interior;
use crate::model::init_model_spec;
use crate::model::init_temp_cell;
use crate::model::jacobi_cell;
use crate::model::jacobi_sweep_spec;
use crate::model::relax_spec;
use crate::model::u_cell;
use crate::model::v_cell;
use crate::model::thom_cell;
use crate::model::vort_cell_spec;
use crate::model::u_field_spec;
use crate::model::v_field_spec;
use crate::model::thom_field_spec;
use crate::model::vort_step_spec;
use crate::model::step_spec;
use crate::model::run_spec;
use crate::model::lemma_init_model_wf;
use crate::model::lemma_run_shape;
use crate::model::lemma_relax_shape;
use crate::model::lemma_u_field_shape;
use crate::model::lemma_v_field_shape;
use crate::model::lemma_thom_shape;

verus! {

/// One step never writes a non-interior temperature cell.
proof fn lemma_step_temp_boundary<T: CfdScalar>(
    m: StateModel<T>,
    dt: T, pr: T, ra: T, dx: T, dy: T,
    iters: nat,
    ny: int,
    nx: int,
)
    requires
        m.wf(ny, nx),
    ensures
        forall|i: int, j: int|
            0 <= i < ny && 0 <= j < nx && !interior(ny, nx, i, j) ==> #[trigger] step_spec(
                m, dt, pr, ra, dx, dy, iters,
            ).temp[i][j] == m.temp[i][j],
{
    assert forall|i: int, j: int|
        0 <= i < ny && 0 <= j < nx && !interior(ny, nx, i, j) implies #[trigger] step_spec(
        m, dt, pr, ra, dx, dy, iters,
    ).temp[i][j] == m.temp[i][j] by {
        assert(m.temp[i].len() == nx);
    }
}

/// No number of steps writes a non-interior temperature cell.
proof fn lemma_run_temp_boundary<T: CfdScalar>(
    m: StateModel<T>,
    dt: T, pr: T, ra: T, dx: T, dy: T,
    iters: nat,
    n: nat,
    ny: int,
    nx: int,
)
    requires
        m.wf(ny, nx),
    ensures
        forall|i: int, j: int|
            0 <= i < ny && 0 <= j < nx && !interior(ny, nx, i, j) ==> #[trigger] run_spec(
                m, dt, pr, ra, dx, dy, iters, n,
            ).temp[i][j] == m.temp[i][j],
    decreases n,
{
    if n > 0 {
        lemma_run_temp_boundary(m, dt, pr, ra, dx, dy, iters, (n - 1) as nat, ny, nx);
        lemma_run_shape(m, dt, pr, ra, dx, dy, iters, (n - 1) as nat, ny, nx);
        lemma_step_temp_boundary(
            run_spec(m, dt, pr, ra, dx, dy, iters, (n - 1) as nat),
            dt, pr, ra, dx, dy, iters, ny, nx,
        );
    }
}

/// Boundary invariance: however many steps run from the freshly
/// initialized state, the bottom row, the left column and the right column
/// of the temperature field are still hot (one) and the top row is still
/// cold (zero) strictly between its two corners. The two top corners
/// belong to the side columns, whose fill is applied last at
/// initialization, so they stay at one.
pub proof fn lemma_boundary_invariance<T: CfdScalar>(
    dt: T, pr: T, ra: T, dx: T, dy: T,
    iters: nat,
    n: nat,
    ny: int,
    nx: int,
)
    requires
        2 <= ny,
        2 <= nx,
    ensures
        ({
            let end = run_spec(init_model_spec::<T>(ny, nx), dt, pr, ra, dx, dy, iters, n);
            &&& forall|j: int| 0 <= j < nx ==> #[trigger] end.temp[0][j] == T::one_spec()
            &&& forall|j: int| 1 <= j < nx - 1 ==> #[trigger] end.temp[ny - 1][j] == T::zero_spec()
            &&& forall|i: int| 0 <= i < ny ==> #[trigger] end.temp[i][0] == T::one_spec()
            &&& forall|i: int| 0 <= i < ny ==> #[trigger] end.temp[i][nx - 1] == T::one_spec()
        }),
{
    let m = init_model_spec::<T>(ny, nx);
    lemma_init_model_wf::<T>(ny, nx);
    lemma_run_temp_boundary(m, dt, pr, ra, dx, dy, iters, n, ny, nx);
    let end = run_spec(m, dt, pr, ra, dx, dy, iters, n);
    assert forall|j: int| 0 <= j < nx implies #[trigger] end.temp[0][j] == T::one_spec() by {
        assert(m.temp[0][j] == init_temp_cell::<T>(ny, nx, 0, j));
    }
    assert forall|j: int| 1 <= j < nx - 1 implies #[trigger] end.temp[ny - 1][j]
        == T::zero_spec() by {
        assert(m.temp[ny - 1][j] == init_temp_cell::<T>(ny, nx, ny - 1, j));
    }
    assert forall|i: int| 0 <= i < ny implies #[trigger] end.temp[i][0] == T::one_spec() by {
        assert(m.temp[i][0] == init_temp_cell::<T>(ny, nx, i, 0));
    }
    assert forall|i: int| 0 <= i < ny implies #[trigger] end.temp[i][nx - 1] == T::one_spec() by {
        assert(m.temp[i][nx - 1] == init_temp_cell::<T>(ny, nx, i, nx - 1));
    }
}

/// Determinism: the step transformer is a mathematical function of the
/// state and the parameters, so two runs from equal states under equal
/// parameters agree exactly after any number of steps. Together with the
/// controller's contract, which pins its state to this transformer, two
/// independently constructed simulations can never drift apart.
pub proof fn lemma_determinism<T: CfdScalar>(
    m1: StateModel<T>,
    m2: StateModel<T>,
    dt: T, pr: T, ra: T, dx: T, dy: T,
    iters: nat,
    n: nat,
)
    requires
        m1 == m2,
    ensures
        run_spec(m1, dt, pr, ra, dx, dy, iters, n) == run_spec(m2, dt, pr, ra, dx, dy, iters, n),
{
}

/// Under the zero laws, one Jacobi update of an all-zero neighbourhood is
/// zero.
proof fn lemma_jacobi_cell_zero<T: CfdScalar>(dx: T, dy: T)
    requires
        zero_arith_laws::<T>(),
    ensures
        jacobi_cell(
            T::zero_spec(), T::zero_spec(), T::zero_spec(), T::zero_spec(), T::zero_spec(),
            dx, dy,
        ) == T::zero_spec(),
{
}

/// Under the zero laws, a Jacobi sweep of an all-zero stream function with
/// all-zero vorticity stays all zero.
proof fn lemma_sweep_zero<T: CfdScalar>(s: Seq<Seq<T>>, w: Seq<Seq<T>>, dx: T, dy: T, ny: int, nx: int)
    requires
        zero_arith_laws::<T>(),
        is_grid_pair(s, w, ny, nx),
        all_zero(s),
        all_zero(w),
    ensures
        all_zero(jacobi_sweep_spec(s, w, dx, dy)),
{
    let r = jacobi_sweep_spec(s, w, dx, dy);
    assert forall|i: int, j: int|
        0 <= i < r.len() && 0 <= j < r[i].len() implies #[trigger] r[i][j] == T::zero_spec() by {
        assert(s[i].len() == nx);
        if interior(ny, nx, i, j) {
            assert(s[i + 1].len() == nx);
            assert(s[i - 1].len() == nx);
            assert(w[i].len() == nx);
            lemma_jacobi_cell_zero::<T>(dx, dy);
        }
    }
}

/// Both fields are dense `ny` by `nx` rectangles.
spec fn is_grid_pair<T>(a: Seq<Seq<T>>, b: Seq<Seq<T>>, ny: int, nx: int) -> bool {
    &&& crate::grid::is_grid(a, ny, nx)
    &&& crate::grid::is_grid(b, ny, nx)
}

/// Under the zero laws, any number of Jacobi sweeps of an all-zero stream
/// function with all-zero vorticity stays all zero.
proof fn lemma_relax_zero<T: CfdScalar>(
    s: Seq<Seq<T>>,
    w: Seq<Seq<T>>,
    dx: T,
    dy: T,
    iters: nat,
    ny: int,
    nx: int,
)
    requires
        zero_arith_laws::<T>(),
        is_grid_pair(s, w, ny, nx),
        all_zero(s),
        all_zero(w),
    ensures
        all_zero(relax_spec(s, w, dx, dy, iters)),
    decreases iters,
{
    if iters > 0 {
        lemma_relax_zero(s, w, dx, dy, (iters - 1) as nat, ny, nx);
        lemma_relax_shape(s, w, dx, dy, (iters - 1) as nat, ny, nx);
        lemma_sweep_zero(relax_spec(s, w, dx, dy, (iters - 1) as nat), w, dx, dy, ny, nx);
    }
}

/// Under the zero laws, one step of a state with no vorticity, no stream
/// function and no velocity, driven with a zero Rayleigh number, leaves
/// all four of those fields exactly zero, whatever the temperature holds.
proof fn lemma_step_zero<T: CfdScalar>(
    m: StateModel<T>,
    dt: T, pr: T, ra: T, dx: T, dy: T,
    iters: nat,
    ny: int,
    nx: int,
)
    requires
        zero_arith_laws::<T>(),
        m.wf(ny, nx),
        2 <= ny,
        2 <= nx,
        ra == T::zero_spec(),
        all_zero(m.vort),
        all_zero(m.stream),
        all_zero(m.u),
        all_zero(m.v),
    ensures
        all_zero(step_spec(m, dt, pr, ra, dx, dy, iters).vort),
        all_zero(step_spec(m, dt, pr, ra, dx, dy, iters).stream),
        all_zero(step_spec(m, dt, pr, ra, dx, dy, iters).u),
        all_zero(step_spec(m, dt, pr, ra, dx, dy, iters).v),
{
    let z = T::zero_spec();
    let s1 = relax_spec(m.stream, m.vort, dx, dy, iters);
    lemma_relax_zero(m.stream, m.vort, dx, dy, iters, ny, nx);
    lemma_relax_shape(m.stream, m.vort, dx, dy, iters, ny, nx);
    let u1 = u_field_spec(m.u, s1, dy);
    assert forall|i: int, j: int|
        0 <= i < u1.len() && 0 <= j < u1[i].len() implies #[trigger] u1[i][j] == z by {
        assert(m.u[i].len() == nx);
        if interior(ny, nx, i, j) {
            assert(s1[i + 1].len() == nx);
            assert(s1[i - 1].len() == nx);
            assert(u_cell(s1[i + 1][j], s1[i - 1][j], dy) == u_cell(z, z, dy));
        }
    }
    let v1 = v_field_spec(m.v, s1, dx);
    assert forall|i: int, j: int|
        0 <= i < v1.len() && 0 <= j < v1[i].len() implies #[trigger] v1[i][j] == z by {
        assert(m.v[i].len() == nx);
        if interior(ny, nx, i, j) {
            assert(s1[i].len() == nx);
            assert(v_cell(s1[i][j + 1], s1[i][j - 1], dx) == v_cell(z, z, dx));
        }
    }
    let w1 = thom_field_spec(m.vort, s1, dx, dy);
    assert forall|i: int, j: int|
        0 <= i < w1.len() && 0 <= j < w1[i].len() implies #[trigger] w1[i][j] == z by {
        assert(m.vort[i].len() == nx);
        assert(s1[1].len() == nx && s1[ny - 1].len() == nx);
        if 0 <= i < ny {
            assert(s1[i].len() == nx);
        }
        if 2 <= ny {
            assert(s1[ny - 2].len() == nx);
        }
    }
    lemma_u_field_shape(m.u, s1, dy, ny, nx);
    lemma_v_field_shape(m.v, s1, dx, ny, nx);
    lemma_thom_shape(m.vort, s1, dx, dy, ny, nx);
    let w2 = vort_step_spec(w1, m.temp, u1, v1, dt, pr, ra, dx, dy);
    assert forall|i: int, j: int|
        0 <= i < w2.len() && 0 <= j < w2[i].len() implies #[trigger] w2[i][j] == z by {
        assert(w1[i].len() == nx);
        if interior(ny, nx, i, j) {
            assert(w1[i + 1].len() == nx);
            assert(w1[i - 1].len() == nx);
            assert(m.temp[i].len() == nx);
            assert(u1[i].len() == nx);
            assert(v1[i].len() == nx);
            assert(vort_cell_spec(
                w1[i][j + 1], w1[i][j - 1], w1[i + 1][j], w1[i - 1][j], w1[i][j],
                m.temp[i][j + 1], m.temp[i][j - 1],
                u1[i][j], v1[i][j],
                dt, pr, ra, dx, dy,
            ) == vort_cell_spec(
                z, z, z, z, z, m.temp[i][j + 1], m.temp[i][j - 1], z, z, dt, pr, ra, dx, dy,
            ));
        }
    }
}

/// Zero-buoyancy stationarity: with a zero Rayleigh number and no initial
/// vorticity, stream function or velocity, none of those four fields ever
/// becomes non-zero, however many steps run and whatever the temperature
/// field does meanwhile. No motion arises without buoyancy or initial
/// vorticity.
pub proof fn lemma_zero_buoyancy_stationarity<T: CfdScalar>(
    m: StateModel<T>,
    dt: T, pr: T, ra: T, dx: T, dy: T,
    iters: nat,
    n: nat,
    ny: int,
    nx: int,
)
    requires
        zero_arith_laws::<T>(),
        m.wf(ny, nx),
        2 <= ny,
        2 <= nx,
        ra == T::zero_spec(),
        all_zero(m.vort),
        all_zero(m.stream),
        all_zero(m.u),
        all_zero(m.v),
    ensures
        all_zero(run_spec(m, dt, pr, ra, dx, dy, iters, n).vort),
        all_zero(run_spec(m, dt, pr, ra, dx, dy, iters, n).stream),
        all_zero(run_spec(m, dt, pr, ra, dx, dy, iters, n).u),
        all_zero(run_spec(m, dt, pr, ra, dx, dy, iters, n).v),
    decreases n,
{
    if n > 0 {
        lemma_zero_buoyancy_stationarity(m, dt, pr, ra, dx, dy, iters, (n - 1) as nat, ny, nx);
        lemma_run_shape(m, dt, pr, ra, dx, dy, iters, (n - 1) as nat, ny, nx);
        lemma_step_zero(
            run_spec(m, dt, pr, ra, dx, dy, iters, (n - 1) as nat),
            dt, pr, ra, dx, dy, iters, ny, nx,
        );
    }
}

/// The stationarity law holds outright for the fixed-point scalar, whose
/// zero laws are proved rather than assumed.
pub proof fn lemma_zero_buoyancy_stationarity_fixed(
    m: StateModel<Fixed>,
    dt: Fixed, pr: Fixed, ra: Fixed, dx: Fixed, dy: Fixed,
    iters: nat,
    n: nat,
    ny: int,
    nx: int,
)
    requires
        m.wf(ny, nx),
        2 <= ny,
        2 <= nx,
        ra == Fixed::zero_spec(),
        all_zero(m.vort),
        all_zero(m.stream),
        all_zero(m.u),
        all_zero(m.v),
    ensures
        all_zero(run_spec(m, dt, pr, ra, dx, dy, iters, n).vort),
        all_zero(run_spec(m, dt, pr, ra, dx, dy, iters, n).stream),
        all_zero(run_spec(m, dt, pr, ra, dx, dy, iters, n).u),
        all_zero(run_spec(m, dt, pr, ra, dx, dy, iters, n).v),
{
    lemma_fixed_zero_laws();
    lemma_zero_buoyancy_stationarity(m, dt, pr, ra, dx, dy, iters, n, ny, nx);
}

} // verus!
