use vstd::prelude::*;
use crate::scalar::CfdScalar;
use crate::grid::is_grid;
use crate::grid::zero_grid_spec;

verus! {

/// The five fields of a simulation state, as mathematical sequences of rows.
/// `temp` is temperature, `vort` vorticity, `stream` the stream function,
/// and `u`, `v` the two velocity components; all are indexed `[row][column]`.
#[verifier::ext_equal]
pub struct StateModel<T> {
    pub temp: Seq<Seq<T>>,
    pub vort: Seq<Seq<T>>,
    pub stream: Seq<Seq<T>>,
    pub u: Seq<Seq<T>>,
    pub v: Seq<Seq<T>>,
}

impl<T> StateModel<T> {
    /// All five fields are dense `ny` by `nx` rectangles.
    pub open spec fn wf(self, ny: int, nx: int) -> bool {
        &&& is_grid(self.temp, ny, nx)
        &&& is_grid(self.vort, ny, nx)
        &&& is_grid(self.stream, ny, nx)
        &&& is_grid(self.u, ny, nx)
        &&& is_grid(self.v, ny, nx)
    }
}

/// Whether `(i, j)` lies strictly inside a `ny` by `nx` grid.
pub open spec fn interior(ny: int, nx: int, i: int, j: int) -> bool {
    1 <= i < ny - 1 && 1 <= j < nx - 1
}

/// The cell spacing along one axis with `n` grid points over a unit span:
/// `1 / (n - 1)`.
pub open spec fn spacing_spec<T: CfdScalar>(n: usize) -> T {
    T::div_spec(T::one_spec(), T::sub_spec(T::from_usize_spec(n), T::one_spec()))
}

/// One Jacobi update of the stream function at a cell:
/// `((e + w)·dy² + (n + s)·dx² − vort·dx²·dy²) / (2·(dx² + dy²))`,
/// with every product and quotient taken in the order written here.
pub open spec fn jacobi_cell<T: CfdScalar>(s_e: T, s_w: T, s_n: T, s_s: T, w: T, dx: T, dy: T) -> T {
    let horizontal = T::mul_spec(T::mul_spec(T::add_spec(s_e, s_w), dy), dy);
    let vertical = T::mul_spec(T::mul_spec(T::add_spec(s_n, s_s), dx), dx);
    let source = T::mul_spec(T::mul_spec(T::mul_spec(T::mul_spec(w, dx), dx), dy), dy);
    let denom = T::mul_spec(
        T::from_usize_spec(2),
        T::add_spec(T::mul_spec(dx, dx), T::mul_spec(dy, dy)),
    );
    T::div_spec(T::sub_spec(T::add_spec(horizontal, vertical), source), denom)
}

/// One full Jacobi sweep: every interior cell is recomputed from the
/// previous iterate, and boundary cells keep their old value.
pub open spec fn jacobi_sweep_spec<T: CfdScalar>(
    s: Seq<Seq<T>>,
    w: Seq<Seq<T>>,
    dx: T,
    dy: T,
) -> Seq<Seq<T>> {
    Seq::new(
        s.len(),
        |i: int|
            Seq::new(
                s[i].len(),
                |j: int|
                    if interior(s.len() as int, s[i].len() as int, i, j) {
                        jacobi_cell(s[i][j + 1], s[i][j - 1], s[i + 1][j], s[i - 1][j], w[i][j], dx, dy)
                    } else {
                        s[i][j]
                    },
            ),
    )
}

/// `iters` Jacobi sweeps applied in order, each reading the previous one's
/// full field.
pub open spec fn relax_spec<T: CfdScalar>(
    s: Seq<Seq<T>>,
    w: Seq<Seq<T>>,
    dx: T,
    dy: T,
    iters: nat,
) -> Seq<Seq<T>>
    decreases iters,
{
    if iters == 0 {
        s
    } else {
        jacobi_sweep_spec(relax_spec(s, w, dx, dy, (iters - 1) as nat), w, dx, dy)
    }
}

/// Interior x-velocity from the stream function: `(n − s) / (2·dy)`.
pub open spec fn u_cell<T: CfdScalar>(s_n: T, s_s: T, dy: T) -> T {
    T::div_spec(T::sub_spec(s_n, s_s), T::mul_spec(T::from_usize_spec(2), dy))
}

/// Interior y-velocity from the stream function: `−(e − w) / (2·dx)`.
pub open spec fn v_cell<T: CfdScalar>(s_e: T, s_w: T, dx: T) -> T {
    T::div_spec(T::neg_spec(T::sub_spec(s_e, s_w)), T::mul_spec(T::from_usize_spec(2), dx))
}

/// The x-velocity field rebuilt over the interior; boundary cells keep
/// their old value.
pub open spec fn u_field_spec<T: CfdScalar>(u: Seq<Seq<T>>, s: Seq<Seq<T>>, dy: T) -> Seq<Seq<T>> {
    Seq::new(
        u.len(),
        |i: int|
            Seq::new(
                u[i].len(),
                |j: int|
                    if interior(u.len() as int, u[i].len() as int, i, j) {
                        u_cell(s[i + 1][j], s[i - 1][j], dy)
                    } else {
                        u[i][j]
                    },
            ),
    )
}

/// The y-velocity field rebuilt over the interior; boundary cells keep
/// their old value.
pub open spec fn v_field_spec<T: CfdScalar>(v: Seq<Seq<T>>, s: Seq<Seq<T>>, dx: T) -> Seq<Seq<T>> {
    Seq::new(
        v.len(),
        |i: int|
            Seq::new(
                v[i].len(),
                |j: int|
                    if interior(v.len() as int, v[i].len() as int, i, j) {
                        v_cell(s[i][j + 1], s[i][j - 1], dx)
                    } else {
                        v[i][j]
                    },
            ),
    )
}

/// Thom's wall formula: `−2·ψ_neighbour / h²`, where `ψ_neighbour` is the
/// stream function one cell into the interior and `h` the spacing across
/// the wall.
pub open spec fn thom_cell<T: CfdScalar>(s_in: T, h: T) -> T {
    T::div_spec(
        T::mul_spec(T::neg_spec(T::from_usize_spec(2)), s_in),
        T::mul_spec(h, h),
    )
}

/// Wall vorticity refreshed on all four walls, corners and interior left
/// untouched.
pub open spec fn thom_field_spec<T: CfdScalar>(
    w: Seq<Seq<T>>,
    s: Seq<Seq<T>>,
    dx: T,
    dy: T,
) -> Seq<Seq<T>> {
    Seq::new(
        w.len(),
        |i: int|
            Seq::new(
                w[i].len(),
                |j: int|
                    {
                        let ny = w.len() as int;
                        let nx = w[i].len() as int;
                        if i == 0 && 1 <= j < nx - 1 {
                            thom_cell(s[1][j], dy)
                        } else if i == ny - 1 && 1 <= j < nx - 1 {
                            thom_cell(s[ny - 2][j], dy)
                        } else if j == 0 && 1 <= i < ny - 1 {
                            thom_cell(s[i][1], dx)
                        } else if j == nx - 1 && 1 <= i < ny - 1 {
                            thom_cell(s[i][nx - 2], dx)
                        } else {
                            w[i][j]
                        }
                    },
            ),
    )
}

/// First-order upwind advection along x: the difference direction follows
/// the sign of the local velocity.
pub open spec fn upwind_x_cell<T: CfdScalar>(vel: T, c: T, c_w: T, c_e: T, dx: T) -> T {
    if T::is_pos_spec(vel) {
        T::div_spec(T::mul_spec(vel, T::sub_spec(c, c_w)), dx)
    } else {
        T::div_spec(T::mul_spec(vel, T::sub_spec(c_e, c)), dx)
    }
}

/// First-order upwind advection along y, symmetric to the x rule.
pub open spec fn upwind_y_cell<T: CfdScalar>(vel: T, c: T, c_s: T, c_n: T, dy: T) -> T {
    if T::is_pos_spec(vel) {
        T::div_spec(T::mul_spec(vel, T::sub_spec(c, c_s)), dy)
    } else {
        T::div_spec(T::mul_spec(vel, T::sub_spec(c_n, c)), dy)
    }
}

/// The five-point central Laplacian: `(e − 2c + w)/dx² + (n − 2c + s)/dy²`.
pub open spec fn laplacian_cell<T: CfdScalar>(c_e: T, c_w: T, c_n: T, c_s: T, c: T, dx: T, dy: T) -> T {
    let two = T::from_usize_spec(2);
    T::add_spec(
        T::div_spec(
            T::add_spec(T::sub_spec(c_e, T::mul_spec(two, c)), c_w),
            T::mul_spec(dx, dx),
        ),
        T::div_spec(
            T::add_spec(T::sub_spec(c_n, T::mul_spec(two, c)), c_s),
            T::mul_spec(dy, dy),
        ),
    )
}

/// The buoyancy source coupling temperature into vorticity:
/// `ra·pr·(t_e − t_w) / (2·dx)`.
pub open spec fn buoyancy_cell<T: CfdScalar>(ra: T, pr: T, t_e: T, t_w: T, dx: T) -> T {
    T::div_spec(
        T::mul_spec(T::mul_spec(ra, pr), T::sub_spec(t_e, t_w)),
        T::mul_spec(T::from_usize_spec(2), dx),
    )
}

/// Forward-Euler update of one interior vorticity cell: diffusion scaled by
/// the Prandtl number, minus both upwind advection terms, plus buoyancy.
pub open spec fn vort_cell_spec<T: CfdScalar>(
    w_e: T, w_w: T, w_n: T, w_s: T, w: T,
    t_e: T, t_w: T,
    uu: T, vv: T,
    dt: T, pr: T, ra: T, dx: T, dy: T,
) -> T {
    let diffusion = T::mul_spec(pr, laplacian_cell(w_e, w_w, w_n, w_s, w, dx, dy));
    let adv_x = upwind_x_cell(uu, w, w_w, w_e, dx);
    let adv_y = upwind_y_cell(vv, w, w_s, w_n, dy);
    let buoyancy = buoyancy_cell(ra, pr, t_e, t_w, dx);
    T::add_spec(
        w,
        T::mul_spec(dt, T::add_spec(T::sub_spec(T::sub_spec(diffusion, adv_x), adv_y), buoyancy)),
    )
}

/// Forward-Euler update of one interior temperature cell: unit-diffusivity
/// diffusion minus both upwind advection terms.
pub open spec fn temp_cell_spec<T: CfdScalar>(
    t_e: T, t_w: T, t_n: T, t_s: T, t: T,
    uu: T, vv: T,
    dt: T, dx: T, dy: T,
) -> T {
    let diffusion = laplacian_cell(t_e, t_w, t_n, t_s, t, dx, dy);
    let adv_x = upwind_x_cell(uu, t, t_w, t_e, dx);
    let adv_y = upwind_y_cell(vv, t, t_s, t_n, dy);
    T::add_spec(t, T::mul_spec(dt, T::sub_spec(T::sub_spec(diffusion, adv_x), adv_y)))
}

/// The vorticity field after one Euler step over the interior; boundary
/// cells keep their (freshly Thom-updated) value.
pub open spec fn vort_step_spec<T: CfdScalar>(
    w: Seq<Seq<T>>,
    t: Seq<Seq<T>>,
    u: Seq<Seq<T>>,
    v: Seq<Seq<T>>,
    dt: T, pr: T, ra: T, dx: T, dy: T,
) -> Seq<Seq<T>> {
    Seq::new(
        w.len(),
        |i: int|
            Seq::new(
                w[i].len(),
                |j: int|
                    if interior(w.len() as int, w[i].len() as int, i, j) {
                        vort_cell_spec(
                            w[i][j + 1], w[i][j - 1], w[i + 1][j], w[i - 1][j], w[i][j],
                            t[i][j + 1], t[i][j - 1],
                            u[i][j], v[i][j],
                            dt, pr, ra, dx, dy,
                        )
                    } else {
                        w[i][j]
                    },
            ),
    )
}

/// The temperature field after one Euler step over the interior; boundary
/// cells keep their value, so the Dirichlet walls stay fixed.
pub open spec fn temp_step_spec<T: CfdScalar>(
    t: Seq<Seq<T>>,
    u: Seq<Seq<T>>,
    v: Seq<Seq<T>>,
    dt: T, dx: T, dy: T,
) -> Seq<Seq<T>> {
    Seq::new(
        t.len(),
        |i: int|
            Seq::new(
                t[i].len(),
                |j: int|
                    if interior(t.len() as int, t[i].len() as int, i, j) {
                        temp_cell_spec(
                            t[i][j + 1], t[i][j - 1], t[i + 1][j], t[i - 1][j], t[i][j],
                            u[i][j], v[i][j],
                            dt, dx, dy,
                        )
                    } else {
                        t[i][j]
                    },
            ),
    )
}

/// One full simulation step: Jacobi relaxation of the stream function,
/// velocity reconstruction, Thom wall vorticity, then the Euler sweep whose
/// two new fields replace vorticity and temperature together.
pub open spec fn step_spec<T: CfdScalar>(
    m: StateModel<T>,
    dt: T, pr: T, ra: T, dx: T, dy: T,
    iters: nat,
) -> StateModel<T> {
    let s1 = relax_spec(m.stream, m.vort, dx, dy, iters);
    let u1 = u_field_spec(m.u, s1, dy);
    let v1 = v_field_spec(m.v, s1, dx);
    let w1 = thom_field_spec(m.vort, s1, dx, dy);
    let w2 = vort_step_spec(w1, m.temp, u1, v1, dt, pr, ra, dx, dy);
    let t2 = temp_step_spec(m.temp, u1, v1, dt, dx, dy);
    StateModel { temp: t2, vort: w2, stream: s1, u: u1, v: v1 }
}

/// `n` simulation steps applied in order.
pub open spec fn run_spec<T: CfdScalar>(
    m: StateModel<T>,
    dt: T, pr: T, ra: T, dx: T, dy: T,
    iters: nat,
    n: nat,
) -> StateModel<T>
    decreases n,
{
    if n == 0 {
        m
    } else {
        step_spec(run_spec(m, dt, pr, ra, dx, dy, iters, (n - 1) as nat), dt, pr, ra, dx, dy, iters)
    }
}

/// A Jacobi sweep keeps the field's shape.
pub proof fn lemma_sweep_shape<T: CfdScalar>(
    s: Seq<Seq<T>>,
    w: Seq<Seq<T>>,
    dx: T,
    dy: T,
    ny: int,
    nx: int,
)
    requires
        is_grid(s, ny, nx),
    ensures
        is_grid(jacobi_sweep_spec(s, w, dx, dy), ny, nx),
{
    assert forall|i: int| 0 <= i < ny implies (#[trigger] jacobi_sweep_spec(s, w, dx, dy)[i]).len()
        == nx by {
        assert(s[i].len() == nx);
    }
}

/// Any number of Jacobi sweeps keeps the field's shape.
pub proof fn lemma_relax_shape<T: CfdScalar>(
    s: Seq<Seq<T>>,
    w: Seq<Seq<T>>,
    dx: T,
    dy: T,
    iters: nat,
    ny: int,
    nx: int,
)
    requires
        is_grid(s, ny, nx),
    ensures
        is_grid(relax_spec(s, w, dx, dy, iters), ny, nx),
    decreases iters,
{
    if iters > 0 {
        lemma_relax_shape(s, w, dx, dy, (iters - 1) as nat, ny, nx);
        lemma_sweep_shape(relax_spec(s, w, dx, dy, (iters - 1) as nat), w, dx, dy, ny, nx);
    }
}

/// The velocity reconstruction keeps the field's shape.
pub proof fn lemma_u_field_shape<T: CfdScalar>(u: Seq<Seq<T>>, s: Seq<Seq<T>>, dy: T, ny: int, nx: int)
    requires
        is_grid(u, ny, nx),
    ensures
        is_grid(u_field_spec(u, s, dy), ny, nx),
{
    assert forall|i: int| 0 <= i < ny implies (#[trigger] u_field_spec(u, s, dy)[i]).len() == nx by {
        assert(u[i].len() == nx);
    }
}

/// The velocity reconstruction keeps the field's shape.
pub proof fn lemma_v_field_shape<T: CfdScalar>(v: Seq<Seq<T>>, s: Seq<Seq<T>>, dx: T, ny: int, nx: int)
    requires
        is_grid(v, ny, nx),
    ensures
        is_grid(v_field_spec(v, s, dx), ny, nx),
{
    assert forall|i: int| 0 <= i < ny implies (#[trigger] v_field_spec(v, s, dx)[i]).len() == nx by {
        assert(v[i].len() == nx);
    }
}

/// The wall-vorticity refresh keeps the field's shape.
pub proof fn lemma_thom_shape<T: CfdScalar>(w: Seq<Seq<T>>, s: Seq<Seq<T>>, dx: T, dy: T, ny: int, nx: int)
    requires
        is_grid(w, ny, nx),
    ensures
        is_grid(thom_field_spec(w, s, dx, dy), ny, nx),
{
    assert forall|i: int| 0 <= i < ny implies (#[trigger] thom_field_spec(w, s, dx, dy)[i]).len()
        == nx by {
        assert(w[i].len() == nx);
    }
}

/// The Euler vorticity update keeps the field's shape.
pub proof fn lemma_vort_step_shape<T: CfdScalar>(
    w: Seq<Seq<T>>,
    t: Seq<Seq<T>>,
    u: Seq<Seq<T>>,
    v: Seq<Seq<T>>,
    dt: T, pr: T, ra: T, dx: T, dy: T,
    ny: int,
    nx: int,
)
    requires
        is_grid(w, ny, nx),
    ensures
        is_grid(vort_step_spec(w, t, u, v, dt, pr, ra, dx, dy), ny, nx),
{
    assert forall|i: int| 0 <= i < ny implies (#[trigger] vort_step_spec(
        w, t, u, v, dt, pr, ra, dx, dy,
    )[i]).len() == nx by {
        assert(w[i].len() == nx);
    }
}

/// The Euler temperature update keeps the field's shape.
pub proof fn lemma_temp_step_shape<T: CfdScalar>(
    t: Seq<Seq<T>>,
    u: Seq<Seq<T>>,
    v: Seq<Seq<T>>,
    dt: T, dx: T, dy: T,
    ny: int,
    nx: int,
)
    requires
        is_grid(t, ny, nx),
    ensures
        is_grid(temp_step_spec(t, u, v, dt, dx, dy), ny, nx),
{
    assert forall|i: int| 0 <= i < ny implies (#[trigger] temp_step_spec(t, u, v, dt, dx, dy)[i]).len()
        == nx by {
        assert(t[i].len() == nx);
    }
}

/// One full step keeps every field's shape: the shape stamped at
/// construction is an invariant of the simulation.
pub proof fn lemma_step_shape<T: CfdScalar>(
    m: StateModel<T>,
    dt: T, pr: T, ra: T, dx: T, dy: T,
    iters: nat,
    ny: int,
    nx: int,
)
    requires
        m.wf(ny, nx),
    ensures
        step_spec(m, dt, pr, ra, dx, dy, iters).wf(ny, nx),
{
    lemma_relax_shape(m.stream, m.vort, dx, dy, iters, ny, nx);
    let s1 = relax_spec(m.stream, m.vort, dx, dy, iters);
    lemma_u_field_shape(m.u, s1, dy, ny, nx);
    lemma_v_field_shape(m.v, s1, dx, ny, nx);
    lemma_thom_shape(m.vort, s1, dx, dy, ny, nx);
    let u1 = u_field_spec(m.u, s1, dy);
    let v1 = v_field_spec(m.v, s1, dx);
    let w1 = thom_field_spec(m.vort, s1, dx, dy);
    lemma_vort_step_shape(w1, m.temp, u1, v1, dt, pr, ra, dx, dy, ny, nx);
    lemma_temp_step_shape(m.temp, u1, v1, dt, dx, dy, ny, nx);
}

/// Any number of steps keeps every field's shape.
pub proof fn lemma_run_shape<T: CfdScalar>(
    m: StateModel<T>,
    dt: T, pr: T, ra: T, dx: T, dy: T,
    iters: nat,
    n: nat,
    ny: int,
    nx: int,
)
    requires
        m.wf(ny, nx),
    ensures
        run_spec(m, dt, pr, ra, dx, dy, iters, n).wf(ny, nx),
    decreases n,
{
    if n > 0 {
        lemma_run_shape(m, dt, pr, ra, dx, dy, iters, (n - 1) as nat, ny, nx);
        lemma_step_shape(
            run_spec(m, dt, pr, ra, dx, dy, iters, (n - 1) as nat),
            dt, pr, ra, dx, dy, iters, ny, nx,
        );
    }
}

/// The boundary temperature stamped at initialization. The four fills are
/// applied in order (bottom row, top row, left column, right column), so
/// the two side columns win at the corners.
pub open spec fn init_temp_cell<T: CfdScalar>(ny: int, nx: int, i: int, j: int) -> T {
    if j == 0 || j == nx - 1 {
        T::one_spec()
    } else if i == ny - 1 {
        T::zero_spec()
    } else if i == 0 {
        T::one_spec()
    } else {
        T::zero_spec()
    }
}

/// The freshly initialized temperature field: hot bottom and sides, cold
/// top, zero in the interior.
pub open spec fn init_temp_spec<T: CfdScalar>(ny: int, nx: int) -> Seq<Seq<T>> {
    Seq::new(ny as nat, |i: int| Seq::new(nx as nat, |j: int| init_temp_cell::<T>(ny, nx, i, j)))
}

/// A freshly constructed state: boundary-stamped temperature, everything
/// else zero.
pub open spec fn init_model_spec<T: CfdScalar>(ny: int, nx: int) -> StateModel<T> {
    StateModel {
        temp: init_temp_spec::<T>(ny, nx),
        vort: zero_grid_spec::<T>(ny, nx),
        stream: zero_grid_spec::<T>(ny, nx),
        u: zero_grid_spec::<T>(ny, nx),
        v: zero_grid_spec::<T>(ny, nx),
    }
}

/// A state whose five fields are all zero, as produced by a bare
/// allocation before any boundary is stamped or any record is loaded.
pub open spec fn zero_model_spec<T: CfdScalar>(ny: int, nx: int) -> StateModel<T> {
    StateModel {
        temp: zero_grid_spec::<T>(ny, nx),
        vort: zero_grid_spec::<T>(ny, nx),
        stream: zero_grid_spec::<T>(ny, nx),
        u: zero_grid_spec::<T>(ny, nx),
        v: zero_grid_spec::<T>(ny, nx),
    }
}

/// The zero state is well-formed.
pub proof fn lemma_zero_model_wf<T: CfdScalar>(ny: int, nx: int)
    requires
        0 <= ny,
        0 <= nx,
    ensures
        zero_model_spec::<T>(ny, nx).wf(ny, nx),
{
    assert forall|i: int| 0 <= i < ny implies (#[trigger] zero_grid_spec::<T>(ny, nx)[i]).len()
        == nx by {}
}

/// The freshly initialized state is well-formed.
pub proof fn lemma_init_model_wf<T: CfdScalar>(ny: int, nx: int)
    requires
        0 <= ny,
        0 <= nx,
    ensures
        init_model_spec::<T>(ny, nx).wf(ny, nx),
{
    lemma_zero_model_wf::<T>(ny, nx);
    assert forall|i: int| 0 <= i < ny implies (#[trigger] init_temp_spec::<T>(ny, nx)[i]).len()
        == nx by {}
}

} // verus!
