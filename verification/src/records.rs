use vstd::prelude::*;
use vstd::arithmetic::div_mod::lemma_fundamental_div_mod;
use vstd::arithmetic::div_mod::lemma_fundamental_div_mod_converse;
use vstd::arithmetic::div_mod::lemma_mod_bound;
use crate::scalar::CfdScalar;
use crate::grid::grid_view;
use crate::grid::is_grid;
use crate::grid::set_cell;
use crate::grid::zero_grid_spec;
use crate::model::StateModel;
use crate::model::zero_model_spec;
use crate::model::lemma_zero_model_wf;
use crate::simulation::SimState;

verus! {

/// One persisted cell: its grid coordinates and the three fields that are
/// stored per cell (temperature and the two velocity components).
#[derive(Clone, Copy)]
pub struct CellRecord<T> {
    /// Column index.
    pub x: usize,
    /// Row index.
    pub y: usize,
    /// Stored temperature.
    pub temperature: T,
    /// Stored x-velocity.
    pub u_velocity: T,
    /// Stored y-velocity.
    pub v_velocity: T,
}

/// One record applied to a state: an in-range record overwrites the three
/// stored fields of its cell, an out-of-range record is silently ignored,
/// and vorticity and the stream function are never touched.
pub open spec fn apply_record<T: CfdScalar>(
    m: StateModel<T>,
    r: CellRecord<T>,
    ny: int,
    nx: int,
) -> StateModel<T> {
    if r.x < nx && r.y < ny {
        StateModel {
            temp: m.temp.update(r.y as int, m.temp[r.y as int].update(r.x as int, r.temperature)),
            vort: m.vort,
            stream: m.stream,
            u: m.u.update(r.y as int, m.u[r.y as int].update(r.x as int, r.u_velocity)),
            v: m.v.update(r.y as int, m.v[r.y as int].update(r.x as int, r.v_velocity)),
        }
    } else {
        m
    }
}

/// The state rebuilt from stored records: zero everywhere, then each
/// record applied in order.
pub open spec fn load_spec<T: CfdScalar>(
    records: Seq<CellRecord<T>>,
    ny: int,
    nx: int,
) -> StateModel<T>
    decreases records.len(),
{
    if records.len() == 0 {
        zero_model_spec::<T>(ny, nx)
    } else {
        apply_record(load_spec(records.drop_last(), ny, nx), records.last(), ny, nx)
    }
}

/// The row-major export of a state's persisted fields: record `k` holds
/// cell `(y, x) = (k / nx, k mod nx)`.
pub open spec fn export_spec<T: CfdScalar>(m: StateModel<T>, ny: int, nx: int) -> Seq<
    CellRecord<T>,
> {
    Seq::new(
        (ny * nx) as nat,
        |k: int|
            CellRecord {
                x: (k % nx) as usize,
                y: (k / nx) as usize,
                temperature: m.temp[k / nx][k % nx],
                u_velocity: m.u[k / nx][k % nx],
                v_velocity: m.v[k / nx][k % nx],
            },
    )
}

/// Populates a fresh `(ny, nx)` state from stored records: each in-range
/// record fills its cell's temperature and velocities, records aimed
/// outside the grid are silently ignored, and vorticity and the stream
/// function, which are not persisted, remain zero.
pub fn load_state<T: CfdScalar>(nx: usize, ny: usize, records: &Vec<CellRecord<T>>) -> (s: SimState<
    T,
>)
    ensures
        s.model() == load_spec(records@, ny as int, nx as int),
        s.wf(ny as int, nx as int),
{
    let mut s = SimState::<T>::new(nx, ny);
    let n: usize = records.len();
    let mut k: usize = 0;
    while k < n
        invariant
            k <= n,
            n == records@.len(),
            s.wf(ny as int, nx as int),
            s.model() == load_spec(records@.take(k as int), ny as int, nx as int),
        decreases n - k,
    {
        let r = records[k];
        if r.x < nx && r.y < ny {
            proof {
                assert(grid_view(s.temp).len() == ny);
                assert(grid_view(s.temp)[r.y as int].len() == nx);
                assert(grid_view(s.u)[r.y as int].len() == nx);
                assert(grid_view(s.v)[r.y as int].len() == nx);
            }
            set_cell(&mut s.temp, r.y, r.x, r.temperature);
            set_cell(&mut s.u, r.y, r.x, r.u_velocity);
            set_cell(&mut s.v, r.y, r.x, r.v_velocity);
        }
        proof {
            assert(records@.take(k as int + 1).drop_last() =~= records@.take(k as int));
            assert(records@.take(k as int + 1).last() == records@[k as int]);
            assert(s.model() =~~= load_spec(records@.take(k as int + 1), ny as int, nx as int));
            assert forall|i: int| 0 <= i < ny implies {
                &&& (#[trigger] grid_view(s.temp)[i]).len() == nx
                &&& grid_view(s.u)[i].len() == nx
                &&& grid_view(s.v)[i].len() == nx
            } by {}
        }
        k = k + 1;
    }
    proof {
        assert(records@.take(n as int) =~= records@);
    }
    s
}

/// Exports a state's persisted fields as one record per cell, row by row,
/// exactly as the result catalog stores them.
pub fn export_records<T: CfdScalar>(state: &SimState<T>, ny: usize, nx: usize) -> (r: Vec<
    CellRecord<T>,
>)
    requires
        state.wf(ny as int, nx as int),
    ensures
        r@ == export_spec(state.model(), ny as int, nx as int),
{
    let ghost target = export_spec(state.model(), ny as int, nx as int);
    let mut out: Vec<CellRecord<T>> = Vec::new();
    let mut i: usize = 0;
    while i < ny
        invariant
            i <= ny,
            state.wf(ny as int, nx as int),
            target == export_spec(state.model(), ny as int, nx as int),
            out@.len() == i * nx,
            forall|k: int| 0 <= k < i * nx ==> #[trigger] out@[k] == target[k],
        decreases ny - i,
    {
        let mut j: usize = 0;
        while j < nx
            invariant
                j <= nx,
                i < ny,
                state.wf(ny as int, nx as int),
                target == export_spec(state.model(), ny as int, nx as int),
                out@.len() == i * nx + j,
                forall|k: int| 0 <= k < i * nx + j ==> #[trigger] out@[k] == target[k],
            decreases nx - j,
        {
            proof {
                assert(grid_view(state.temp)[i as int].len() == nx);
                assert(grid_view(state.u)[i as int].len() == nx);
                assert(grid_view(state.v)[i as int].len() == nx);
            }
            let rec = CellRecord {
                x: j,
                y: i,
                temperature: state.temp[i][j],
                u_velocity: state.u[i][j],
                v_velocity: state.v[i][j],
            };
            proof {
                let l = i as int * nx as int + j as int;
                assert(l < ny as int * nx as int) by (nonlinear_arith)
                    requires
                        0 <= (i as int),
                        (i as int) < (ny as int),
                        0 <= (j as int),
                        (j as int) < (nx as int),
                        l == (i as int) * (nx as int) + (j as int),
                ;
                lemma_fundamental_div_mod_converse(l, nx as int, i as int, j as int);
                assert(grid_view(state.temp)[i as int] == state.temp@[i as int]@);
                assert(grid_view(state.u)[i as int] == state.u@[i as int]@);
                assert(grid_view(state.v)[i as int] == state.v@[i as int]@);
                assert(rec == target[l]);
            }
            out.push(rec);
            j = j + 1;
        }
        proof {
            assert((i + 1) as int * nx as int == i as int * nx as int + nx as int)
                by (nonlinear_arith);
        }
        i = i + 1;
    }
    proof {
        assert(out@ =~= target);
    }
    out
}

/// After loading the first `t` exported records, the cells whose row-major
/// index is below `t` carry the exported values and all others are still
/// zero; vorticity and the stream function are zero throughout.
proof fn lemma_load_export_prefix<T: CfdScalar>(m: StateModel<T>, ny: int, nx: int, t: int)
    requires
        m.wf(ny, nx),
        0 < nx,
        nx <= usize::MAX,
        0 <= ny,
        ny <= usize::MAX,
        0 <= t <= ny * nx,
    ensures
        ({
            let loaded = load_spec(export_spec(m, ny, nx).take(t), ny, nx);
            &&& loaded.vort == zero_grid_spec::<T>(ny, nx)
            &&& loaded.stream == zero_grid_spec::<T>(ny, nx)
            &&& is_grid(loaded.temp, ny, nx)
            &&& is_grid(loaded.u, ny, nx)
            &&& is_grid(loaded.v, ny, nx)
            &&& forall|i: int, j: int|
                0 <= i < ny && 0 <= j < nx ==> #[trigger] loaded.temp[i][j] == if i * nx + j < t {
                    m.temp[i][j]
                } else {
                    T::zero_spec()
                }
            &&& forall|i: int, j: int|
                0 <= i < ny && 0 <= j < nx ==> #[trigger] loaded.u[i][j] == if i * nx + j < t {
                    m.u[i][j]
                } else {
                    T::zero_spec()
                }
            &&& forall|i: int, j: int|
                0 <= i < ny && 0 <= j < nx ==> #[trigger] loaded.v[i][j] == if i * nx + j < t {
                    m.v[i][j]
                } else {
                    T::zero_spec()
                }
        }),
    decreases t,
{
    let e = export_spec(m, ny, nx);
    if t == 0 {
        assert(e.take(0) =~= Seq::<CellRecord<T>>::empty());
        lemma_zero_model_wf::<T>(ny, nx);
    } else {
        lemma_load_export_prefix(m, ny, nx, t - 1);
        let prev = load_spec(e.take(t - 1), ny, nx);
        assert(e.take(t).drop_last() =~= e.take(t - 1));
        assert(e.take(t).last() == e[t - 1]);
        let rec = e[t - 1];
        lemma_fundamental_div_mod(t - 1, nx);
        lemma_mod_bound(t - 1, nx);
        let y = (t - 1) / nx;
        let x = (t - 1) % nx;
        assert(0 <= y && y < ny) by (nonlinear_arith)
            requires
                nx * y + x == t - 1,
                0 <= t - 1,
                t - 1 < ny * nx,
                0 <= x < nx,
                0 < nx,
        ;
        assert(rec.x as int == x);
        assert(rec.y as int == y);
        let loaded = load_spec(e.take(t), ny, nx);
        assert(loaded == apply_record(prev, rec, ny, nx));
        assert forall|i: int, j: int| 0 <= i < ny && 0 <= j < nx implies #[trigger] loaded.temp[i][j]
            == if i * nx + j < t {
            m.temp[i][j]
        } else {
            T::zero_spec()
        } by {
            if i == y && j == x {
                assert(i * nx + j == t - 1) by (nonlinear_arith)
                    requires
                        i == y,
                        j == x,
                        nx * y + x == t - 1,
                ;
                assert(loaded.temp[i][j] == m.temp[y][x]);
            } else {
                lemma_fundamental_div_mod_converse(i * nx + j, nx, i, j);
                assert(i * nx + j != t - 1);
                assert(loaded.temp[i][j] == prev.temp[i][j]);
                assert(prev.temp[i][j] == if i * nx + j < t - 1 {
                    m.temp[i][j]
                } else {
                    T::zero_spec()
                });
            }
        }
        assert forall|i: int, j: int| 0 <= i < ny && 0 <= j < nx implies #[trigger] loaded.u[i][j]
            == if i * nx + j < t {
            m.u[i][j]
        } else {
            T::zero_spec()
        } by {
            if i == y && j == x {
                assert(i * nx + j == t - 1) by (nonlinear_arith)
                    requires
                        i == y,
                        j == x,
                        nx * y + x == t - 1,
                ;
                assert(loaded.u[i][j] == m.u[y][x]);
            } else {
                lemma_fundamental_div_mod_converse(i * nx + j, nx, i, j);
                assert(i * nx + j != t - 1);
                assert(loaded.u[i][j] == prev.u[i][j]);
                assert(prev.u[i][j] == if i * nx + j < t - 1 {
                    m.u[i][j]
                } else {
                    T::zero_spec()
                });
            }
        }
        assert forall|i: int, j: int| 0 <= i < ny && 0 <= j < nx implies #[trigger] loaded.v[i][j]
            == if i * nx + j < t {
            m.v[i][j]
        } else {
            T::zero_spec()
        } by {
            if i == y && j == x {
                assert(i * nx + j == t - 1) by (nonlinear_arith)
                    requires
                        i == y,
                        j == x,
                        nx * y + x == t - 1,
                ;
                assert(loaded.v[i][j] == m.v[y][x]);
            } else {
                lemma_fundamental_div_mod_converse(i * nx + j, nx, i, j);
                assert(i * nx + j != t - 1);
                assert(loaded.v[i][j] == prev.v[i][j]);
                assert(prev.v[i][j] == if i * nx + j < t - 1 {
                    m.v[i][j]
                } else {
                    T::zero_spec()
                });
            }
        }
    }
}

/// Round trip through persistence: exporting a state and loading the
/// records back reproduces temperature and both velocities exactly at
/// every cell, while vorticity and the stream function, which are not
/// persisted, come back zero.
pub proof fn lemma_load_roundtrip<T: CfdScalar>(m: StateModel<T>, ny: int, nx: int)
    requires
        m.wf(ny, nx),
        0 <= ny,
        ny <= usize::MAX,
        0 <= nx,
        nx <= usize::MAX,
    ensures
        ({
            let loaded = load_spec(export_spec(m, ny, nx), ny, nx);
            &&& loaded.temp == m.temp
            &&& loaded.u == m.u
            &&& loaded.v == m.v
            &&& loaded.vort == zero_grid_spec::<T>(ny, nx)
            &&& loaded.stream == zero_grid_spec::<T>(ny, nx)
        }),
{
    let e = export_spec(m, ny, nx);
    if nx == 0 || ny == 0 {
        assert(ny * nx == 0) by (nonlinear_arith)
            requires
                nx == 0 || ny == 0,
        ;
        assert(e.len() == 0);
        let loaded = load_spec(e, ny, nx);
        assert(loaded == zero_model_spec::<T>(ny, nx));
        assert(loaded.temp =~~= m.temp);
        assert(loaded.u =~~= m.u);
        assert(loaded.v =~~= m.v);
    } else {
        lemma_load_export_prefix(m, ny, nx, ny * nx);
        assert(e.take(ny * nx) =~= e);
        let loaded = load_spec(e, ny, nx);
        assert forall|i: int, j: int| 0 <= i < ny && 0 <= j < nx implies #[trigger] loaded.temp[i][j]
            == m.temp[i][j] by {
            assert(i * nx + j < ny * nx) by (nonlinear_arith)
                requires
                    0 <= i < ny,
                    0 <= j < nx,
            ;
        }
        assert forall|i: int, j: int| 0 <= i < ny && 0 <= j < nx implies #[trigger] loaded.u[i][j]
            == m.u[i][j] by {
            assert(i * nx + j < ny * nx) by (nonlinear_arith)
                requires
                    0 <= i < ny,
                    0 <= j < nx,
            ;
        }
        assert forall|i: int, j: int| 0 <= i < ny && 0 <= j < nx implies #[trigger] loaded.v[i][j]
            == m.v[i][j] by {
            assert(i * nx + j < ny * nx) by (nonlinear_arith)
                requires
                    0 <= i < ny,
                    0 <= j < nx,
            ;
        }
        assert(loaded.temp =~~= m.temp);
        assert(loaded.u =~~= m.u);
        assert(loaded.v =~~= m.v);
    }
}

} // verus!
