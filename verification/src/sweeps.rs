use vstd::prelude::*;
use crate::scalar::CfdScalar;
use crate::grid::grid_view;
use crate::grid::is_grid;
use crate::grid::copy_row;
use crate::grid::copy_grid;
use crate::model::jacobi_cell;
use crate::model::jacobi_sweep_spec;
use crate::model::relax_spec;
use crate::model::u_cell;
use crate::model::v_cell;
use crate::model::thom_cell;
use crate::model::vort_cell_spec;
use crate::model::temp_cell_spec;
use crate::model::u_field_spec;
use crate::model::v_field_spec;
use crate::model::thom_field_spec;
use crate::model::vort_step_spec;
use crate::model::temp_step_spec;
use crate::model::lemma_sweep_shape;

verus! {

fn jacobi_cell_exec<T: CfdScalar>(s_e: T, s_w: T, s_n: T, s_s: T, w: T, dx: T, dy: T) -> (r: T)
    ensures
        r == jacobi_cell(s_e, s_w, s_n, s_s, w, dx, dy),
{
    let horizontal = T::mul(T::mul(T::add(s_e, s_w), dy), dy);
    let vertical = T::mul(T::mul(T::add(s_n, s_s), dx), dx);
    let source = T::mul(T::mul(T::mul(T::mul(w, dx), dx), dy), dy);
    let denom = T::mul(T::from_usize(2), T::add(T::mul(dx, dx), T::mul(dy, dy)));
    T::div(T::sub(T::add(horizontal, vertical), source), denom)
}

/// One Jacobi sweep of the stream-function Poisson solve: the returned
/// field holds the update formula at every interior cell, computed entirely
/// from the previous iterate `s`, and `s`'s own values on the boundary.
pub fn jacobi_sweep<T: CfdScalar>(
    ny: usize,
    nx: usize,
    s: &Vec<Vec<T>>,
    w: &Vec<Vec<T>>,
    dx: T,
    dy: T,
) -> (r: Vec<Vec<T>>)
    requires
        2 <= ny,
        2 <= nx,
        is_grid(grid_view(*s), ny as int, nx as int),
        is_grid(grid_view(*w), ny as int, nx as int),
    ensures
        grid_view(r) == jacobi_sweep_spec(grid_view(*s), grid_view(*w), dx, dy),
{
    let ghost target = jacobi_sweep_spec(grid_view(*s), grid_view(*w), dx, dy);
    proof {
        assert(s@.len() == ny);
        assert(w@.len() == ny);
        assert forall|k: int| 0 <= k < ny implies (#[trigger] s@[k])@.len() == nx by {
            assert(grid_view(*s)[k] == s@[k]@);
        }
        assert forall|k: int| 0 <= k < ny implies (#[trigger] w@[k])@.len() == nx by {
            assert(grid_view(*w)[k] == w@[k]@);
        }
    }
    let mut out: Vec<Vec<T>> = Vec::new();
    out.push(copy_row(&s[0]));
    proof {
        assert(out@[0]@ =~= target[0]);
    }
    let mut i: usize = 1;
    while i < ny - 1
        invariant
            1 <= i <= ny - 1,
            2 <= ny,
            2 <= nx,
            is_grid(grid_view(*s), ny as int, nx as int),
            is_grid(grid_view(*w), ny as int, nx as int),
            s@.len() == ny,
            w@.len() == ny,
            forall|k: int| 0 <= k < ny ==> (#[trigger] s@[k])@.len() == nx,
            forall|k: int| 0 <= k < ny ==> (#[trigger] w@[k])@.len() == nx,
            target == jacobi_sweep_spec(grid_view(*s), grid_view(*w), dx, dy),
            out@.len() == i,
            forall|k: int| 0 <= k < i ==> (#[trigger] out@[k])@ == target[k],
        decreases ny - 1 - i,
    {
        let mut row: Vec<T> = Vec::new();
        row.push(s[i][0]);
        let mut j: usize = 1;
        while j < nx - 1
            invariant
                1 <= j <= nx - 1,
                2 <= nx,
                1 <= i < ny - 1,
                s@.len() == ny,
                w@.len() == ny,
                forall|k: int| 0 <= k < ny ==> (#[trigger] s@[k])@.len() == nx,
                forall|k: int| 0 <= k < ny ==> (#[trigger] w@[k])@.len() == nx,
                row@.len() == j,
                row@[0] == s@[i as int]@[0],
                forall|k: int| 1 <= k < j ==> #[trigger] row@[k] == jacobi_cell(
                    s@[i as int]@[k + 1],
                    s@[i as int]@[k - 1],
                    s@[i as int + 1]@[k],
                    s@[i as int - 1]@[k],
                    w@[i as int]@[k],
                    dx,
                    dy,
                ),
            decreases nx - 1 - j,
        {
            let c = jacobi_cell_exec(
                s[i][j + 1],
                s[i][j - 1],
                s[i + 1][j],
                s[i - 1][j],
                w[i][j],
                dx,
                dy,
            );
            row.push(c);
            j = j + 1;
        }
        row.push(s[i][nx - 1]);
        proof {
            assert(grid_view(*s)[i as int] == s@[i as int]@);
            assert(grid_view(*s)[i as int - 1] == s@[i as int - 1]@);
            assert(grid_view(*s)[i as int + 1] == s@[i as int + 1]@);
            assert(grid_view(*w)[i as int] == w@[i as int]@);
            assert(row@ =~= target[i as int]);
        }
        out.push(row);
        i = i + 1;
    }
    out.push(copy_row(&s[ny - 1]));
    proof {
        assert(grid_view(*s)[ny - 1] == s@[ny - 1]@);
        assert(out@[ny - 1]@ =~= target[ny - 1]);
        assert(grid_view(out) =~~= target);
    }
    out
}

/// The full elliptic relaxation: `iters` Jacobi sweeps, each reading the
/// previous sweep's complete field.
pub fn relax<T: CfdScalar>(
    ny: usize,
    nx: usize,
    s: &Vec<Vec<T>>,
    w: &Vec<Vec<T>>,
    dx: T,
    dy: T,
    iters: usize,
) -> (r: Vec<Vec<T>>)
    requires
        2 <= ny,
        2 <= nx,
        is_grid(grid_view(*s), ny as int, nx as int),
        is_grid(grid_view(*w), ny as int, nx as int),
    ensures
        grid_view(r) == relax_spec(grid_view(*s), grid_view(*w), dx, dy, iters as nat),
{
    let mut cur = copy_grid(s);
    let mut k: usize = 0;
    while k < iters
        invariant
            k <= iters,
            2 <= ny,
            2 <= nx,
            is_grid(grid_view(*s), ny as int, nx as int),
            is_grid(grid_view(*w), ny as int, nx as int),
            grid_view(cur) == relax_spec(grid_view(*s), grid_view(*w), dx, dy, k as nat),
            is_grid(grid_view(cur), ny as int, nx as int),
        decreases iters - k,
    {
        cur = jacobi_sweep(ny, nx, &cur, w, dx, dy);
        k = k + 1;
        proof {
            lemma_sweep_shape(
                relax_spec(grid_view(*s), grid_view(*w), dx, dy, (k - 1) as nat),
                grid_view(*w),
                dx,
                dy,
                ny as int,
                nx as int,
            );
        }
    }
    cur
}

fn u_cell_exec<T: CfdScalar>(s_n: T, s_s: T, dy: T) -> (r: T)
    ensures
        r == u_cell(s_n, s_s, dy),
{
    T::div(T::sub(s_n, s_s), T::mul(T::from_usize(2), dy))
}

fn v_cell_exec<T: CfdScalar>(s_e: T, s_w: T, dx: T) -> (r: T)
    ensures
        r == v_cell(s_e, s_w, dx),
{
    T::div(T::neg(T::sub(s_e, s_w)), T::mul(T::from_usize(2), dx))
}

/// Rebuilds the x-velocity over the interior from the stream function's
/// central difference in y, keeping `u`'s boundary values.
pub fn u_field<T: CfdScalar>(
    ny: usize,
    nx: usize,
    u: &Vec<Vec<T>>,
    s: &Vec<Vec<T>>,
    dy: T,
) -> (r: Vec<Vec<T>>)
    requires
        2 <= ny,
        2 <= nx,
        is_grid(grid_view(*u), ny as int, nx as int),
        is_grid(grid_view(*s), ny as int, nx as int),
    ensures
        grid_view(r) == u_field_spec(grid_view(*u), grid_view(*s), dy),
{
    let ghost target = u_field_spec(grid_view(*u), grid_view(*s), dy);
    proof {
        assert(s@.len() == ny);
        assert(u@.len() == ny);
        assert forall|k: int| 0 <= k < ny implies (#[trigger] s@[k])@.len() == nx by {
            assert(grid_view(*s)[k] == s@[k]@);
        }
        assert forall|k: int| 0 <= k < ny implies (#[trigger] u@[k])@.len() == nx by {
            assert(grid_view(*u)[k] == u@[k]@);
        }
    }
    let mut out: Vec<Vec<T>> = Vec::new();
    out.push(copy_row(&u[0]));
    proof {
        assert(out@[0]@ =~= target[0]);
    }
    let mut i: usize = 1;
    while i < ny - 1
        invariant
            1 <= i <= ny - 1,
            2 <= ny,
            2 <= nx,
            s@.len() == ny,
            u@.len() == ny,
            forall|k: int| 0 <= k < ny ==> (#[trigger] s@[k])@.len() == nx,
            forall|k: int| 0 <= k < ny ==> (#[trigger] u@[k])@.len() == nx,
            target == u_field_spec(grid_view(*u), grid_view(*s), dy),
            is_grid(grid_view(*u), ny as int, nx as int),
            is_grid(grid_view(*s), ny as int, nx as int),
            out@.len() == i,
            forall|k: int| 0 <= k < i ==> (#[trigger] out@[k])@ == target[k],
        decreases ny - 1 - i,
    {
        let mut row: Vec<T> = Vec::new();
        row.push(u[i][0]);
        let mut j: usize = 1;
        while j < nx - 1
            invariant
                1 <= j <= nx - 1,
                2 <= nx,
                1 <= i < ny - 1,
                s@.len() == ny,
                u@.len() == ny,
                forall|k: int| 0 <= k < ny ==> (#[trigger] s@[k])@.len() == nx,
                forall|k: int| 0 <= k < ny ==> (#[trigger] u@[k])@.len() == nx,
                row@.len() == j,
                row@[0] == u@[i as int]@[0],
                forall|k: int| 1 <= k < j ==> #[trigger] row@[k] == u_cell(
                    s@[i as int + 1]@[k],
                    s@[i as int - 1]@[k],
                    dy,
                ),
            decreases nx - 1 - j,
        {
            let c = u_cell_exec(s[i + 1][j], s[i - 1][j], dy);
            row.push(c);
            j = j + 1;
        }
        row.push(u[i][nx - 1]);
        proof {
            assert(grid_view(*u)[i as int] == u@[i as int]@);
            assert(grid_view(*s)[i as int - 1] == s@[i as int - 1]@);
            assert(grid_view(*s)[i as int + 1] == s@[i as int + 1]@);
            assert(row@ =~= target[i as int]);
        }
        out.push(row);
        i = i + 1;
    }
    out.push(copy_row(&u[ny - 1]));
    proof {
        assert(grid_view(*u)[ny - 1] == u@[ny - 1]@);
        assert(out@[ny - 1]@ =~= target[ny - 1]);
        assert(grid_view(out) =~~= target);
    }
    out
}

/// Rebuilds the y-velocity over the interior from the stream function's
/// negated central difference in x, keeping `v`'s boundary values.
pub fn v_field<T: CfdScalar>(
    ny: usize,
    nx: usize,
    v: &Vec<Vec<T>>,
    s: &Vec<Vec<T>>,
    dx: T,
) -> (r: Vec<Vec<T>>)
    requires
        2 <= ny,
        2 <= nx,
        is_grid(grid_view(*v), ny as int, nx as int),
        is_grid(grid_view(*s), ny as int, nx as int),
    ensures
        grid_view(r) == v_field_spec(grid_view(*v), grid_view(*s), dx),
{
    let ghost target = v_field_spec(grid_view(*v), grid_view(*s), dx);
    proof {
        assert(s@.len() == ny);
        assert(v@.len() == ny);
        assert forall|k: int| 0 <= k < ny implies (#[trigger] s@[k])@.len() == nx by {
            assert(grid_view(*s)[k] == s@[k]@);
        }
        assert forall|k: int| 0 <= k < ny implies (#[trigger] v@[k])@.len() == nx by {
            assert(grid_view(*v)[k] == v@[k]@);
        }
    }
    let mut out: Vec<Vec<T>> = Vec::new();
    out.push(copy_row(&v[0]));
    proof {
        assert(out@[0]@ =~= target[0]);
    }
    let mut i: usize = 1;
    while i < ny - 1
        invariant
            1 <= i <= ny - 1,
            2 <= ny,
            2 <= nx,
            s@.len() == ny,
            v@.len() == ny,
            forall|k: int| 0 <= k < ny ==> (#[trigger] s@[k])@.len() == nx,
            forall|k: int| 0 <= k < ny ==> (#[trigger] v@[k])@.len() == nx,
            target == v_field_spec(grid_view(*v), grid_view(*s), dx),
            is_grid(grid_view(*v), ny as int, nx as int),
            is_grid(grid_view(*s), ny as int, nx as int),
            out@.len() == i,
            forall|k: int| 0 <= k < i ==> (#[trigger] out@[k])@ == target[k],
        decreases ny - 1 - i,
    {
        let mut row: Vec<T> = Vec::new();
        row.push(v[i][0]);
        let mut j: usize = 1;
        while j < nx - 1
            invariant
                1 <= j <= nx - 1,
                2 <= nx,
                1 <= i < ny - 1,
                s@.len() == ny,
                v@.len() == ny,
                forall|k: int| 0 <= k < ny ==> (#[trigger] s@[k])@.len() == nx,
                forall|k: int| 0 <= k < ny ==> (#[trigger] v@[k])@.len() == nx,
                row@.len() == j,
                row@[0] == v@[i as int]@[0],
                forall|k: int| 1 <= k < j ==> #[trigger] row@[k] == v_cell(
                    s@[i as int]@[k + 1],
                    s@[i as int]@[k - 1],
                    dx,
                ),
            decreases nx - 1 - j,
        {
            let c = v_cell_exec(s[i][j + 1], s[i][j - 1], dx);
            row.push(c);
            j = j + 1;
        }
        row.push(v[i][nx - 1]);
        proof {
            assert(grid_view(*v)[i as int] == v@[i as int]@);
            assert(grid_view(*s)[i as int] == s@[i as int]@);
            assert(row@ =~= target[i as int]);
        }
        out.push(row);
        i = i + 1;
    }
    out.push(copy_row(&v[ny - 1]));
    proof {
        assert(grid_view(*v)[ny - 1] == v@[ny - 1]@);
        assert(out@[ny - 1]@ =~= target[ny - 1]);
        assert(grid_view(out) =~~= target);
    }
    out
}

fn thom_cell_exec<T: CfdScalar>(s_in: T, h: T) -> (r: T)
    ensures
        r == thom_cell(s_in, h),
{
    T::div(T::mul(T::neg(T::from_usize(2)), s_in), T::mul(h, h))
}

/// Refreshes wall vorticity with Thom's formula on all four walls; the four
/// corner cells and the interior keep their old values.
pub fn thom_field<T: CfdScalar>(
    ny: usize,
    nx: usize,
    w: &Vec<Vec<T>>,
    s: &Vec<Vec<T>>,
    dx: T,
    dy: T,
) -> (r: Vec<Vec<T>>)
    requires
        2 <= ny,
        2 <= nx,
        is_grid(grid_view(*w), ny as int, nx as int),
        is_grid(grid_view(*s), ny as int, nx as int),
    ensures
        grid_view(r) == thom_field_spec(grid_view(*w), grid_view(*s), dx, dy),
{
    let ghost target = thom_field_spec(grid_view(*w), grid_view(*s), dx, dy);
    proof {
        assert(s@.len() == ny);
        assert(w@.len() == ny);
        assert forall|k: int| 0 <= k < ny implies (#[trigger] s@[k])@.len() == nx by {
            assert(grid_view(*s)[k] == s@[k]@);
        }
        assert forall|k: int| 0 <= k < ny implies (#[trigger] w@[k])@.len() == nx by {
            assert(grid_view(*w)[k] == w@[k]@);
        }
    }
    let mut out: Vec<Vec<T>> = Vec::new();
    let mut bottom: Vec<T> = Vec::new();
    bottom.push(w[0][0]);
    let mut j: usize = 1;
    while j < nx - 1
        invariant
            1 <= j <= nx - 1,
            2 <= nx,
            2 <= ny,
            s@.len() == ny,
            w@.len() == ny,
            forall|k: int| 0 <= k < ny ==> (#[trigger] s@[k])@.len() == nx,
            forall|k: int| 0 <= k < ny ==> (#[trigger] w@[k])@.len() == nx,
            bottom@.len() == j,
            bottom@[0] == w@[0]@[0],
            forall|k: int| 1 <= k < j ==> #[trigger] bottom@[k] == thom_cell(s@[1]@[k], dy),
        decreases nx - 1 - j,
    {
        let c = thom_cell_exec(s[1][j], dy);
        bottom.push(c);
        j = j + 1;
    }
    bottom.push(w[0][nx - 1]);
    proof {
        assert(grid_view(*w)[0] == w@[0]@);
        assert(grid_view(*s)[1] == s@[1]@);
        assert(bottom@ =~= target[0]);
    }
    out.push(bottom);
    let mut i: usize = 1;
    while i < ny - 1
        invariant
            1 <= i <= ny - 1,
            2 <= ny,
            2 <= nx,
            s@.len() == ny,
            w@.len() == ny,
            forall|k: int| 0 <= k < ny ==> (#[trigger] s@[k])@.len() == nx,
            forall|k: int| 0 <= k < ny ==> (#[trigger] w@[k])@.len() == nx,
            target == thom_field_spec(grid_view(*w), grid_view(*s), dx, dy),
            is_grid(grid_view(*w), ny as int, nx as int),
            is_grid(grid_view(*s), ny as int, nx as int),
            out@.len() == i,
            forall|k: int| 0 <= k < i ==> (#[trigger] out@[k])@ == target[k],
        decreases ny - 1 - i,
    {
        let mut row: Vec<T> = Vec::new();
        let left = thom_cell_exec(s[i][1], dx);
        row.push(left);
        let mut j2: usize = 1;
        while j2 < nx - 1
            invariant
                1 <= j2 <= nx - 1,
                2 <= nx,
                1 <= i < ny - 1,
                s@.len() == ny,
                w@.len() == ny,
                forall|k: int| 0 <= k < ny ==> (#[trigger] s@[k])@.len() == nx,
                forall|k: int| 0 <= k < ny ==> (#[trigger] w@[k])@.len() == nx,
                row@.len() == j2,
                row@[0] == thom_cell(s@[i as int]@[1], dx),
                forall|k: int| 1 <= k < j2 ==> #[trigger] row@[k] == w@[i as int]@[k],
            decreases nx - 1 - j2,
        {
            row.push(w[i][j2]);
            j2 = j2 + 1;
        }
        let right = thom_cell_exec(s[i][nx - 2], dx);
        row.push(right);
        proof {
            assert(grid_view(*w)[i as int] == w@[i as int]@);
            assert(grid_view(*s)[i as int] == s@[i as int]@);
            assert(row@ =~= target[i as int]);
        }
        out.push(row);
        i = i + 1;
    }
    let mut top: Vec<T> = Vec::new();
    top.push(w[ny - 1][0]);
    let mut j3: usize = 1;
    while j3 < nx - 1
        invariant
            1 <= j3 <= nx - 1,
            2 <= nx,
            2 <= ny,
            s@.len() == ny,
            w@.len() == ny,
            forall|k: int| 0 <= k < ny ==> (#[trigger] s@[k])@.len() == nx,
            forall|k: int| 0 <= k < ny ==> (#[trigger] w@[k])@.len() == nx,
            top@.len() == j3,
            top@[0] == w@[ny - 1]@[0],
            forall|k: int| 1 <= k < j3 ==> #[trigger] top@[k] == thom_cell(s@[ny - 2]@[k], dy),
        decreases nx - 1 - j3,
    {
        let c = thom_cell_exec(s[ny - 2][j3], dy);
        top.push(c);
        j3 = j3 + 1;
    }
    top.push(w[ny - 1][nx - 1]);
    proof {
        assert(grid_view(*w)[ny - 1] == w@[ny - 1]@);
        assert(grid_view(*s)[ny - 2] == s@[ny - 2]@);
        assert(top@ =~= target[ny - 1]);
    }
    out.push(top);
    proof {
        assert(grid_view(out) =~~= target);
    }
    out
}

fn vort_cell_exec<T: CfdScalar>(
    w_e: T, w_w: T, w_n: T, w_s: T, w: T,
    t_e: T, t_w: T,
    uu: T, vv: T,
    dt: T, pr: T, ra: T, dx: T, dy: T,
) -> (r: T)
    ensures
        r == vort_cell_spec(w_e, w_w, w_n, w_s, w, t_e, t_w, uu, vv, dt, pr, ra, dx, dy),
{
    let two = T::from_usize(2);
    let diffusion = T::mul(
        pr,
        T::add(
            T::div(T::add(T::sub(w_e, T::mul(two, w)), w_w), T::mul(dx, dx)),
            T::div(T::add(T::sub(w_n, T::mul(two, w)), w_s), T::mul(dy, dy)),
        ),
    );
    let adv_x = if T::is_pos(uu) {
        T::div(T::mul(uu, T::sub(w, w_w)), dx)
    } else {
        T::div(T::mul(uu, T::sub(w_e, w)), dx)
    };
    let adv_y = if T::is_pos(vv) {
        T::div(T::mul(vv, T::sub(w, w_s)), dy)
    } else {
        T::div(T::mul(vv, T::sub(w_n, w)), dy)
    };
    let buoyancy = T::div(T::mul(T::mul(ra, pr), T::sub(t_e, t_w)), T::mul(two, dx));
    T::add(w, T::mul(dt, T::add(T::sub(T::sub(diffusion, adv_x), adv_y), buoyancy)))
}

fn temp_cell_exec<T: CfdScalar>(
    t_e: T, t_w: T, t_n: T, t_s: T, t: T,
    uu: T, vv: T,
    dt: T, dx: T, dy: T,
) -> (r: T)
    ensures
        r == temp_cell_spec(t_e, t_w, t_n, t_s, t, uu, vv, dt, dx, dy),
{
    let two = T::from_usize(2);
    let diffusion = T::add(
        T::div(T::add(T::sub(t_e, T::mul(two, t)), t_w), T::mul(dx, dx)),
        T::div(T::add(T::sub(t_n, T::mul(two, t)), t_s), T::mul(dy, dy)),
    );
    let adv_x = if T::is_pos(uu) {
        T::div(T::mul(uu, T::sub(t, t_w)), dx)
    } else {
        T::div(T::mul(uu, T::sub(t_e, t)), dx)
    };
    let adv_y = if T::is_pos(vv) {
        T::div(T::mul(vv, T::sub(t, t_s)), dy)
    } else {
        T::div(T::mul(vv, T::sub(t_n, t)), dy)
    };
    T::add(t, T::mul(dt, T::sub(T::sub(diffusion, adv_x), adv_y)))
}

/// The forward-Euler vorticity update over the interior, reading only
/// pre-step fields; boundary cells keep their value.
pub fn vort_step<T: CfdScalar>(
    ny: usize,
    nx: usize,
    w: &Vec<Vec<T>>,
    t: &Vec<Vec<T>>,
    u: &Vec<Vec<T>>,
    v: &Vec<Vec<T>>,
    dt: T, pr: T, ra: T, dx: T, dy: T,
) -> (r: Vec<Vec<T>>)
    requires
        2 <= ny,
        2 <= nx,
        is_grid(grid_view(*w), ny as int, nx as int),
        is_grid(grid_view(*t), ny as int, nx as int),
        is_grid(grid_view(*u), ny as int, nx as int),
        is_grid(grid_view(*v), ny as int, nx as int),
    ensures
        grid_view(r) == vort_step_spec(
            grid_view(*w), grid_view(*t), grid_view(*u), grid_view(*v), dt, pr, ra, dx, dy,
        ),
{
    let ghost target = vort_step_spec(
        grid_view(*w), grid_view(*t), grid_view(*u), grid_view(*v), dt, pr, ra, dx, dy,
    );
    proof {
        assert(w@.len() == ny);
        assert(t@.len() == ny);
        assert(u@.len() == ny);
        assert(v@.len() == ny);
        assert forall|k: int| 0 <= k < ny implies (#[trigger] w@[k])@.len() == nx by {
            assert(grid_view(*w)[k] == w@[k]@);
        }
        assert forall|k: int| 0 <= k < ny implies (#[trigger] t@[k])@.len() == nx by {
            assert(grid_view(*t)[k] == t@[k]@);
        }
        assert forall|k: int| 0 <= k < ny implies (#[trigger] u@[k])@.len() == nx by {
            assert(grid_view(*u)[k] == u@[k]@);
        }
        assert forall|k: int| 0 <= k < ny implies (#[trigger] v@[k])@.len() == nx by {
            assert(grid_view(*v)[k] == v@[k]@);
        }
    }
    let mut out: Vec<Vec<T>> = Vec::new();
    out.push(copy_row(&w[0]));
    proof {
        assert(out@[0]@ =~= target[0]);
    }
    let mut i: usize = 1;
    while i < ny - 1
        invariant
            1 <= i <= ny - 1,
            2 <= ny,
            2 <= nx,
            w@.len() == ny,
            t@.len() == ny,
            u@.len() == ny,
            v@.len() == ny,
            forall|k: int| 0 <= k < ny ==> (#[trigger] w@[k])@.len() == nx,
            forall|k: int| 0 <= k < ny ==> (#[trigger] t@[k])@.len() == nx,
            forall|k: int| 0 <= k < ny ==> (#[trigger] u@[k])@.len() == nx,
            forall|k: int| 0 <= k < ny ==> (#[trigger] v@[k])@.len() == nx,
            target == vort_step_spec(
                grid_view(*w), grid_view(*t), grid_view(*u), grid_view(*v), dt, pr, ra, dx, dy,
            ),
            is_grid(grid_view(*w), ny as int, nx as int),
            out@.len() == i,
            forall|k: int| 0 <= k < i ==> (#[trigger] out@[k])@ == target[k],
        decreases ny - 1 - i,
    {
        let mut row: Vec<T> = Vec::new();
        row.push(w[i][0]);
        let mut j: usize = 1;
        while j < nx - 1
            invariant
                1 <= j <= nx - 1,
                2 <= nx,
                1 <= i < ny - 1,
                w@.len() == ny,
                t@.len() == ny,
                u@.len() == ny,
                v@.len() == ny,
                forall|k: int| 0 <= k < ny ==> (#[trigger] w@[k])@.len() == nx,
                forall|k: int| 0 <= k < ny ==> (#[trigger] t@[k])@.len() == nx,
                forall|k: int| 0 <= k < ny ==> (#[trigger] u@[k])@.len() == nx,
                forall|k: int| 0 <= k < ny ==> (#[trigger] v@[k])@.len() == nx,
                row@.len() == j,
                row@[0] == w@[i as int]@[0],
                forall|k: int| 1 <= k < j ==> #[trigger] row@[k] == vort_cell_spec(
                    w@[i as int]@[k + 1],
                    w@[i as int]@[k - 1],
                    w@[i as int + 1]@[k],
                    w@[i as int - 1]@[k],
                    w@[i as int]@[k],
                    t@[i as int]@[k + 1],
                    t@[i as int]@[k - 1],
                    u@[i as int]@[k],
                    v@[i as int]@[k],
                    dt, pr, ra, dx, dy,
                ),
            decreases nx - 1 - j,
        {
            let c = vort_cell_exec(
                w[i][j + 1], w[i][j - 1], w[i + 1][j], w[i - 1][j], w[i][j],
                t[i][j + 1], t[i][j - 1],
                u[i][j], v[i][j],
                dt, pr, ra, dx, dy,
            );
            row.push(c);
            j = j + 1;
        }
        row.push(w[i][nx - 1]);
        proof {
            assert(grid_view(*w)[i as int] == w@[i as int]@);
            assert(grid_view(*w)[i as int - 1] == w@[i as int - 1]@);
            assert(grid_view(*w)[i as int + 1] == w@[i as int + 1]@);
            assert(grid_view(*t)[i as int] == t@[i as int]@);
            assert(grid_view(*u)[i as int] == u@[i as int]@);
            assert(grid_view(*v)[i as int] == v@[i as int]@);
            assert(row@ =~= target[i as int]);
        }
        out.push(row);
        i = i + 1;
    }
    out.push(copy_row(&w[ny - 1]));
    proof {
        assert(grid_view(*w)[ny - 1] == w@[ny - 1]@);
        assert(out@[ny - 1]@ =~= target[ny - 1]);
        assert(grid_view(out) =~~= target);
    }
    out
}

/// The forward-Euler temperature update over the interior, reading only
/// pre-step fields; boundary cells keep their value, so the Dirichlet walls
/// stay fixed.
pub fn temp_step<T: CfdScalar>(
    ny: usize,
    nx: usize,
    t: &Vec<Vec<T>>,
    u: &Vec<Vec<T>>,
    v: &Vec<Vec<T>>,
    dt: T, dx: T, dy: T,
) -> (r: Vec<Vec<T>>)
    requires
        2 <= ny,
        2 <= nx,
        is_grid(grid_view(*t), ny as int, nx as int),
        is_grid(grid_view(*u), ny as int, nx as int),
        is_grid(grid_view(*v), ny as int, nx as int),
    ensures
        grid_view(r) == temp_step_spec(grid_view(*t), grid_view(*u), grid_view(*v), dt, dx, dy),
{
    let ghost target = temp_step_spec(grid_view(*t), grid_view(*u), grid_view(*v), dt, dx, dy);
    proof {
        assert(t@.len() == ny);
        assert(u@.len() == ny);
        assert(v@.len() == ny);
        assert forall|k: int| 0 <= k < ny implies (#[trigger] t@[k])@.len() == nx by {
            assert(grid_view(*t)[k] == t@[k]@);
        }
        assert forall|k: int| 0 <= k < ny implies (#[trigger] u@[k])@.len() == nx by {
            assert(grid_view(*u)[k] == u@[k]@);
        }
        assert forall|k: int| 0 <= k < ny implies (#[trigger] v@[k])@.len() == nx by {
            assert(grid_view(*v)[k] == v@[k]@);
        }
    }
    let mut out: Vec<Vec<T>> = Vec::new();
    out.push(copy_row(&t[0]));
    proof {
        assert(out@[0]@ =~= target[0]);
    }
    let mut i: usize = 1;
    while i < ny - 1
        invariant
            1 <= i <= ny - 1,
            2 <= ny,
            2 <= nx,
            t@.len() == ny,
            u@.len() == ny,
            v@.len() == ny,
            forall|k: int| 0 <= k < ny ==> (#[trigger] t@[k])@.len() == nx,
            forall|k: int| 0 <= k < ny ==> (#[trigger] u@[k])@.len() == nx,
            forall|k: int| 0 <= k < ny ==> (#[trigger] v@[k])@.len() == nx,
            target == temp_step_spec(grid_view(*t), grid_view(*u), grid_view(*v), dt, dx, dy),
            is_grid(grid_view(*t), ny as int, nx as int),
            out@.len() == i,
            forall|k: int| 0 <= k < i ==> (#[trigger] out@[k])@ == target[k],
        decreases ny - 1 - i,
    {
        let mut row: Vec<T> = Vec::new();
        row.push(t[i][0]);
        let mut j: usize = 1;
        while j < nx - 1
            invariant
                1 <= j <= nx - 1,
                2 <= nx,
                1 <= i < ny - 1,
                t@.len() == ny,
                u@.len() == ny,
                v@.len() == ny,
                forall|k: int| 0 <= k < ny ==> (#[trigger] t@[k])@.len() == nx,
                forall|k: int| 0 <= k < ny ==> (#[trigger] u@[k])@.len() == nx,
                forall|k: int| 0 <= k < ny ==> (#[trigger] v@[k])@.len() == nx,
                row@.len() == j,
                row@[0] == t@[i as int]@[0],
                forall|k: int| 1 <= k < j ==> #[trigger] row@[k] == temp_cell_spec(
                    t@[i as int]@[k + 1],
                    t@[i as int]@[k - 1],
                    t@[i as int + 1]@[k],
                    t@[i as int - 1]@[k],
                    t@[i as int]@[k],
                    u@[i as int]@[k],
                    v@[i as int]@[k],
                    dt, dx, dy,
                ),
            decreases nx - 1 - j,
        {
            let c = temp_cell_exec(
                t[i][j + 1], t[i][j - 1], t[i + 1][j], t[i - 1][j], t[i][j],
                u[i][j], v[i][j],
                dt, dx, dy,
            );
            row.push(c);
            j = j + 1;
        }
        row.push(t[i][nx - 1]);
        proof {
            assert(grid_view(*t)[i as int] == t@[i as int]@);
            assert(grid_view(*t)[i as int - 1] == t@[i as int - 1]@);
            assert(grid_view(*t)[i as int + 1] == t@[i as int + 1]@);
            assert(grid_view(*u)[i as int] == u@[i as int]@);
            assert(grid_view(*v)[i as int] == v@[i as int]@);
            assert(row@ =~= target[i as int]);
        }
        out.push(row);
        i = i + 1;
    }
    out.push(copy_row(&t[ny - 1]));
    proof {
        assert(grid_view(*t)[ny - 1] == t@[ny - 1]@);
        assert(out@[ny - 1]@ =~= target[ny - 1]);
        assert(grid_view(out) =~~= target);
    }
    out
}

} // verus!
