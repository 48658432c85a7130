use vstd::prelude::*;
use crate::scalar::CfdScalar;

verus! {

/// The mathematical contents of a stored field: one sequence per row.
pub open spec fn grid_view<T>(g: Vec<Vec<T>>) -> Seq<Seq<T>> {
    g@.map_values(|row: Vec<T>| row@)
}

/// Whether `g` is a dense rectangular field of `ny` rows by `nx` columns.
pub open spec fn is_grid<T>(g: Seq<Seq<T>>, ny: int, nx: int) -> bool {
    &&& g.len() == ny
    &&& forall|i: int| 0 <= i < ny ==> (#[trigger] g[i]).len() == nx
}

/// The `ny` by `nx` field holding `v` in every cell.
pub open spec fn const_grid<T>(ny: int, nx: int, v: T) -> Seq<Seq<T>> {
    Seq::new(ny as nat, |i: int| Seq::new(nx as nat, |j: int| v))
}

/// The `ny` by `nx` field of zeroes.
pub open spec fn zero_grid_spec<T: CfdScalar>(ny: int, nx: int) -> Seq<Seq<T>> {
    const_grid(ny, nx, T::zero_spec())
}

/// Whether every cell of `g` is zero.
pub open spec fn all_zero<T: CfdScalar>(g: Seq<Seq<T>>) -> bool {
    forall|i: int, j: int|
        0 <= i < g.len() && 0 <= j < g[i].len() ==> #[trigger] g[i][j] == T::zero_spec()
}

/// Allocates a fresh `ny` by `nx` field of zeroes.
pub fn zero_grid<T: CfdScalar>(ny: usize, nx: usize) -> (g: Vec<Vec<T>>)
    ensures
        grid_view(g) == zero_grid_spec::<T>(ny as int, nx as int),
{
    let z: T = T::zero();
    let mut g: Vec<Vec<T>> = Vec::new();
    let mut i: usize = 0;
    while i < ny
        invariant
            i <= ny,
            z == T::zero_spec(),
            g@.len() == i,
            forall|k: int| 0 <= k < i ==> (#[trigger] g@[k])@ =~= Seq::new(
                nx as nat,
                |j: int| T::zero_spec(),
            ),
        decreases ny - i,
    {
        let mut row: Vec<T> = Vec::new();
        let mut j: usize = 0;
        while j < nx
            invariant
                j <= nx,
                z == T::zero_spec(),
                row@.len() == j,
                forall|k: int| 0 <= k < j ==> #[trigger] row@[k] == T::zero_spec(),
            decreases nx - j,
        {
            row.push(z);
            j = j + 1;
        }
        proof {
            assert(row@ =~= Seq::new(nx as nat, |jj: int| T::zero_spec()));
        }
        g.push(row);
        i = i + 1;
    }
    proof {
        assert(grid_view(g) =~~= zero_grid_spec::<T>(ny as int, nx as int));
    }
    g
}

/// Copies one row of a field.
pub fn copy_row<T: Copy>(r: &Vec<T>) -> (c: Vec<T>)
    ensures
        c@ == r@,
{
    let mut c: Vec<T> = Vec::new();
    let n: usize = r.len();
    let mut k: usize = 0;
    while k < n
        invariant
            k <= n,
            n == r@.len(),
            c@.len() == k,
            forall|t: int| 0 <= t < k ==> #[trigger] c@[t] == r@[t],
        decreases n - k,
    {
        c.push(r[k]);
        k = k + 1;
    }
    proof {
        assert(c@ =~= r@);
    }
    c
}

/// Copies a whole field.
pub fn copy_grid<T: Copy>(g: &Vec<Vec<T>>) -> (c: Vec<Vec<T>>)
    ensures
        grid_view(c) == grid_view(*g),
{
    let mut c: Vec<Vec<T>> = Vec::new();
    let n: usize = g.len();
    let mut k: usize = 0;
    while k < n
        invariant
            k <= n,
            n == g@.len(),
            c@.len() == k,
            forall|t: int| 0 <= t < k ==> #[trigger] c@[t]@ == g@[t]@,
        decreases n - k,
    {
        c.push(copy_row(&g[k]));
        k = k + 1;
    }
    proof {
        assert(grid_view(c) =~~= grid_view(*g));
    }
    c
}

/// Writes `v` into cell `(i, j)`, leaving every other cell as it was.
pub fn set_cell<T>(g: &mut Vec<Vec<T>>, i: usize, j: usize, v: T)
    requires
        i < grid_view(*old(g)).len(),
        j < grid_view(*old(g))[i as int].len(),
    ensures
        grid_view(*final(g)) == grid_view(*old(g)).update(
            i as int,
            grid_view(*old(g))[i as int].update(j as int, v),
        ),
{
    g[i][j] = v;
    proof {
        assert(grid_view(*g) =~~= grid_view(*old(g)).update(
            i as int,
            grid_view(*old(g))[i as int].update(j as int, v),
        ));
    }
}

} // verus!
