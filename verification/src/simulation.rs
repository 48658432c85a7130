use vstd::prelude::*;
use crate::scalar::CfdScalar;
use crate::grid::grid_view;
use crate::grid::zero_grid;
use crate::model::StateModel;
use crate::model::init_temp_cell;
use crate::model::init_temp_spec;
use crate::model::init_model_spec;
use crate::model::zero_model_spec;
use crate::model::spacing_spec;
use crate::model::step_spec;
use crate::model::run_spec;
use crate::model::lemma_relax_shape;
use crate::model::lemma_u_field_shape;
use crate::model::lemma_v_field_shape;
use crate::model::lemma_thom_shape;
use crate::model::lemma_vort_step_shape;
use crate::model::lemma_temp_step_shape;
use crate::model::lemma_zero_model_wf;
use crate::model::lemma_init_model_wf;
use crate::model::relax_spec;
use crate::model::u_field_spec;
use crate::model::v_field_spec;
use crate::model::thom_field_spec;
use crate::sweeps::relax;
use crate::sweeps::u_field;
use crate::sweeps::v_field;
use crate::sweeps::thom_field;
use crate::sweeps::vort_step;
use crate::sweeps::temp_step;

verus! {

/// The default Jacobi budget of the elliptic solve: a fixed cost per step,
/// not a convergence guarantee.
pub const DEFAULT_RELAX_ITERS: usize = 50;

/// How many steps pass between two progress notifications.
pub const PROGRESS_INTERVAL: usize = 100;

/// Parameters of a simulation run, immutable once the run starts.
#[derive(Clone, Copy)]
pub struct SimParameters<T> {
    /// Grid points along x; at least two.
    pub nx: usize,
    /// Grid points along y; at least two.
    pub ny: usize,
    /// Time step; strictly positive.
    pub dt: T,
    /// Prandtl number, scaling vorticity diffusion and the buoyancy source.
    pub pr: T,
    /// Rayleigh number, scaling the buoyancy source.
    pub ra: T,
}

/// The five same-shaped fields of the simulation at one instant.
pub struct SimState<T> {
    /// Temperature.
    pub temp: Vec<Vec<T>>,
    /// Vorticity.
    pub vort: Vec<Vec<T>>,
    /// Stream function.
    pub stream: Vec<Vec<T>>,
    /// X-velocity.
    pub u: Vec<Vec<T>>,
    /// Y-velocity.
    pub v: Vec<Vec<T>>,
}

impl<T: CfdScalar> SimState<T> {
    /// The mathematical contents of the five fields.
    pub open spec fn model(self) -> StateModel<T> {
        StateModel {
            temp: grid_view(self.temp),
            vort: grid_view(self.vort),
            stream: grid_view(self.stream),
            u: grid_view(self.u),
            v: grid_view(self.v),
        }
    }

    /// All five fields are dense `ny` by `nx` rectangles.
    pub open spec fn wf(self, ny: int, nx: int) -> bool {
        self.model().wf(ny, nx)
    }

    /// Allocates a state of shape `(ny, nx)` with every field zero.
    pub fn new(nx: usize, ny: usize) -> (s: Self)
        ensures
            s.model() == zero_model_spec::<T>(ny as int, nx as int),
            s.wf(ny as int, nx as int),
    {
        let s = SimState {
            temp: zero_grid(ny, nx),
            vort: zero_grid(ny, nx),
            stream: zero_grid(ny, nx),
            u: zero_grid(ny, nx),
            v: zero_grid(ny, nx),
        };
        proof {
            lemma_zero_model_wf::<T>(ny as int, nx as int);
        }
        s
    }
}

/// The configuration faults rejected at construction.
#[derive(Clone, Copy, PartialEq, Eq, Structural, Debug)]
pub enum ConfigError {
    /// Fewer than two grid points along an axis.
    GridTooSmall,
    /// The time step is not strictly positive.
    NonPositiveTimeStep,
}

/// Receives a notification as a run progresses; the engine itself performs
/// no output.
pub trait ProgressObserver {
    /// Called after step `completed` (counting from zero) of `total` has
    /// finished.
    fn on_progress(&mut self, completed: usize, total: usize);
}

/// An observer that ignores every notification.
pub struct SilentObserver;

impl ProgressObserver for SilentObserver {
    fn on_progress(&mut self, completed: usize, total: usize) {
        let _ = completed;
        let _ = total;
    }
}

/// The simulation controller: owns the parameters, the grid state, the
/// derived cell spacing, and the relaxation budget.
pub struct Simulation<T> {
    /// The parameters the run was constructed with.
    pub params: SimParameters<T>,
    /// The current grid state; mutated in place once per step.
    pub state: SimState<T>,
    /// Cell spacing along x: `1 / (nx - 1)`.
    pub dx: T,
    /// Cell spacing along y: `1 / (ny - 1)`.
    pub dy: T,
    /// Jacobi sweeps per step; defaults to `DEFAULT_RELAX_ITERS`.
    pub relax_iters: usize,
}

impl<T: CfdScalar> Simulation<T> {
    /// The grid is at least two points wide each way and every field has
    /// the constructed shape.
    pub open spec fn wf(self) -> bool {
        &&& 2 <= self.params.nx
        &&& 2 <= self.params.ny
        &&& self.state.wf(self.params.ny as int, self.params.nx as int)
    }

    /// The state's step transformer under this simulation's parameters.
    pub open spec fn step_model(self, m: StateModel<T>) -> StateModel<T> {
        step_spec(m, self.params.dt, self.params.pr, self.params.ra, self.dx, self.dy,
            self.relax_iters as nat)
    }

    /// Builds a boundary-initialized simulation, rejecting a grid under two
    /// points per axis or a non-positive time step.
    pub fn new(params: SimParameters<T>) -> (r: Result<Self, ConfigError>)
        ensures
            r is Ok <==> params.nx >= 2 && params.ny >= 2 && T::is_pos_spec(params.dt),
            params.nx < 2 || params.ny < 2 ==> r == Result::<Self, ConfigError>::Err(
                ConfigError::GridTooSmall,
            ),
            params.nx >= 2 && params.ny >= 2 && !T::is_pos_spec(params.dt) ==> r
                == Result::<Self, ConfigError>::Err(ConfigError::NonPositiveTimeStep),
            r is Ok ==> {
                &&& r->Ok_0.params == params
                &&& r->Ok_0.relax_iters == DEFAULT_RELAX_ITERS
                &&& r->Ok_0.dx == spacing_spec::<T>(params.nx)
                &&& r->Ok_0.dy == spacing_spec::<T>(params.ny)
                &&& r->Ok_0.state.model() == init_model_spec::<T>(
                    params.ny as int,
                    params.nx as int,
                )
                &&& r->Ok_0.wf()
            },
    {
        if params.nx < 2 || params.ny < 2 {
            return Err(ConfigError::GridTooSmall);
        }
        if !T::is_pos(params.dt) {
            return Err(ConfigError::NonPositiveTimeStep);
        }
        let one = T::one();
        let dx = T::div(one, T::sub(T::from_usize(params.nx), one));
        let dy = T::div(one, T::sub(T::from_usize(params.ny), one));
        let mut state = SimState::<T>::new(params.nx, params.ny);
        state.temp = init_temp(params.ny, params.nx);
        let sim = Simulation { params, state, dx, dy, relax_iters: DEFAULT_RELAX_ITERS };
        proof {
            lemma_init_model_wf::<T>(params.ny as int, params.nx as int);
            assert(sim.state.model() =~~= init_model_spec::<T>(
                params.ny as int,
                params.nx as int,
            ));
        }
        Ok(sim)
    }

    /// One time step: Jacobi relaxation, velocity reconstruction, Thom wall
    /// vorticity, then the double-buffered Euler sweep. The new state is
    /// exactly the step transformer applied to the old one.
    pub fn step(&mut self)
        requires
            old(self).wf(),
        ensures
            final(self).wf(),
            final(self).params == old(self).params,
            final(self).dx == old(self).dx,
            final(self).dy == old(self).dy,
            final(self).relax_iters == old(self).relax_iters,
            final(self).state.model() == old(self).step_model(old(self).state.model()),
    {
        let ny = self.params.ny;
        let nx = self.params.nx;
        let ghost m0 = self.state.model();
        let s1 = relax(ny, nx, &self.state.stream, &self.state.vort, self.dx, self.dy,
            self.relax_iters);
        proof {
            lemma_relax_shape(m0.stream, m0.vort, self.dx, self.dy, self.relax_iters as nat,
                ny as int, nx as int);
        }
        self.state.stream = s1;
        let u1 = u_field(ny, nx, &self.state.u, &self.state.stream, self.dy);
        let v1 = v_field(ny, nx, &self.state.v, &self.state.stream, self.dx);
        let w1 = thom_field(ny, nx, &self.state.vort, &self.state.stream, self.dx, self.dy);
        proof {
            let s1m = relax_spec(m0.stream, m0.vort, self.dx, self.dy, self.relax_iters as nat);
            lemma_u_field_shape(m0.u, s1m, self.dy, ny as int, nx as int);
            lemma_v_field_shape(m0.v, s1m, self.dx, ny as int, nx as int);
            lemma_thom_shape(m0.vort, s1m, self.dx, self.dy, ny as int, nx as int);
        }
        self.state.u = u1;
        self.state.v = v1;
        self.state.vort = w1;
        let w2 = vort_step(ny, nx, &self.state.vort, &self.state.temp, &self.state.u,
            &self.state.v, self.params.dt, self.params.pr, self.params.ra, self.dx, self.dy);
        let t2 = temp_step(ny, nx, &self.state.temp, &self.state.u, &self.state.v,
            self.params.dt, self.dx, self.dy);
        proof {
            let s1m = relax_spec(m0.stream, m0.vort, self.dx, self.dy, self.relax_iters as nat);
            let u1m = u_field_spec(m0.u, s1m, self.dy);
            let v1m = v_field_spec(m0.v, s1m, self.dx);
            let w1m = thom_field_spec(m0.vort, s1m, self.dx, self.dy);
            lemma_vort_step_shape(w1m, m0.temp, u1m, v1m, self.params.dt, self.params.pr,
                self.params.ra, self.dx, self.dy, ny as int, nx as int);
            lemma_temp_step_shape(m0.temp, u1m, v1m, self.params.dt, self.dx, self.dy,
                ny as int, nx as int);
        }
        self.state.vort = w2;
        self.state.temp = t2;
    }

    /// Runs `time_steps` steps in order, notifying the observer every
    /// `PROGRESS_INTERVAL` steps. The final state is exactly the step
    /// transformer iterated `time_steps` times.
    pub fn run<O: ProgressObserver>(&mut self, time_steps: usize, observer: &mut O)
        requires
            old(self).wf(),
        ensures
            final(self).wf(),
            final(self).params == old(self).params,
            final(self).dx == old(self).dx,
            final(self).dy == old(self).dy,
            final(self).relax_iters == old(self).relax_iters,
            final(self).state.model() == run_spec(
                old(self).state.model(),
                old(self).params.dt,
                old(self).params.pr,
                old(self).params.ra,
                old(self).dx,
                old(self).dy,
                old(self).relax_iters as nat,
                time_steps as nat,
            ),
    {
        let ghost m0 = self.state.model();
        let ghost sim0 = *self;
        let mut k: usize = 0;
        while k < time_steps
            invariant
                k <= time_steps,
                self.wf(),
                self.params == sim0.params,
                self.dx == sim0.dx,
                self.dy == sim0.dy,
                self.relax_iters == sim0.relax_iters,
                self.state.model() == run_spec(m0, sim0.params.dt, sim0.params.pr,
                    sim0.params.ra, sim0.dx, sim0.dy, sim0.relax_iters as nat, k as nat),
            decreases time_steps - k,
        {
            self.step();
            if k % PROGRESS_INTERVAL == 0 {
                observer.on_progress(k, time_steps);
            }
            k = k + 1;
        }
    }
}

/// Builds the boundary-stamped temperature field: hot bottom row, cold top
/// row, then hot left and right columns, applied in that order.
fn init_temp<T: CfdScalar>(ny: usize, nx: usize) -> (g: Vec<Vec<T>>)
    ensures
        grid_view(g) == init_temp_spec::<T>(ny as int, nx as int),
{
    let one = T::one();
    let zero = T::zero();
    let mut g: Vec<Vec<T>> = Vec::new();
    let mut i: usize = 0;
    while i < ny
        invariant
            i <= ny,
            one == T::one_spec(),
            zero == T::zero_spec(),
            g@.len() == i,
            forall|k: int| 0 <= k < i ==> (#[trigger] g@[k])@ == init_temp_spec::<T>(
                ny as int,
                nx as int,
            )[k],
        decreases ny - i,
    {
        let mut row: Vec<T> = Vec::new();
        let mut j: usize = 0;
        while j < nx
            invariant
                j <= nx,
                i < ny,
                one == T::one_spec(),
                zero == T::zero_spec(),
                row@.len() == j,
                forall|k: int| 0 <= k < j ==> #[trigger] row@[k] == init_temp_cell::<T>(
                    ny as int,
                    nx as int,
                    i as int,
                    k,
                ),
            decreases nx - j,
        {
            let cell = if j == 0 || j == nx - 1 {
                one
            } else if i == ny - 1 {
                zero
            } else if i == 0 {
                one
            } else {
                zero
            };
            row.push(cell);
            j = j + 1;
        }
        proof {
            assert(row@ =~= init_temp_spec::<T>(ny as int, nx as int)[i as int]);
        }
        g.push(row);
        i = i + 1;
    }
    proof {
        assert(grid_view(g) =~~= init_temp_spec::<T>(ny as int, nx as int));
    }
    g
}

} // verus!
