//! Scattering of electrons off a target of fixed charges.
//!
//! An electron is launched from the left with an impact parameter (its
//! initial offset from the centre line) and advanced by explicit Euler steps
//! under the gradient force of the learned potential and the targets' spin
//! force, until it leaves the bounding box or a step limit is reached. The
//! trajectory that is kept is thinned: a position is recorded only when it
//! lies more than a fixed distance from the last recorded one.

use vstd::prelude::*;
use crate::fixed::Fixed;
use crate::fixed::fx;
use crate::fixed::SCALE;
use crate::field::TargetCharge;
use crate::field::force;
use crate::field::gradient_force_of;
use crate::field::spin_force;
use crate::field::spin_force_of;
use crate::field::SPIN_COEFFICIENT;
use crate::regressor::Regressor;

verus! {

/// Horizontal position from which every electron is launched, in millionths (-5.0).
pub const START_X: i64 = -5_000_000;

/// Half width of the bounding box, in millionths (5.0).
pub const BOUND_X: i64 = 5_000_000;

/// Half height of the bounding box, in millionths (6.0).
pub const BOUND_Y: i64 = 6_000_000;

/// Distance that a position must exceed from the last recorded one to be
/// recorded in turn, in millionths (0.05).
pub const RECORD_DISTANCE: i64 = 50_000;

/// The kinematic state of an electron, as the contracts speak of it.
pub struct ElectronState {
    pub x: Fixed,
    pub y: Fixed,
    pub vx: Fixed,
    pub vy: Fixed,
    pub trajectory: Seq<(Fixed, Fixed)>,
    pub impact_parameter: Fixed,
}

/// The points `p` and `q` lie more than the recording distance apart.
pub open spec fn far_apart(p: (Fixed, Fixed), q: (Fixed, Fixed)) -> bool {
    (q.0@ - p.0@) * (q.0@ - p.0@) + (q.1@ - p.1@) * (q.1@ - p.1@) > RECORD_DISTANCE
        * RECORD_DISTANCE
}

/// Every recorded point but the first lies more than the recording distance
/// from the point recorded before it.
pub open spec fn decimated(trajectory: Seq<(Fixed, Fixed)>) -> bool {
    forall|i: int| 0 < i < trajectory.len() ==> far_apart(trajectory[i - 1], #[trigger] trajectory[i])
}

/// The trajectory after the position `p` was reached: `p` is appended if the
/// trajectory is empty or `p` is far enough from its last point.
pub open spec fn recorded(trajectory: Seq<(Fixed, Fixed)>, p: (Fixed, Fixed)) -> Seq<(Fixed, Fixed)> {
    if trajectory.len() == 0 || far_apart(trajectory.last(), p) {
        trajectory.push(p)
    } else {
        trajectory
    }
}

impl ElectronState {
    /// A fresh electron at the launch position, moving right with speed
    /// `initial_velocity`, its launch position recorded.
    pub open spec fn launched(impact_parameter: Fixed, initial_velocity: Fixed) -> ElectronState {
        ElectronState {
            x: fx(START_X as int),
            y: impact_parameter,
            vx: initial_velocity,
            vy: fx(0),
            trajectory: seq![(fx(START_X as int), impact_parameter)],
            impact_parameter,
        }
    }

    /// The electron is outside the bounding box.
    pub open spec fn has_exited(self) -> bool {
        self.x@ > BOUND_X || self.x@ < -BOUND_X || self.y@ > BOUND_Y || self.y@ < -BOUND_Y
    }

    /// The state after one explicit Euler step under the force `(force_x,
    /// force_y)`: the velocity changes first, the position then moves with
    /// the new velocity, and the new position is recorded if it is far enough
    /// from the last recorded one.
    pub open spec fn pushed(self, force_x: Fixed, force_y: Fixed, dt: Fixed) -> ElectronState {
        let vx = self.vx.plus(force_x.times(dt));
        let vy = self.vy.plus(force_y.times(dt));
        let x = self.x.plus(vx.times(dt));
        let y = self.y.plus(vy.times(dt));
        ElectronState {
            x,
            y,
            vx,
            vy,
            trajectory: recorded(self.trajectory, (x, y)),
            impact_parameter: self.impact_parameter,
        }
    }

    /// The trajectory holds at least the first point and is thinned.
    pub open spec fn well_formed(self) -> bool {
        &&& self.trajectory.len() >= 1
        &&& decimated(self.trajectory)
    }
}

/// A scattered electron.
#[derive(Clone, Debug)]
pub struct Electron {
    pub x: Fixed,
    pub y: Fixed,
    pub vx: Fixed,
    pub vy: Fixed,
    pub trajectory: Vec<(Fixed, Fixed)>,
    /// The initial vertical offset, kept for reporting.
    pub impact_parameter: Fixed,
}

impl View for Electron {
    type V = ElectronState;

    open spec fn view(&self) -> ElectronState {
        ElectronState {
            x: self.x,
            y: self.y,
            vx: self.vx,
            vy: self.vy,
            trajectory: self.trajectory@,
            impact_parameter: self.impact_parameter,
        }
    }
}

/// Whether `q` lies more than the recording distance from `p`.
pub fn is_far_apart(p: (Fixed, Fixed), q: (Fixed, Fixed)) -> (far: bool)
    ensures
        far == far_apart(p, q),
{
    let dx: i128 = (q.0.raw as i128) - (p.0.raw as i128);
    let dy: i128 = (q.1.raw as i128) - (p.1.raw as i128);
    if dx > 50_000 || dx < -50_000 || dy > 50_000 || dy < -50_000 {
        assert(dx * dx + dy * dy > 50_000 * 50_000) by (nonlinear_arith)
            requires
                dx > 50_000 || dx < -50_000 || dy > 50_000 || dy < -50_000,
        ;
        true
    } else {
        assert(0 <= dx * dx <= 2_500_000_000 && 0 <= dy * dy <= 2_500_000_000) by (nonlinear_arith)
            requires
                -50_000 <= dx <= 50_000,
                -50_000 <= dy <= 50_000,
        ;
        dx * dx + dy * dy > 2_500_000_000
    }
}

impl Electron {
    /// A new electron, launched from the left at height `impact_parameter`
    /// with horizontal speed `initial_velocity`.
    pub fn new(impact_parameter: Fixed, initial_velocity: Fixed) -> (e: Electron)
        ensures
            e@ == ElectronState::launched(impact_parameter, initial_velocity),
    {
        let start = Fixed::from_raw(-5_000_000);
        let mut trajectory: Vec<(Fixed, Fixed)> = Vec::new();
        trajectory.push((start, impact_parameter));
        let e = Electron {
            x: start,
            y: impact_parameter,
            vx: initial_velocity,
            vy: Fixed::zero(),
            trajectory,
            impact_parameter,
        };
        assert(e@.trajectory =~= ElectronState::launched(impact_parameter, initial_velocity).trajectory);
        e
    }

    /// Distance of the electron from the centre of the target.
    pub fn distance_from_center(&self) -> (d: Fixed)
        ensures
            d == self.x.times(self.x).plus(self.y.times(self.y)).root(),
    {
        self.x.mul(self.x).add(self.y.mul(self.y)).sqrt()
    }

    /// Whether the electron has left the bounding box.
    pub fn has_exited(&self) -> (out: bool)
        ensures
            out == self@.has_exited(),
    {
        self.x.raw > 5_000_000 || self.x.raw < -5_000_000 || self.y.raw > 6_000_000 || self.y.raw
            < -6_000_000
    }

    /// One explicit Euler step under a given force: `v += F dt`, then
    /// `pos += v dt`, then the new position is recorded if it is far enough
    /// from the last recorded one.
    pub fn apply_force(&mut self, force_x: Fixed, force_y: Fixed, dt: Fixed)
        ensures
            final(self)@ == old(self)@.pushed(force_x, force_y, dt),
            decimated(old(self)@.trajectory) ==> final(self)@.well_formed(),
    {
        proof {
            if decimated(self@.trajectory) {
                lemma_step_keeps_trajectory_thinned(self@, force_x, force_y, dt);
            }
        }
        self.vx = self.vx.add(force_x.mul(dt));
        self.vy = self.vy.add(force_y.mul(dt));
        self.x = self.x.add(self.vx.mul(dt));
        self.y = self.y.add(self.vy.mul(dt));
        let here = (self.x, self.y);
        let n = self.trajectory.len();
        if n == 0 || is_far_apart(self.trajectory[n - 1], here) {
            self.trajectory.push(here);
        }
    }
}

/// A step keeps a thinned trajectory thinned: no two consecutive recorded
/// points come closer than the recording distance.
pub proof fn lemma_step_keeps_trajectory_thinned(
    state: ElectronState,
    force_x: Fixed,
    force_y: Fixed,
    dt: Fixed,
)
    requires
        decimated(state.trajectory),
    ensures
        state.pushed(force_x, force_y, dt).well_formed(),
        state.trajectory.is_prefix_of(state.pushed(force_x, force_y, dt).trajectory),
{
    let next = state.pushed(force_x, force_y, dt);
    assert forall|i: int| 0 < i < next.trajectory.len() implies far_apart(
        next.trajectory[i - 1],
        #[trigger] next.trajectory[i],
    ) by {
        if i < state.trajectory.len() {
            assert(far_apart(state.trajectory[i - 1], state.trajectory[i]));
        }
    }
}

/// The configuration of a scattering scenario.
#[derive(Clone, Copy, Debug)]
pub struct ScatteringParams {
    /// How many electrons are fired.
    pub num_electrons: usize,
    /// The impact parameters range from minus this value to this value.
    pub max_impact_parameter: Fixed,
    /// Initial horizontal speed.
    pub initial_velocity: Fixed,
    /// Length of one integration step.
    pub time_step: Fixed,
    /// Largest number of integration steps per electron.
    pub max_steps: usize,
    /// Factor from the potential's gradient to the force.
    pub force_scale: Fixed,
}

impl Default for ScatteringParams {
    /// Twenty electrons between -2.0 and 2.0, speed 0.5, steps of 0.05, at
    /// most 300 steps, force scale 0.1.
    fn default() -> (p: ScatteringParams)
        ensures
            p.num_electrons == 20,
            p.max_impact_parameter@ == 2_000_000,
            p.initial_velocity@ == 500_000,
            p.time_step@ == 50_000,
            p.max_steps == 300,
            p.force_scale@ == 100_000,
    {
        ScatteringParams {
            num_electrons: 20,
            max_impact_parameter: Fixed::from_raw(2_000_000),
            initial_velocity: Fixed::from_raw(500_000),
            time_step: Fixed::from_raw(50_000),
            max_steps: 300,
            force_scale: Fixed::from_raw(100_000),
        }
    }
}

/// Why a scattering scenario was not run.
#[derive(Clone, Copy, Debug, PartialEq, Eq, Structural)]
pub enum ScatteringError {
    /// Fewer than two electrons: the spacing of the impact parameters is undefined.
    TooFewElectrons,
}

/// The impact parameter of electron `index` out of `count`, evenly spaced
/// from `-max` to `max`: `-max + (2 max index) / (count - 1)`.
pub open spec fn impact_parameter_of(index: int, count: int, max: Fixed) -> Fixed
    recommends
        count > 1,
{
    max.negated().plus(
        fx(2 * SCALE).times(max).times(fx(index * SCALE)).over(fx((count - 1) * SCALE)),
    )
}

/// The impact parameter of electron `index` out of `count`, of which there
/// must be at least two.
pub fn impact_parameter(index: usize, count: usize, max: Fixed) -> (b: Fixed)
    requires
        count > 1,
    ensures
        b == impact_parameter_of(index as int, count as int, max),
{
    let span = Fixed::from_int(2).mul(max).mul(Fixed::from_usize(index));
    let gaps = Fixed::from_usize(count - 1);
    max.neg().add(span.div(gaps))
}

/// Within the range in which nothing saturates, the impact parameter of
/// electron `index` is `-max + (2 max index) / (count - 1)`, the quotient
/// rounded down.
pub proof fn lemma_impact_parameter_value(index: int, count: int, max: Fixed)
    requires
        count > 1,
        0 <= index < count,
        max@ >= 0,
        2 * max@ * (count - 1) <= i64::MAX,
        (count - 1) * SCALE <= i64::MAX,
    ensures
        impact_parameter_of(index, count, max)@ == -max@ + (2 * max@ * index) / (count - 1),
        0 <= (2 * max@ * index) / (count - 1) <= 2 * max@,
{
    let m = max@;
    let gaps = count - 1;
    assert(0 <= 2 * m * index <= 2 * m * gaps && 2 * m <= 2 * m * gaps && 0 <= index * SCALE <= gaps
        * SCALE) by (nonlinear_arith)
        requires
            0 <= index <= gaps,
            gaps >= 1,
            m >= 0,
    ;
    // 2.0 * max
    let twice = fx(2 * SCALE).times(max);
    assert(twice@ == 2 * m) by {
        assert((2 * SCALE) * m == (2 * m) * SCALE) by (nonlinear_arith);
        crate::fixed::lemma_trunc_div_multiple(2 * m, SCALE as int);
    }
    // (2.0 * max) * index
    let span = twice.times(fx(index * SCALE));
    assert(span@ == 2 * m * index) by {
        assert((2 * m) * (index * SCALE) == (2 * m * index) * SCALE) by (nonlinear_arith);
        crate::fixed::lemma_trunc_div_multiple(2 * m * index, SCALE as int);
    }
    // ... / (count - 1)
    let share = span.over(fx(gaps * SCALE));
    vstd::arithmetic::div_mod::lemma_div_pos_is_pos(2 * m * index, gaps);
    vstd::arithmetic::div_mod::lemma_div_is_ordered(2 * m * index, 2 * m * gaps, gaps);
    assert((2 * m * gaps) / gaps == 2 * m) by {
        vstd::arithmetic::div_mod::lemma_div_by_multiple(2 * m, gaps);
    }
    assert(share@ == (2 * m * index) / gaps) by {
        crate::fixed::lemma_trunc_div_scaled(2 * m * index, gaps, SCALE as int);
    }
}

/// Within the range in which nothing saturates, the impact parameters run
/// from exactly `-max` for the first electron to exactly `max` for the last
/// and never decrease in between; they increase strictly from each electron
/// to the next where the range `2 max` holds at least one millionth per gap.
pub proof fn lemma_impact_parameters_spaced(count: int, max: Fixed)
    requires
        count > 1,
        max@ >= 0,
        2 * max@ * (count - 1) <= i64::MAX,
        (count - 1) * SCALE <= i64::MAX,
    ensures
        impact_parameter_of(0, count, max)@ == -max@,
        impact_parameter_of(count - 1, count, max)@ == max@,
        forall|i: int, j: int|
            0 <= i <= j < count ==> #[trigger] impact_parameter_of(i, count, max)@
                <= #[trigger] impact_parameter_of(j, count, max)@,
        2 * max@ >= count - 1 ==> forall|i: int, j: int|
            0 <= i < j < count ==> #[trigger] impact_parameter_of(i, count, max)@
                < #[trigger] impact_parameter_of(j, count, max)@,
{
    let m = max@;
    let gaps = count - 1;
    lemma_impact_parameter_value(0, count, max);
    lemma_impact_parameter_value(gaps, count, max);
    assert((2 * m * 0) / gaps == 0) by {
        assert(2 * m * 0 == 0);
        vstd::arithmetic::div_mod::lemma_basic_div(0, gaps);
    }
    assert((2 * m * gaps) / gaps == 2 * m) by {
        vstd::arithmetic::div_mod::lemma_div_by_multiple(2 * m, gaps);
    }
    assert forall|i: int, j: int| 0 <= i <= j < count implies #[trigger] impact_parameter_of(
        i,
        count,
        max,
    )@ <= #[trigger] impact_parameter_of(j, count, max)@ by {
        lemma_impact_parameter_value(i, count, max);
        lemma_impact_parameter_value(j, count, max);
        assert(2 * m * i <= 2 * m * j) by (nonlinear_arith)
            requires
                0 <= i <= j,
                m >= 0,
        ;
        vstd::arithmetic::div_mod::lemma_div_is_ordered(2 * m * i, 2 * m * j, gaps);
    }
    if 2 * m >= gaps {
        assert forall|i: int, j: int| 0 <= i < j < count implies #[trigger] impact_parameter_of(
            i,
            count,
            max,
        )@ < #[trigger] impact_parameter_of(j, count, max)@ by {
            lemma_impact_parameter_value(i, count, max);
            lemma_impact_parameter_value(j, count, max);
            assert(2 * m * i + gaps <= 2 * m * j) by (nonlinear_arith)
                requires
                    0 <= i < j,
                    2 * m >= gaps,
                    gaps >= 1,
            ;
            vstd::arithmetic::div_mod::lemma_div_is_ordered(2 * m * i + gaps, 2 * m * j, gaps);
            vstd::arithmetic::div_mod::lemma_div_plus_one(2 * m * i, gaps);
        }
    }
}

/// What surrounds a flying electron: the targets, the statistics that bring
/// the regressor's outputs back to physical units, and the constants of the
/// integration.
pub struct Scene {
    pub targets: Seq<TargetCharge>,
    pub mean: Fixed,
    pub std: Fixed,
    pub dt: Fixed,
    pub force_scale: Fixed,
    pub spin_coefficient: Fixed,
}

impl ElectronState {
    /// The state after one integration step: the step under the gradient
    /// force of the potential at the electron's position plus the spin force
    /// there.
    pub open spec fn stepped<R: Regressor>(self, model: &R, scene: Scene) -> ElectronState {
        let gradient = gradient_force_of(
            model,
            self.x,
            self.y,
            scene.targets,
            scene.mean,
            scene.std,
            scene.force_scale,
        );
        let spin = spin_force_of(self.x, self.y, scene.targets, scene.spin_coefficient);
        self.pushed(gradient.0.plus(spin.0), gradient.1.plus(spin.1), scene.dt)
    }
}

/// The flight of an electron from `start` under a limit of `max_steps`
/// steps: the state it ends in and the number of steps it makes. It makes a
/// step as long as steps are left and it is inside the bounding box.
pub open spec fn flight_of<R: Regressor>(
    model: &R,
    scene: Scene,
    start: ElectronState,
    max_steps: nat,
) -> (ElectronState, nat)
    decreases max_steps,
{
    if max_steps == 0 || start.has_exited() {
        (start, 0)
    } else {
        let rest = flight_of(model, scene, start.stepped(model, scene), (max_steps - 1) as nat);
        (rest.0, rest.1 + 1)
    }
}

/// The states of the electrons, in their order.
pub open spec fn states_of(electrons: Seq<Electron>) -> Seq<ElectronState> {
    electrons.map_values(|e: Electron| e@)
}

/// The scene of a scenario with the given targets and parameters.
pub open spec fn scene_of(
    targets: Seq<TargetCharge>,
    params: ScatteringParams,
    mean: Fixed,
    std: Fixed,
    spin_coefficient: Fixed,
) -> Scene {
    Scene {
        targets,
        mean,
        std,
        dt: params.time_step,
        force_scale: params.force_scale,
        spin_coefficient,
    }
}

/// The state in which electron `index` of a scenario is launched.
pub open spec fn launch_of(params: ScatteringParams, index: int) -> ElectronState {
    ElectronState::launched(
        impact_parameter_of(index, params.num_electrons as int, params.max_impact_parameter),
        params.initial_velocity,
    )
}

/// The outcome of a scenario: for each electron, the state in which its
/// flight from its launch state ends.
pub open spec fn scenario_of<R: Regressor>(model: &R, scene: Scene, params: ScatteringParams) -> Seq<
    ElectronState,
> {
    Seq::new(
        params.num_electrons as nat,
        |i: int| flight_of(model, scene, launch_of(params, i), params.max_steps as nat).0,
    )
}

/// A flight never makes more steps than its limit, and where it makes fewer
/// it has ended outside the bounding box.
pub proof fn lemma_flight_ends<R: Regressor>(
    model: &R,
    scene: Scene,
    start: ElectronState,
    max_steps: nat,
)
    ensures
        flight_of(model, scene, start, max_steps).1 <= max_steps,
        flight_of(model, scene, start, max_steps).1 < max_steps ==> flight_of(
            model,
            scene,
            start,
            max_steps,
        ).0.has_exited(),
    decreases max_steps,
{
    if max_steps > 0 && !start.has_exited() {
        lemma_flight_ends(model, scene, start.stepped(model, scene), (max_steps - 1) as nat);
    }
}

/// Along a flight the impact parameter stays what it was, the trajectory
/// only grows, and a thinned trajectory stays thinned: no two consecutive
/// recorded points come closer than the recording distance.
pub proof fn lemma_flight_keeps<R: Regressor>(
    model: &R,
    scene: Scene,
    start: ElectronState,
    max_steps: nat,
)
    requires
        start.well_formed(),
    ensures
        flight_of(model, scene, start, max_steps).0.well_formed(),
        flight_of(model, scene, start, max_steps).0.impact_parameter == start.impact_parameter,
        start.trajectory.is_prefix_of(flight_of(model, scene, start, max_steps).0.trajectory),
        flight_of(model, scene, start, max_steps).0.trajectory[0] == start.trajectory[0],
    decreases max_steps,
{
    if max_steps > 0 && !start.has_exited() {
        let gradient = gradient_force_of(
            model,
            start.x,
            start.y,
            scene.targets,
            scene.mean,
            scene.std,
            scene.force_scale,
        );
        let spin = spin_force_of(start.x, start.y, scene.targets, scene.spin_coefficient);
        lemma_step_keeps_trajectory_thinned(
            start,
            gradient.0.plus(spin.0),
            gradient.1.plus(spin.1),
            scene.dt,
        );
        lemma_flight_keeps(model, scene, start.stepped(model, scene), (max_steps - 1) as nat);
    }
}

/// Boundary exit: an electron that is outside the bounding box is not moved.
/// Its flight has no step and ends in the state it began in.
pub proof fn lemma_no_step_from_outside<R: Regressor>(
    model: &R,
    scene: Scene,
    start: ElectronState,
    max_steps: nat,
)
    requires
        start.has_exited(),
    ensures
        flight_of(model, scene, start, max_steps) == (start, 0nat),
{
}

/// Boundary exit: an electron that is outside the bounding box after its
/// first step makes that one step only.
pub proof fn lemma_one_step_to_outside<R: Regressor>(
    model: &R,
    scene: Scene,
    start: ElectronState,
    max_steps: nat,
)
    requires
        max_steps >= 1,
        !start.has_exited(),
        start.stepped(model, scene).has_exited(),
    ensures
        flight_of(model, scene, start, max_steps) == (start.stepped(model, scene), 1nat),
{
    lemma_no_step_from_outside(model, scene, start.stepped(model, scene), (max_steps - 1) as nat);
}

/// A flight that has steps left and is inside the bounding box goes on from
/// the next state.
proof fn lemma_flight_unfolds<R: Regressor>(
    model: &R,
    scene: Scene,
    start: ElectronState,
    max_steps: nat,
)
    requires
        max_steps > 0,
        !start.has_exited(),
    ensures
        flight_of(model, scene, start, max_steps).0 == flight_of(
            model,
            scene,
            start.stepped(model, scene),
            (max_steps - 1) as nat,
        ).0,
        flight_of(model, scene, start, max_steps).1 == flight_of(
            model,
            scene,
            start.stepped(model, scene),
            (max_steps - 1) as nat,
        ).1 + 1,
{
}

impl Electron {
    /// One integration step: the gradient force of the potential and the spin
    /// force at the current position are added, and the electron is advanced
    /// under their sum.
    pub fn advance<R: Regressor>(
        &mut self,
        model: &R,
        targets: &Vec<TargetCharge>,
        mean: Fixed,
        std: Fixed,
        dt: Fixed,
        force_scale: Fixed,
        spin_coefficient: Fixed,
    )
        ensures
            final(self)@ == old(self)@.stepped(
                model,
                (Scene { targets: targets@, mean, std, dt, force_scale, spin_coefficient }),
            ),
            decimated(old(self)@.trajectory) ==> final(self)@.well_formed(),
    {
        let gradient = force(self.x, self.y, targets, model, mean, std, force_scale);
        let spin = spin_force(self.x, self.y, targets, spin_coefficient);
        self.apply_force(gradient.0.add(spin.0), gradient.1.add(spin.1), dt);
    }

    /// Advances the electron until it is outside the bounding box or
    /// `max_steps` steps were made, and returns the number of steps made.
    pub fn fly<R: Regressor>(
        &mut self,
        model: &R,
        targets: &Vec<TargetCharge>,
        mean: Fixed,
        std: Fixed,
        dt: Fixed,
        force_scale: Fixed,
        spin_coefficient: Fixed,
        max_steps: usize,
    ) -> (steps: usize)
        ensures
            (final(self)@, steps as nat) == flight_of(
                model,
                (Scene { targets: targets@, mean, std, dt, force_scale, spin_coefficient }),
                old(self)@,
                max_steps as nat,
            ),
            steps <= max_steps,
            steps < max_steps ==> final(self)@.has_exited(),
            old(self)@.well_formed() ==> final(self)@.well_formed(),
    {
        let ghost scene = Scene { targets: targets@, mean, std, dt, force_scale, spin_coefficient };
        let ghost whole = flight_of(model, scene, self@, max_steps as nat);
        let mut steps: usize = 0;
        while steps < max_steps && !self.has_exited()
            invariant
                scene == (Scene { targets: targets@, mean, std, dt, force_scale, spin_coefficient }),
                steps <= max_steps,
                whole.0 == flight_of(model, scene, self@, (max_steps - steps) as nat).0,
                whole.1 == flight_of(model, scene, self@, (max_steps - steps) as nat).1 + steps,
                old(self)@.well_formed() ==> self@.well_formed(),
            decreases max_steps - steps,
        {
            proof {
                lemma_flight_unfolds(model, scene, self@, (max_steps - steps) as nat);
            }
            self.advance(model, targets, mean, std, dt, force_scale, spin_coefficient);
            steps += 1;
        }
        steps
    }
}

/// Fires `params.num_electrons` electrons at the given targets, with impact
/// parameters evenly spaced from `-max_impact_parameter` to
/// `max_impact_parameter`, and flies each until it leaves the bounding box
/// or has made `params.max_steps` steps.
///
/// A scenario of fewer than two electrons is rejected. Every electron that
/// is returned has a thinned trajectory that begins at its launch position.
pub fn scatter<R: Regressor>(
    model: &R,
    targets: &Vec<TargetCharge>,
    params: &ScatteringParams,
    target_mean: Fixed,
    target_std: Fixed,
    spin_coefficient: Fixed,
) -> (result: Result<Vec<Electron>, ScatteringError>)
    ensures
        params.num_electrons <= 1 ==> result == Err::<Vec<Electron>, ScatteringError>(
            ScatteringError::TooFewElectrons,
        ),
        params.num_electrons > 1 ==> (result matches Ok(electrons) && {
            &&& states_of(electrons@) == scenario_of(
                model,
                scene_of(targets@, *params, target_mean, target_std, spin_coefficient),
                *params,
            )
            &&& forall|i: int|
                0 <= i < electrons.len() ==> {
                    &&& (#[trigger] electrons[i])@.well_formed()
                    &&& electrons[i].impact_parameter == impact_parameter_of(
                        i,
                        params.num_electrons as int,
                        params.max_impact_parameter,
                    )
                    &&& electrons[i]@.trajectory[0] == (fx(START_X as int), electrons[i].impact_parameter)
                }
        }),
{
    if params.num_electrons <= 1 {
        return Err(ScatteringError::TooFewElectrons);
    }
    let ghost scene = scene_of(targets@, *params, target_mean, target_std, spin_coefficient);
    let mut electrons: Vec<Electron> = Vec::new();
    let mut i: usize = 0;
    while i < params.num_electrons
        invariant
            scene == scene_of(targets@, *params, target_mean, target_std, spin_coefficient),
            params.num_electrons > 1,
            i <= params.num_electrons,
            electrons.len() == i,
            forall|k: int|
                0 <= k < electrons.len() ==> {
                    &&& (#[trigger] electrons[k])@ == flight_of(
                        model,
                        scene,
                        launch_of(*params, k),
                        params.max_steps as nat,
                    ).0
                    &&& electrons[k]@.well_formed()
                    &&& electrons[k].impact_parameter == impact_parameter_of(
                        k,
                        params.num_electrons as int,
                        params.max_impact_parameter,
                    )
                    &&& electrons[k]@.trajectory[0] == (fx(START_X as int), electrons[k].impact_parameter)
                },
        decreases params.num_electrons - i,
    {
        let impact = impact_parameter(i, params.num_electrons, params.max_impact_parameter);
        let mut electron = Electron::new(impact, params.initial_velocity);
        proof {
            lemma_flight_keeps(model, scene, electron@, params.max_steps as nat);
        }
        electron.fly(
            model,
            targets,
            target_mean,
            target_std,
            params.time_step,
            params.force_scale,
            spin_coefficient,
            params.max_steps,
        );
        electrons.push(electron);
        i += 1;
    }
    assert(states_of(electrons@) =~= scenario_of(model, scene, *params));
    Ok(electrons)
}

/// The scattering scenario off the default target, with the default strength
/// of the spin interaction.
pub fn simulate_scattering<R: Regressor>(
    model: &R,
    params: &ScatteringParams,
    target_mean: Fixed,
    target_std: Fixed,
) -> (result: Result<Vec<Electron>, ScatteringError>)
    ensures
        params.num_electrons <= 1 ==> result == Err::<Vec<Electron>, ScatteringError>(
            ScatteringError::TooFewElectrons,
        ),
        params.num_electrons > 1 ==> (result matches Ok(electrons) && {
            &&& states_of(electrons@) == scenario_of(
                model,
                scene_of(
                    crate::field::proton_quarks(),
                    *params,
                    target_mean,
                    target_std,
                    fx(SPIN_COEFFICIENT as int),
                ),
                *params,
            )
            &&& forall|i: int|
                0 <= i < electrons.len() ==> {
                    &&& (#[trigger] electrons[i])@.well_formed()
                    &&& electrons[i].impact_parameter == impact_parameter_of(
                        i,
                        params.num_electrons as int,
                        params.max_impact_parameter,
                    )
                    &&& electrons[i]@.trajectory[0] == (fx(START_X as int), electrons[i].impact_parameter)
                }
        }),
{
    let targets = crate::field::get_proton_quarks();
    scatter(model, &targets, params, target_mean, target_std, Fixed::from_raw(50_000))
}

} // verus!
