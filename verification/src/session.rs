//! The record of a session: what training, evaluation and scattering leave
//! for display and for storage.

use vstd::prelude::*;
use crate::fixed::Fixed;
use crate::fixed::SCALE;
use crate::evaluation::ModelReport;
use crate::scattering::Electron;

verus! {

/// Tangent of ten degrees, in millionths (0.176327).
pub const TAN_TEN_DEGREES: i64 = 176_327;

/// The path of one electron, as it is stored.
#[derive(Clone, Debug)]
pub struct ElectronData {
    pub trajectory: Vec<(Fixed, Fixed)>,
    pub impact_parameter: Fixed,
}

/// Everything that a session shows.
#[derive(Clone, Debug)]
pub struct AppData {
    /// Loss in physical units at each recorded epoch.
    pub loss_history: Vec<(usize, Fixed)>,
    /// Curve of the Cornell potential: radius and potential.
    pub potential_theory: Vec<(Fixed, Fixed)>,
    /// Curve of the regressor: radius and prediction.
    pub potential_nn: Vec<(Fixed, Fixed)>,
    /// Probe distances, with the Cornell potential and the prediction at each.
    pub test_distances: Vec<Fixed>,
    pub cornell_values: Vec<Fixed>,
    pub nn_values: Vec<Fixed>,
    /// Where the loss plot and the potential plot were written.
    pub loss_file: String,
    pub potential_file: String,
    /// Where the scattering plot was written, if there is one.
    pub scattering_file: Option<String>,
    /// The electrons of the scattering scenario, if one was run.
    pub electrons: Option<Vec<ElectronData>>,
}

/// A copy of a recorded trajectory.
fn copy_points(points: &Vec<(Fixed, Fixed)>) -> (copy: Vec<(Fixed, Fixed)>)
    ensures
        copy@ == points@,
{
    let mut copy: Vec<(Fixed, Fixed)> = Vec::new();
    let mut i: usize = 0;
    while i < points.len()
        invariant
            i <= points.len(),
            copy@ == points@.take(i as int),
        decreases points.len() - i,
    {
        copy.push(points[i]);
        assert(points@.take(i + 1) =~= points@.take(i as int).push(points@[i as int]));
        i += 1;
    }
    assert(points@.take(points.len() as int) =~= points@);
    copy
}

impl ElectronData {
    /// What is stored of an electron: its trajectory and its impact parameter.
    pub fn from_electron(electron: &Electron) -> (data: ElectronData)
        ensures
            data.trajectory@ == electron.trajectory@,
            data.impact_parameter == electron.impact_parameter,
    {
        ElectronData {
            trajectory: copy_points(&electron.trajectory),
            impact_parameter: electron.impact_parameter,
        }
    }
}

/// What is stored of the electrons of a scenario, in their order.
pub fn electron_records(electrons: &Vec<Electron>) -> (records: Vec<ElectronData>)
    ensures
        records.len() == electrons.len(),
        forall|i: int|
            0 <= i < electrons.len() ==> (#[trigger] records[i]).trajectory@ == electrons[i].trajectory@
                && records[i].impact_parameter == electrons[i].impact_parameter,
{
    let mut records: Vec<ElectronData> = Vec::new();
    let mut i: usize = 0;
    while i < electrons.len()
        invariant
            i <= electrons.len(),
            records.len() == i,
            forall|k: int|
                0 <= k < i ==> (#[trigger] records[k]).trajectory@ == electrons[k].trajectory@
                    && records[k].impact_parameter == electrons[k].impact_parameter,
        decreases electrons.len() - i,
    {
        records.push(ElectronData::from_electron(&electrons[i]));
        i += 1;
    }
    records
}

impl AppData {
    /// The record of a session from its parts: the loss history of training,
    /// the report on the model, the places of the plots and the electrons of
    /// the scattering scenario.
    pub fn new(
        loss_history: Vec<(usize, Fixed)>,
        report: ModelReport,
        loss_file: String,
        potential_file: String,
        scattering_file: Option<String>,
        electrons: Option<Vec<ElectronData>>,
    ) -> (data: AppData)
        ensures
            data.loss_history == loss_history,
            data.potential_theory == report.potential_theory,
            data.potential_nn == report.potential_nn,
            data.test_distances == report.test_distances,
            data.cornell_values == report.cornell_values,
            data.nn_values == report.nn_values,
            data.loss_file == loss_file,
            data.potential_file == potential_file,
            data.scattering_file == scattering_file,
            data.electrons == electrons,
    {
        AppData {
            loss_history,
            potential_theory: report.potential_theory,
            potential_nn: report.potential_nn,
            test_distances: report.test_distances,
            cornell_values: report.cornell_values,
            nn_values: report.nn_values,
            loss_file,
            potential_file,
            scattering_file,
            electrons,
        }
    }
}

/// A direction with horizontal part `run` and vertical part `rise` makes an
/// angle of more than ten degrees with the horizontal axis: the size of
/// `rise` is more than the tangent of ten degrees times the size of `run`.
/// A direction without horizontal part is at a right angle, unless it is no
/// direction at all.
pub open spec fn is_wide_angle(run: int, rise: int) -> bool {
    vstd::math::abs(rise) * SCALE > TAN_TEN_DEGREES * vstd::math::abs(run)
}

/// Whether a velocity makes an angle of more than ten degrees with the
/// horizontal axis.
pub fn deflects_widely(vx: Fixed, vy: Fixed) -> (wide: bool)
    ensures
        wide == is_wide_angle(vx@, vy@),
{
    points_widely(vx.raw as i128, vy.raw as i128)
}

/// Whether a direction makes an angle of more than ten degrees with the
/// horizontal axis.
fn points_widely(run: i128, rise: i128) -> (wide: bool)
    requires
        -0x1_0000_0000_0000_0000 <= run <= 0x1_0000_0000_0000_0000,
        -0x1_0000_0000_0000_0000 <= rise <= 0x1_0000_0000_0000_0000,
    ensures
        wide == is_wide_angle(run as int, rise as int),
{
    let run_size: i128 = if run < 0 {
        -run
    } else {
        run
    };
    let rise_size: i128 = if rise < 0 {
        -rise
    } else {
        rise
    };
    rise_size * 1_000_000 > 176_327 * run_size
}

/// How many electrons were deflected by more than ten degrees, and how many
/// by less.
#[derive(Clone, Copy, Debug, PartialEq, Eq, Structural)]
pub struct ScatteringStatistics {
    pub large_angle: usize,
    pub small_angle: usize,
}

/// The number of the first `upto` electrons whose final velocity makes an
/// angle of more than ten degrees with the horizontal axis.
pub open spec fn wide_flights(electrons: Seq<Electron>, upto: int) -> int
    decreases upto,
{
    if upto <= 0 {
        0
    } else {
        wide_flights(electrons, upto - 1) + if is_wide_angle(
            electrons[upto - 1].vx@,
            electrons[upto - 1].vy@,
        ) {
            1int
        } else {
            0int
        }
    }
}

/// Counts the electrons by the angle of their final velocity.
pub fn scattering_statistics(electrons: &Vec<Electron>) -> (statistics: ScatteringStatistics)
    ensures
        statistics.large_angle == wide_flights(electrons@, electrons.len() as int),
        statistics.large_angle + statistics.small_angle == electrons.len(),
{
    let mut large_angle: usize = 0;
    let mut small_angle: usize = 0;
    let mut i: usize = 0;
    while i < electrons.len()
        invariant
            i <= electrons.len(),
            large_angle == wide_flights(electrons@, i as int),
            large_angle + small_angle == i,
        decreases electrons.len() - i,
    {
        if deflects_widely(electrons[i].vx, electrons[i].vy) {
            large_angle += 1;
        } else {
            small_angle += 1;
        }
        i += 1;
    }
    ScatteringStatistics { large_angle, small_angle }
}

/// The stored path runs, from its first point to its last, at an angle of
/// more than ten degrees to the horizontal axis.
pub open spec fn is_wide_path(record: ElectronData) -> bool {
    record.trajectory.len() > 0 && is_wide_angle(
        record.trajectory@.last().0@ - record.trajectory@[0].0@,
        record.trajectory@.last().1@ - record.trajectory@[0].1@,
    )
}

/// The number of the first `upto` stored paths that run at a wide angle.
pub open spec fn wide_paths(records: Seq<ElectronData>, upto: int) -> int
    decreases upto,
{
    if upto <= 0 {
        0
    } else {
        wide_paths(records, upto - 1) + if is_wide_path(records[upto - 1]) {
            1int
        } else {
            0int
        }
    }
}

/// The number of the first `upto` stored paths that hold a point.
pub open spec fn drawn_paths(records: Seq<ElectronData>, upto: int) -> int
    decreases upto,
{
    if upto <= 0 {
        0
    } else {
        drawn_paths(records, upto - 1) + if records[upto - 1].trajectory.len() > 0 {
            1int
        } else {
            0int
        }
    }
}

/// Counts stored paths by the angle from their first point to their last.
/// A path without a point is counted on neither side.
pub fn path_statistics(records: &Vec<ElectronData>) -> (statistics: ScatteringStatistics)
    ensures
        statistics.large_angle == wide_paths(records@, records.len() as int),
        statistics.large_angle + statistics.small_angle == drawn_paths(records@, records.len() as int),
{
    let mut large_angle: usize = 0;
    let mut small_angle: usize = 0;
    let mut i: usize = 0;
    while i < records.len()
        invariant
            i <= records.len(),
            large_angle == wide_paths(records@, i as int),
            large_angle + small_angle == drawn_paths(records@, i as int),
            large_angle + small_angle <= i,
        decreases records.len() - i,
    {
        let path = &records[i].trajectory;
        let n = path.len();
        if n > 0 {
            let first = path[0];
            let last = path[n - 1];
            let run: i128 = (last.0.raw as i128) - (first.0.raw as i128);
            let rise: i128 = (last.1.raw as i128) - (first.1.raw as i128);
            if points_widely(run, rise) {
                large_angle += 1;
            } else {
                small_angle += 1;
            }
        }
        i += 1;
    }
    ScatteringStatistics { large_angle, small_angle }
}

} // verus!
