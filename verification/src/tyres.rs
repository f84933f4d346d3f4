//! Which devices and sims need tyre diameters, and the car name of a frame.
use vstd::prelude::*;
use vstd::slice::slice_subrange;
use vstd::string::StrSliceExecFns;
use crate::names::{bytes_eq_ignore_case, eq_ignore_case, EFFECT_ABS, EFFECT_TYRE_LOCK, EFFECT_TYRE_SLIP};
use crate::serial::{c_string, c_string_end};
use crate::simdata::{CAR_BYTES, OFF_CAR};

verus! {

pub const LOAD_NOT_FOUND: i32 = -1;
pub const LOAD_UNAVAILABLE: i32 = 1;
pub const USECONFIG_PLAY: bool = true;

/// What a sim computes and supports around tyres.
#[derive(Clone, Copy, Debug, PartialEq, Eq, Structural)]
pub struct TyreSimFlags {
    pub calculates_diameter: bool,
    pub supports_haptics: bool,
    pub calculates_slip: bool,
}

/// A sim's tyre flags with whether a diameters file is used and named.
#[derive(Clone, Copy, Debug, PartialEq, Eq, Structural)]
pub struct TyreSimNeed {
    pub calculates_diameter: bool,
    pub supports_haptics: bool,
    pub calculates_slip: bool,
    pub use_config: bool,
    pub has_config_path: bool,
}

/// What one tyre check concluded.
#[derive(Clone, Copy, Debug, PartialEq, Eq, Structural)]
pub struct TyreCheck {
    pub config_checked: bool,
    pub stop_timer: bool,
    pub updated: bool,
}

/// Tyre lock, tyre slip and ABS effects need tyre diameters.
pub fn device_needs_tyre_diameter(effect: i32) -> (r: bool)
    ensures
        r == (effect == EFFECT_TYRE_LOCK || effect == EFFECT_TYRE_SLIP || effect == EFFECT_ABS),
{
    effect == EFFECT_TYRE_LOCK || effect == EFFECT_TYRE_SLIP || effect == EFFECT_ABS
}

/// A sim needs measured diameters when it supports haptics but computes
/// neither diameters nor slip, and a diameters file is used and named.
pub fn sim_needs_tyre_diameter(need: &TyreSimNeed) -> (r: bool)
    ensures
        r == (!need.calculates_diameter && need.supports_haptics && !need.calculates_slip && need.use_config
            && need.has_config_path),
{
    if need.calculates_diameter || !need.supports_haptics || need.calculates_slip {
        return false;
    }
    need.use_config && need.has_config_path
}

/// A diameters path was given.
pub fn config_path_present(path: &str) -> (r: bool)
    ensures
        r == (path@.len() > 0),
{
    path.unicode_len() > 0
}

/// The car name field of a frame, cut at the frame's end, before its first NUL.
pub open spec fn spec_car_bytes(frame: Seq<u8>) -> Seq<u8> {
    if frame.len() <= OFF_CAR {
        Seq::empty()
    } else {
        let end = if OFF_CAR + CAR_BYTES < frame.len() { (OFF_CAR + CAR_BYTES) as int } else { frame.len() as int };
        c_string(frame.subrange(OFF_CAR as int, end))
    }
}

/// The car name of a frame.
pub fn car_bytes(frame: &[u8]) -> (r: &[u8])
    ensures
        r@ == spec_car_bytes(frame@),
{
    if frame.len() <= OFF_CAR {
        return slice_subrange(frame, 0, 0);
    }
    let end = if OFF_CAR + CAR_BYTES < frame.len() { OFF_CAR + CAR_BYTES } else { frame.len() };
    let raw = slice_subrange(frame, OFF_CAR, end);
    let mut n: usize = 0;
    while n < raw.len() && raw[n] != 0
        invariant
            n <= raw@.len(),
            c_string_end(raw@, n as int) == c_string_end(raw@, 0),
        decreases raw@.len() - n,
    {
        n += 1;
    }
    slice_subrange(raw, 0, n)
}


/// A stored `sim` value: the integer when it fits
/// in an `i32`, 0 when it is missing, not an integer, or out of range.
pub fn stored_sim(raw: Option<i64>) -> (r: i32)
    ensures
        r == (match raw {
            Some(v) => if i32::MIN <= v <= i32::MAX { v as i32 } else { 0i32 },
            None => 0i32,
        }),
{
    match raw {
        Some(v) => if -0x8000_0000 <= v && v <= 0x7fff_ffff { v as i32 } else { 0 },
        None => 0,
    }
}

/// A saved diameters entry is for this car in this sim: the car is named,
/// the entry's `car` is set, not empty, and equal to it ignoring ASCII case,
/// and the entry's `sim` (0 when missing) is the sim's executable id.
pub open spec fn entry_matches_spec(car: Seq<u8>, saved: Option<Seq<u8>>, stored: i32, simexe: u64) -> bool {
    &&& car.len() > 0
    &&& saved is Some
    &&& saved.unwrap().len() > 0
    &&& eq_ignore_case(car, saved.unwrap())
    &&& (stored as u64) == simexe
}

/// Whether a saved entry (its `car` text and its `sim` value) is for this car and sim.
pub fn entry_matches(car: &[u8], saved: Option<&[u8]>, sim: Option<i64>, simexe: u64) -> (r: bool)
    ensures
        r == entry_matches_spec(car@, match saved { Some(s) => Some(s@), None => None }, stored_sim_spec(sim), simexe),
{
    if car.len() == 0 {
        return false;
    }
    let Some(saved) = saved else {
        return false;
    };
    if saved.len() == 0 || !bytes_eq_ignore_case(car, saved) {
        return false;
    }
    let stored = stored_sim(sim);
    stored as u64 == simexe
}

pub open spec fn stored_sim_spec(raw: Option<i64>) -> i32 {
    match raw {
        Some(v) => if i32::MIN <= v <= i32::MAX { v as i32 } else { 0i32 },
        None => 0i32,
    }
}

/// What the caller does next in a tyre check.
#[derive(Clone, Copy, Debug, PartialEq, Eq, Structural)]
pub enum TyreCheckStep {
    /// Load saved diameters for the car into the frame.
    Load,
    /// Try to measure the diameters from the frame.
    Measure,
    /// Look the car up in the diameters file, without applying it.
    Lookup,
    /// Append the car's diameters to the file.
    Save,
    /// The check is over.
    Done,
}

/// A tyre check under way: the next step and what it has concluded so far.
#[derive(Clone, Copy, Debug, PartialEq, Eq, Structural)]
pub struct TyreCheckRun {
    pub step: TyreCheckStep,
    pub car_present: bool,
    pub check: TyreCheck,
}

/// After loading: measure when the car is named and still has no diameters.
pub open spec fn after_load(car: bool, known: bool, checked: bool, updated: bool) -> TyreCheckRun {
    if car && !known {
        TyreCheckRun { step: TyreCheckStep::Measure, car_present: car, check: TyreCheck { config_checked: checked, stop_timer: false, updated } }
    } else {
        finishing(car, known, checked, updated)
    }
}

/// With diameters, look the car up (and stop the timer); without, stop.
pub open spec fn finishing(car: bool, known: bool, checked: bool, updated: bool) -> TyreCheckRun {
    if known {
        TyreCheckRun { step: TyreCheckStep::Lookup, car_present: car, check: TyreCheck { config_checked: checked, stop_timer: true, updated } }
    } else {
        TyreCheckRun { step: TyreCheckStep::Done, car_present: car, check: TyreCheck { config_checked: checked, stop_timer: false, updated } }
    }
}

/// How a check starts: load the saved diameters when the car is named, the
/// frame known none and the file was not read yet; otherwise as after a load.
pub open spec fn tyre_check_start(car: bool, known: bool, checked: bool) -> TyreCheckRun {
    if car && !known && !checked {
        TyreCheckRun { step: TyreCheckStep::Load, car_present: car, check: TyreCheck { config_checked: checked, stop_timer: false, updated: false } }
    } else {
        after_load(car, known, checked, false)
    }
}

/// One step on: `known` is whether the frame known diameters after the step,
/// `ok` whether a measurement succeeded (`Measure`) or the car was found
/// (`Lookup`).
pub open spec fn tyre_check_next(run: TyreCheckRun, known: bool, ok: bool) -> TyreCheckRun {
    let c = run.check;
    match run.step {
        TyreCheckStep::Load => after_load(run.car_present, known, true, known),
        TyreCheckStep::Measure => finishing(run.car_present, known, c.config_checked, c.updated || ok),
        TyreCheckStep::Lookup => if ok {
            TyreCheckRun { step: TyreCheckStep::Done, ..run }
        } else {
            TyreCheckRun { step: TyreCheckStep::Save, ..run }
        },
        TyreCheckStep::Save => TyreCheckRun { step: TyreCheckStep::Done, ..run },
        TyreCheckStep::Done => run,
    }
}

impl TyreCheckRun {
    /// Starts a check for a frame whose car is named (`car_present`), which
    /// known diameters or not, with the file read before or not.
    pub fn start(car_present: bool, has_diameter: bool, config_checked: bool) -> (r: Self)
        ensures
            r == tyre_check_start(car_present, has_diameter, config_checked),
    {
        if car_present && !has_diameter && !config_checked {
            TyreCheckRun {
                step: TyreCheckStep::Load,
                car_present,
                check: TyreCheck { config_checked, stop_timer: false, updated: false },
            }
        } else {
            Self::after_load_run(car_present, has_diameter, config_checked, false)
        }
    }

    fn after_load_run(car: bool, known: bool, checked: bool, updated: bool) -> (r: Self)
        ensures
            r == after_load(car, known, checked, updated),
    {
        if car && !known {
            TyreCheckRun {
                step: TyreCheckStep::Measure,
                car_present: car,
                check: TyreCheck { config_checked: checked, stop_timer: false, updated },
            }
        } else {
            Self::finishing_run(car, known, checked, updated)
        }
    }

    fn finishing_run(car: bool, known: bool, checked: bool, updated: bool) -> (r: Self)
        ensures
            r == finishing(car, known, checked, updated),
    {
        TyreCheckRun {
            step: if known { TyreCheckStep::Lookup } else { TyreCheckStep::Done },
            car_present: car,
            check: TyreCheck { config_checked: checked, stop_timer: known, updated },
        }
    }

    /// Moves past the current step (see `tyre_check_next`).
    pub fn advance(&mut self, has_diameter: bool, ok: bool)
        ensures
            *final(self) == tyre_check_next(*old(self), has_diameter, ok),
    {
        let c = self.check;
        match self.step {
            TyreCheckStep::Load => {
                *self = Self::after_load_run(self.car_present, has_diameter, true, has_diameter);
            },
            TyreCheckStep::Measure => {
                *self = Self::finishing_run(self.car_present, has_diameter, c.config_checked, c.updated || ok);
            },
            TyreCheckStep::Lookup => {
                self.step = if ok { TyreCheckStep::Done } else { TyreCheckStep::Save };
            },
            TyreCheckStep::Save => {
                self.step = TyreCheckStep::Done;
            },
            TyreCheckStep::Done => {},
        }
    }
}

/// A tyre check to run: the car name of the frame, the diameters file,
/// and whether that file was read for this car already.
#[derive(Clone, Debug)]
pub struct TyreCheckRequest {
    pub car: Vec<u8>,
    pub path: String,
    pub config_checked: bool,
}

impl TyreCheckRequest {
    /// The first step of `check_tyres` for this request, given whether the
    /// frame has diameters.
    pub fn begin(&self, has_diameter: bool) -> (r: TyreCheckRun)
        ensures
            r == tyre_check_start(self.car@.len() > 0, has_diameter, self.config_checked),
    {
        TyreCheckRun::start(self.car.len() > 0, has_diameter, self.config_checked)
    }
}

/// Every check is over after at most four steps, whatever the steps report,
/// and a check that starts without a named car and without diameters ends
/// at once without touching the file or the timer.
pub proof fn tyre_check_ends(
    car: bool,
    known0: bool,
    checked0: bool,
    k1: bool, o1: bool, k2: bool, o2: bool, k3: bool, o3: bool, k4: bool, o4: bool,
)
    ensures
        ({
            let r0 = tyre_check_start(car, known0, checked0);
            let r4 = tyre_check_next(tyre_check_next(tyre_check_next(tyre_check_next(r0, k1, o1), k2, o2), k3, o3), k4, o4);
            r4.step == TyreCheckStep::Done
        }),
        !car && !known0 ==> tyre_check_start(car, known0, checked0) == (TyreCheckRun {
            step: TyreCheckStep::Done,
            car_present: car,
            check: TyreCheck { config_checked: checked0, stop_timer: false, updated: false },
        }),
{
}

} // verus!
