//! Haptic effect kinds and the integer gates of the haptic math: whether the
//! car rolls, and whether every tyre diameter is known.
use vstd::prelude::*;
use crate::simdata::{le_u64_at, OFF_TYRE_DIAMETER, PROXIMITY_CARS, WHEEL_COUNT};
use crate::telemetry::Telemetry;

verus! {

pub const SUSP_MIN_SPEED_KMH: u32 = 1;
/// `SIMULATORAPI_DIRT_RALLY_2` in simapi.
pub const SIMULATOR_DIRT_RALLY_2: u8 = 6;
/// The bit pattern of positive infinity; positive `f64`s lie in `1..=` it.
pub const F64_POSITIVE_INFINITY_BITS: u64 = 0x7ff0_0000_0000_0000;

/// What a haptic effect follows.
#[derive(Clone, Copy, Debug, PartialEq, Eq, Structural)]
pub enum VibrationEffect {
    EngineRpm,
    GearShift,
    AbsBrakes,
    TyreSlip,
    TyreLock,
    Suspension,
}

/// The tyres a haptic effect reads.
#[derive(Clone, Copy, Debug, PartialEq, Eq, Structural)]
pub enum TyreId {
    FrontLeft,
    FrontRight,
    RearLeft,
    RearRight,
    Fronts,
    Rears,
    AllFour,
}

/// How a haptic effect's intensity shapes its output.
#[derive(Clone, Copy, Debug, PartialEq, Eq, Structural)]
pub enum Modulation {
    Unmodulated,
    Frequency,
    Amplify,
}

impl VibrationEffect {
    /// The effect number of the configuration.
    pub fn code(self) -> (r: i32)
        ensures
            0 <= r <= 5,
            r == (match self {
                VibrationEffect::EngineRpm => 0i32,
                VibrationEffect::GearShift => 1,
                VibrationEffect::AbsBrakes => 2,
                VibrationEffect::TyreSlip => 3,
                VibrationEffect::TyreLock => 4,
                VibrationEffect::Suspension => 5,
            }),
    {
        match self {
            VibrationEffect::EngineRpm => 0,
            VibrationEffect::GearShift => 1,
            VibrationEffect::AbsBrakes => 2,
            VibrationEffect::TyreSlip => 3,
            VibrationEffect::TyreLock => 4,
            VibrationEffect::Suspension => 5,
        }
    }
}

impl TyreId {
    /// The tyre number of the configuration.
    pub fn code(self) -> (r: i32)
        ensures
            0 <= r <= 6,
            r == (match self {
                TyreId::FrontLeft => 0i32,
                TyreId::FrontRight => 1,
                TyreId::RearLeft => 2,
                TyreId::RearRight => 3,
                TyreId::Fronts => 4,
                TyreId::Rears => 5,
                TyreId::AllFour => 6,
            }),
    {
        match self {
            TyreId::FrontLeft => 0,
            TyreId::FrontRight => 1,
            TyreId::RearLeft => 2,
            TyreId::RearRight => 3,
            TyreId::Fronts => 4,
            TyreId::Rears => 5,
            TyreId::AllFour => 6,
        }
    }
}

/// Whether an effect set on `selected` reads wheel `wheel` (0 front left,
/// 1 front right, 2 rear left, 3 rear right): all four, the one wheel, or
/// the wheels of the axle.
pub open spec fn spec_tyre_selected(selected: TyreId, wheel: int) -> bool {
    match selected {
        TyreId::AllFour => true,
        TyreId::Fronts => wheel == 0 || wheel == 1,
        TyreId::Rears => wheel == 2 || wheel == 3,
        TyreId::FrontLeft => wheel == 0,
        TyreId::FrontRight => wheel == 1,
        TyreId::RearLeft => wheel == 2,
        TyreId::RearRight => wheel == 3,
    }
}

pub fn tyre_selected(selected: TyreId, wheel: usize) -> (r: bool)
    ensures
        r == spec_tyre_selected(selected, wheel as int),
{
    match selected {
        TyreId::AllFour => true,
        TyreId::Fronts => wheel == 0 || wheel == 1,
        TyreId::Rears => wheel == 2 || wheel == 3,
        TyreId::FrontLeft => wheel == 0,
        TyreId::FrontRight => wheel == 1,
        TyreId::RearLeft => wheel == 2,
        TyreId::RearRight => wheel == 3,
    }
}

/// The rpm the engine shaker plays: nothing without a max rpm; the idle rpm
/// while the engine runs below it; the rpm itself; and with the engine
/// stopped in neutral (gear 1), the idle rpm.
pub open spec fn spec_engine_play_rpm(rpms: u32, maxrpm: u32, idlerpm: u32, gear: u32) -> u32 {
    if maxrpm == 0 {
        0
    } else if rpms > 0 {
        if idlerpm > 0 && rpms < idlerpm { idlerpm } else { rpms }
    } else if gear == 1 && idlerpm > 0 {
        idlerpm
    } else {
        0
    }
}

pub fn engine_play_rpm(rpms: u32, maxrpm: u32, idlerpm: u32, gear: u32) -> (r: u32)
    ensures
        r == spec_engine_play_rpm(rpms, maxrpm, idlerpm, gear),
{
    if maxrpm == 0 {
        return 0;
    }
    if rpms > 0 {
        if idlerpm > 0 && rpms < idlerpm {
            return idlerpm;
        }
        return rpms;
    }
    if gear == 1 && idlerpm > 0 {
        return idlerpm;
    }
    0
}

/// An `f64` bit pattern of a value greater than zero: sign clear, not zero,
/// not NaN.
pub open spec fn positive_f64_bits(bits: u64) -> bool {
    1 <= bits <= F64_POSITIVE_INFINITY_BITS
}

/// Every tyre has a diameter greater than zero.
pub fn has_tyre_diameter(sim: &Telemetry) -> (r: bool)
    ensures
        r == (forall|i: int| 0 <= i < WHEEL_COUNT ==> #[trigger] positive_f64_bits(le_u64_at(sim@, OFF_TYRE_DIAMETER + 8 * i))),
{
    let mut index: usize = 0;
    while index < WHEEL_COUNT
        invariant
            index <= WHEEL_COUNT,
            forall|i: int| 0 <= i < index ==> #[trigger] positive_f64_bits(le_u64_at(sim@, OFF_TYRE_DIAMETER + 8 * i)),
        decreases WHEEL_COUNT - index,
    {
        let bits = sim.tyre_diameter_bits(index);
        if !(1 <= bits && bits <= F64_POSITIVE_INFINITY_BITS) {
            assert(!positive_f64_bits(le_u64_at(sim@, OFF_TYRE_DIAMETER + 8 * index)));
            return false;
        }
        index += 1;
    }
    true
}

/// The chassis moves at 1 km/h or more.
pub fn chassis_is_rolling(sim: &Telemetry) -> (r: bool)
    ensures
        r == (crate::simdata::le_u32_at(sim@, crate::simdata::OFF_VELOCITY as int) >= SUSP_MIN_SPEED_KMH),
{
    sim.velocity() >= SUSP_MIN_SPEED_KMH
}

/// How many nearby cars the frame holds.
pub fn proximity_car_count() -> (r: usize)
    ensures
        r == PROXIMITY_CARS,
{
    PROXIMITY_CARS
}

} // verus!
