//! Telemetry fields of one `SimData` frame: typed reads and writes at the
//! frame's offsets. Floating-point fields are read and written as bit patterns.
use vstd::prelude::*;
use vstd::string::StringSliceAdditionalSpecFns;
use crate::simdata::{F64_SIZE, GEARC_BYTES, OFF_ABS, OFF_BRAKE, OFF_BRAKE_TEMP, OFF_FUEL, OFF_GAS, OFF_GEAR, OFF_GEARC, OFF_IDLERPM, OFF_MAXRPM, OFF_MTICK, OFF_PLAYER_FLAG, OFF_PROXIMITY, OFF_PROX_RADIUS, OFF_PROX_THETA, OFF_PULSES, OFF_RPMS, OFF_SIMAPI, OFF_SIMEXE, OFF_SIMON, OFF_SIMSTATUS, OFF_SUSP_VELOCITY, OFF_TURBOBOOST, OFF_TYRE_DIAMETER, OFF_TYRE_RPS, OFF_TYRE_SLIP_RATIO, OFF_TYRE_TEMP, OFF_VELOCITY, OFF_XVELOCITY, OFF_YVELOCITY, OFF_ZVELOCITY, PROXIMITY_CARS, PROXIMITY_STRIDE, SIMDATA_SIZE, SimDataBuf, WHEEL_COUNT, le_u32_at, le_u64_at, u32_bytes, u32_bytes_round_trip, u64_bytes, u64_bytes_round_trip, write_at};
use crate::text::{all_ascii, chars_of, lossy_text, utf8_lossy};
use crate::serial::{c_string, c_string_end};

verus! {

proof fn lemma_read_u32_after_write(b: Seq<u8>, off: int, v: u32)
    requires
        0 <= off,
        off + 4 <= b.len(),
    ensures
        le_u32_at(write_at(b, off, u32_bytes(v)), off) == v,
{
    let w = write_at(b, off, u32_bytes(v));
    assert(w[off] == u32_bytes(v)[0]);
    assert(w[off + 1] == u32_bytes(v)[1]);
    assert(w[off + 2] == u32_bytes(v)[2]);
    assert(w[off + 3] == u32_bytes(v)[3]);
    u32_bytes_round_trip(v);
}

proof fn lemma_read_u64_after_write(b: Seq<u8>, off: int, v: u64)
    requires
        0 <= off,
        off + 8 <= b.len(),
    ensures
        le_u64_at(write_at(b, off, u64_bytes(v)), off) == v,
{
    let w = write_at(b, off, u64_bytes(v));
    assert(w[off] == u64_bytes(v)[0]);
    assert(w[off + 1] == u64_bytes(v)[1]);
    assert(w[off + 2] == u64_bytes(v)[2]);
    assert(w[off + 3] == u64_bytes(v)[3]);
    assert(w[off + 4] == u64_bytes(v)[4]);
    assert(w[off + 5] == u64_bytes(v)[5]);
    assert(w[off + 6] == u64_bytes(v)[6]);
    assert(w[off + 7] == u64_bytes(v)[7]);
    u64_bytes_round_trip(v);
}

/// The telemetry of one frame.
pub struct Telemetry {
    buf: SimDataBuf,
}

impl View for Telemetry {
    type V = Seq<u8>;

    closed spec fn view(&self) -> Seq<u8> {
        self.buf@
    }
}

impl Telemetry {
    /// A zeroed frame.
    pub fn new() -> (t: Self)
        ensures
            t@ == Seq::new(SIMDATA_SIZE as nat, |_i: int| 0u8),
    {
        Telemetry { buf: SimDataBuf::new() }
    }

    /// The telemetry of a frame.
    pub fn from_buf(buf: SimDataBuf) -> (t: Self)
        ensures
            t@ == buf@,
    {
        Telemetry { buf }
    }

    /// A copy of the frame.
    pub fn clone_buf(&self) -> (t: Self)
        ensures
            t@ == self@,
    {
        Telemetry { buf: self.buf.clone() }
    }

    /// The frame's bytes.
    pub fn as_bytes(&self) -> (r: &[u8])
        ensures
            r@ == self@,
            r@.len() == SIMDATA_SIZE,
    {
        self.buf.as_bytes()
    }

    /// Whether the sim is on.
    pub fn simon(&self) -> (r: bool)
        ensures
            r == (self@[OFF_SIMON as int] != 0),
    {
        self.buf.get_u8(OFF_SIMON) != 0
    }

    pub fn set_simon(&mut self, value: bool)
        ensures
            final(self)@ == old(self)@.update(OFF_SIMON as int, if value { 1u8 } else { 0u8 }),
    {
        self.buf.set_bool(OFF_SIMON, value);
    }

    /// The gear letter: the gear bytes before the first NUL, as UTF-8 read lossily.
    pub fn gearc(&self) -> (s: String)
        ensures
            s@ == utf8_lossy(c_string(self@.subrange(OFF_GEARC as int, OFF_GEARC + GEARC_BYTES))),
            all_ascii(c_string(self@.subrange(OFF_GEARC as int, OFF_GEARC + GEARC_BYTES))) ==> s@ == chars_of(
                c_string(self@.subrange(OFF_GEARC as int, OFF_GEARC + GEARC_BYTES)),
            ),
    {
        let bytes = self.buf.get_bytes(OFF_GEARC, GEARC_BYTES);
        let mut n: usize = 0;
        while n < bytes.len() && bytes[n] != 0
            invariant
                n <= bytes@.len(),
                c_string_end(bytes@, n as int) == c_string_end(bytes@, 0),
            decreases bytes@.len() - n,
        {
            n += 1;
        }
        let mut prefix: Vec<u8> = Vec::new();
        let mut i: usize = 0;
        while i < n
            invariant
                i <= n <= bytes@.len(),
                prefix@ == bytes@.subrange(0, i as int),
            decreases n - i,
        {
            prefix.push(bytes[i]);
            i += 1;
            assert(prefix@ =~= bytes@.subrange(0, i as int));
        }
        lossy_text(prefix.as_slice())
    }

    /// Stores the first three bytes of `text` as the gear letter, zero-padded.
    pub fn set_gearc(&mut self, text: &str)
        ensures
            final(self)@ == write_at(
                old(self)@,
                OFF_GEARC as int,
                gear_field(text.spec_bytes()),
            ),
    {
        let src = text.as_bytes();
        let mut bytes: [u8; 3] = [0, 0, 0];
        let mut i: usize = 0;
        while i < GEARC_BYTES && i < src.len()
            invariant
                src@ == text.spec_bytes(),
                i <= GEARC_BYTES,
                i <= src@.len(),
                forall|k: int| 0 <= k < GEARC_BYTES ==> #[trigger] bytes@[k] == (if k < i { src@[k] } else { 0u8 }),
            decreases GEARC_BYTES - i,
        {
            bytes[i] = src[i];
            i += 1;
        }
        assert(bytes@ =~= Seq::new(GEARC_BYTES as nat, |k: int| if k < text.spec_bytes().len() { text.spec_bytes()[k] } else { 0u8 }));
        self.buf.set_bytes(OFF_GEARC, &bytes);
    }

    pub fn pulses(&self) -> (r: u32)
        ensures
            r == le_u32_at(self@, OFF_PULSES as int),
    {
        self.buf.get_u32(OFF_PULSES)
    }

    pub fn set_pulses(&mut self, value: u32)
        ensures
            final(self)@ == write_at(old(self)@, OFF_PULSES as int, u32_bytes(value)),
            le_u32_at(final(self)@, OFF_PULSES as int) == value,
    {
        self.buf.set_u32(OFF_PULSES, value);
        proof { lemma_read_u32_after_write(old(self)@, OFF_PULSES as int, value); }
    }

    pub fn velocity(&self) -> (r: u32)
        ensures
            r == le_u32_at(self@, OFF_VELOCITY as int),
    {
        self.buf.get_u32(OFF_VELOCITY)
    }

    pub fn set_velocity(&mut self, value: u32)
        ensures
            final(self)@ == write_at(old(self)@, OFF_VELOCITY as int, u32_bytes(value)),
            le_u32_at(final(self)@, OFF_VELOCITY as int) == value,
    {
        self.buf.set_u32(OFF_VELOCITY, value);
        proof { lemma_read_u32_after_write(old(self)@, OFF_VELOCITY as int, value); }
    }

    pub fn rpms(&self) -> (r: u32)
        ensures
            r == le_u32_at(self@, OFF_RPMS as int),
    {
        self.buf.get_u32(OFF_RPMS)
    }

    pub fn set_rpms(&mut self, value: u32)
        ensures
            final(self)@ == write_at(old(self)@, OFF_RPMS as int, u32_bytes(value)),
            le_u32_at(final(self)@, OFF_RPMS as int) == value,
    {
        self.buf.set_u32(OFF_RPMS, value);
        proof { lemma_read_u32_after_write(old(self)@, OFF_RPMS as int, value); }
    }

    pub fn gear(&self) -> (r: u32)
        ensures
            r == le_u32_at(self@, OFF_GEAR as int),
    {
        self.buf.get_u32(OFF_GEAR)
    }

    pub fn set_gear(&mut self, value: u32)
        ensures
            final(self)@ == write_at(old(self)@, OFF_GEAR as int, u32_bytes(value)),
            le_u32_at(final(self)@, OFF_GEAR as int) == value,
    {
        self.buf.set_u32(OFF_GEAR, value);
        proof { lemma_read_u32_after_write(old(self)@, OFF_GEAR as int, value); }
    }

    pub fn maxrpm(&self) -> (r: u32)
        ensures
            r == le_u32_at(self@, OFF_MAXRPM as int),
    {
        self.buf.get_u32(OFF_MAXRPM)
    }

    pub fn set_maxrpm(&mut self, value: u32)
        ensures
            final(self)@ == write_at(old(self)@, OFF_MAXRPM as int, u32_bytes(value)),
            le_u32_at(final(self)@, OFF_MAXRPM as int) == value,
    {
        self.buf.set_u32(OFF_MAXRPM, value);
        proof { lemma_read_u32_after_write(old(self)@, OFF_MAXRPM as int, value); }
    }

    pub fn idlerpm(&self) -> (r: u32)
        ensures
            r == le_u32_at(self@, OFF_IDLERPM as int),
    {
        self.buf.get_u32(OFF_IDLERPM)
    }

    pub fn set_idlerpm(&mut self, value: u32)
        ensures
            final(self)@ == write_at(old(self)@, OFF_IDLERPM as int, u32_bytes(value)),
            le_u32_at(final(self)@, OFF_IDLERPM as int) == value,
    {
        self.buf.set_u32(OFF_IDLERPM, value);
        proof { lemma_read_u32_after_write(old(self)@, OFF_IDLERPM as int, value); }
    }

    pub fn simstatus(&self) -> (r: u32)
        ensures
            r == le_u32_at(self@, OFF_SIMSTATUS as int),
    {
        self.buf.get_u32(OFF_SIMSTATUS)
    }

    pub fn set_simstatus(&mut self, value: u32)
        ensures
            final(self)@ == write_at(old(self)@, OFF_SIMSTATUS as int, u32_bytes(value)),
            le_u32_at(final(self)@, OFF_SIMSTATUS as int) == value,
    {
        self.buf.set_u32(OFF_SIMSTATUS, value);
        proof { lemma_read_u32_after_write(old(self)@, OFF_SIMSTATUS as int, value); }
    }

    pub fn mtick(&self) -> (r: u64)
        ensures
            r == le_u64_at(self@, OFF_MTICK as int),
    {
        self.buf.get_u64(OFF_MTICK)
    }

    pub fn set_mtick(&mut self, value: u64)
        ensures
            final(self)@ == write_at(old(self)@, OFF_MTICK as int, u64_bytes(value)),
            le_u64_at(final(self)@, OFF_MTICK as int) == value,
    {
        self.buf.set_u64(OFF_MTICK, value);
        proof { lemma_read_u64_after_write(old(self)@, OFF_MTICK as int, value); }
    }

    pub fn simexe(&self) -> (r: u64)
        ensures
            r == le_u64_at(self@, OFF_SIMEXE as int),
    {
        self.buf.get_u64(OFF_SIMEXE)
    }

    pub fn set_simexe(&mut self, value: u64)
        ensures
            final(self)@ == write_at(old(self)@, OFF_SIMEXE as int, u64_bytes(value)),
            le_u64_at(final(self)@, OFF_SIMEXE as int) == value,
    {
        self.buf.set_u64(OFF_SIMEXE, value);
        proof { lemma_read_u64_after_write(old(self)@, OFF_SIMEXE as int, value); }
    }

    pub fn player_flag(&self) -> (r: u8)
        ensures
            r == self@[OFF_PLAYER_FLAG as int],
    {
        self.buf.get_u8(OFF_PLAYER_FLAG)
    }

    pub fn set_player_flag(&mut self, value: u8)
        ensures
            final(self)@ == old(self)@.update(OFF_PLAYER_FLAG as int, value),
    {
        self.buf.set_u8(OFF_PLAYER_FLAG, value);
    }

    pub fn simapi(&self) -> (r: u8)
        ensures
            r == self@[OFF_SIMAPI as int],
    {
        self.buf.get_u8(OFF_SIMAPI)
    }

    pub fn set_simapi(&mut self, value: u8)
        ensures
            final(self)@ == old(self)@.update(OFF_SIMAPI as int, value),
    {
        self.buf.set_u8(OFF_SIMAPI, value);
    }

    /// The bit pattern of the `gas` field (`f64::from_bits` gives the value).
    pub fn gas_bits(&self) -> (r: u64)
        ensures
            r == le_u64_at(self@, OFF_GAS as int),
    {
        self.buf.get_f64_bits(OFF_GAS)
    }

    /// Stores the `gas` field from its bit pattern (`f64::to_bits`).
    pub fn set_gas_bits(&mut self, bits: u64)
        ensures
            final(self)@ == write_at(old(self)@, OFF_GAS as int, u64_bytes(bits)),
            le_u64_at(final(self)@, OFF_GAS as int) == bits,
    {
        self.buf.set_f64_bits(OFF_GAS, bits);
        proof { lemma_read_u64_after_write(old(self)@, OFF_GAS as int, bits); }
    }

    /// The bit pattern of the `brake` field (`f64::from_bits` gives the value).
    pub fn brake_bits(&self) -> (r: u64)
        ensures
            r == le_u64_at(self@, OFF_BRAKE as int),
    {
        self.buf.get_f64_bits(OFF_BRAKE)
    }

    /// Stores the `brake` field from its bit pattern (`f64::to_bits`).
    pub fn set_brake_bits(&mut self, bits: u64)
        ensures
            final(self)@ == write_at(old(self)@, OFF_BRAKE as int, u64_bytes(bits)),
            le_u64_at(final(self)@, OFF_BRAKE as int) == bits,
    {
        self.buf.set_f64_bits(OFF_BRAKE, bits);
        proof { lemma_read_u64_after_write(old(self)@, OFF_BRAKE as int, bits); }
    }

    /// The bit pattern of the `fuel` field (`f64::from_bits` gives the value).
    pub fn fuel_bits(&self) -> (r: u64)
        ensures
            r == le_u64_at(self@, OFF_FUEL as int),
    {
        self.buf.get_f64_bits(OFF_FUEL)
    }

    /// Stores the `fuel` field from its bit pattern (`f64::to_bits`).
    pub fn set_fuel_bits(&mut self, bits: u64)
        ensures
            final(self)@ == write_at(old(self)@, OFF_FUEL as int, u64_bytes(bits)),
            le_u64_at(final(self)@, OFF_FUEL as int) == bits,
    {
        self.buf.set_f64_bits(OFF_FUEL, bits);
        proof { lemma_read_u64_after_write(old(self)@, OFF_FUEL as int, bits); }
    }

    /// The bit pattern of the `turboboost` field (`f64::from_bits` gives the value).
    pub fn turboboost_bits(&self) -> (r: u64)
        ensures
            r == le_u64_at(self@, OFF_TURBOBOOST as int),
    {
        self.buf.get_f64_bits(OFF_TURBOBOOST)
    }

    /// Stores the `turboboost` field from its bit pattern (`f64::to_bits`).
    pub fn set_turboboost_bits(&mut self, bits: u64)
        ensures
            final(self)@ == write_at(old(self)@, OFF_TURBOBOOST as int, u64_bytes(bits)),
            le_u64_at(final(self)@, OFF_TURBOBOOST as int) == bits,
    {
        self.buf.set_f64_bits(OFF_TURBOBOOST, bits);
        proof { lemma_read_u64_after_write(old(self)@, OFF_TURBOBOOST as int, bits); }
    }

    /// The bit pattern of the `x_velocity` field (`f64::from_bits` gives the value).
    pub fn x_velocity_bits(&self) -> (r: u64)
        ensures
            r == le_u64_at(self@, OFF_XVELOCITY as int),
    {
        self.buf.get_f64_bits(OFF_XVELOCITY)
    }

    /// Stores the `x_velocity` field from its bit pattern (`f64::to_bits`).
    pub fn set_x_velocity_bits(&mut self, bits: u64)
        ensures
            final(self)@ == write_at(old(self)@, OFF_XVELOCITY as int, u64_bytes(bits)),
            le_u64_at(final(self)@, OFF_XVELOCITY as int) == bits,
    {
        self.buf.set_f64_bits(OFF_XVELOCITY, bits);
        proof { lemma_read_u64_after_write(old(self)@, OFF_XVELOCITY as int, bits); }
    }

    /// The bit pattern of the `y_velocity` field (`f64::from_bits` gives the value).
    pub fn y_velocity_bits(&self) -> (r: u64)
        ensures
            r == le_u64_at(self@, OFF_YVELOCITY as int),
    {
        self.buf.get_f64_bits(OFF_YVELOCITY)
    }

    /// Stores the `y_velocity` field from its bit pattern (`f64::to_bits`).
    pub fn set_y_velocity_bits(&mut self, bits: u64)
        ensures
            final(self)@ == write_at(old(self)@, OFF_YVELOCITY as int, u64_bytes(bits)),
            le_u64_at(final(self)@, OFF_YVELOCITY as int) == bits,
    {
        self.buf.set_f64_bits(OFF_YVELOCITY, bits);
        proof { lemma_read_u64_after_write(old(self)@, OFF_YVELOCITY as int, bits); }
    }

    /// The bit pattern of the `z_velocity` field (`f64::from_bits` gives the value).
    pub fn z_velocity_bits(&self) -> (r: u64)
        ensures
            r == le_u64_at(self@, OFF_ZVELOCITY as int),
    {
        self.buf.get_f64_bits(OFF_ZVELOCITY)
    }

    /// Stores the `z_velocity` field from its bit pattern (`f64::to_bits`).
    pub fn set_z_velocity_bits(&mut self, bits: u64)
        ensures
            final(self)@ == write_at(old(self)@, OFF_ZVELOCITY as int, u64_bytes(bits)),
            le_u64_at(final(self)@, OFF_ZVELOCITY as int) == bits,
    {
        self.buf.set_f64_bits(OFF_ZVELOCITY, bits);
        proof { lemma_read_u64_after_write(old(self)@, OFF_ZVELOCITY as int, bits); }
    }

    /// The bit pattern of the `abs` field (`f64::from_bits` gives the value).
    pub fn abs_bits(&self) -> (r: u64)
        ensures
            r == le_u64_at(self@, OFF_ABS as int),
    {
        self.buf.get_f64_bits(OFF_ABS)
    }

    /// Stores the `abs` field from its bit pattern (`f64::to_bits`).
    pub fn set_abs_bits(&mut self, bits: u64)
        ensures
            final(self)@ == write_at(old(self)@, OFF_ABS as int, u64_bytes(bits)),
            le_u64_at(final(self)@, OFF_ABS as int) == bits,
    {
        self.buf.set_f64_bits(OFF_ABS, bits);
        proof { lemma_read_u64_after_write(old(self)@, OFF_ABS as int, bits); }
    }

    /// The bit pattern of wheel `index`'s `tyre_rps`; zero past the fourth wheel.
    pub fn tyre_rps_bits(&self, index: usize) -> (r: u64)
        ensures
            r == (if index < WHEEL_COUNT { le_u64_at(self@, OFF_TYRE_RPS + 8 * index) } else { 0 }),
    {
        if index >= WHEEL_COUNT {
            return 0;
        }
        self.buf.get_f64_bits(OFF_TYRE_RPS + index * F64_SIZE)
    }

    /// Stores wheel `index`'s `tyre_rps` from its bit pattern; nothing past the fourth wheel.
    pub fn set_tyre_rps_bits(&mut self, index: usize, bits: u64)
        ensures
            final(self)@ == (if index < WHEEL_COUNT {
                write_at(old(self)@, OFF_TYRE_RPS + 8 * index, u64_bytes(bits))
            } else {
                old(self)@
            }),
    {
        if index >= WHEEL_COUNT {
            return;
        }
        self.buf.set_f64_bits(OFF_TYRE_RPS + index * F64_SIZE, bits);
    }

    /// The bit pattern of wheel `index`'s `tyre_diameter`; zero past the fourth wheel.
    pub fn tyre_diameter_bits(&self, index: usize) -> (r: u64)
        ensures
            r == (if index < WHEEL_COUNT { le_u64_at(self@, OFF_TYRE_DIAMETER + 8 * index) } else { 0 }),
    {
        if index >= WHEEL_COUNT {
            return 0;
        }
        self.buf.get_f64_bits(OFF_TYRE_DIAMETER + index * F64_SIZE)
    }

    /// Stores wheel `index`'s `tyre_diameter` from its bit pattern; nothing past the fourth wheel.
    pub fn set_tyre_diameter_bits(&mut self, index: usize, bits: u64)
        ensures
            final(self)@ == (if index < WHEEL_COUNT {
                write_at(old(self)@, OFF_TYRE_DIAMETER + 8 * index, u64_bytes(bits))
            } else {
                old(self)@
            }),
    {
        if index >= WHEEL_COUNT {
            return;
        }
        self.buf.set_f64_bits(OFF_TYRE_DIAMETER + index * F64_SIZE, bits);
    }

    /// The bit pattern of wheel `index`'s `tyre_slip`; zero past the fourth wheel.
    pub fn tyre_slip_bits(&self, index: usize) -> (r: u64)
        ensures
            r == (if index < WHEEL_COUNT { le_u64_at(self@, OFF_TYRE_SLIP_RATIO + 8 * index) } else { 0 }),
    {
        if index >= WHEEL_COUNT {
            return 0;
        }
        self.buf.get_f64_bits(OFF_TYRE_SLIP_RATIO + index * F64_SIZE)
    }

    /// Stores wheel `index`'s `tyre_slip` from its bit pattern; nothing past the fourth wheel.
    pub fn set_tyre_slip_bits(&mut self, index: usize, bits: u64)
        ensures
            final(self)@ == (if index < WHEEL_COUNT {
                write_at(old(self)@, OFF_TYRE_SLIP_RATIO + 8 * index, u64_bytes(bits))
            } else {
                old(self)@
            }),
    {
        if index >= WHEEL_COUNT {
            return;
        }
        self.buf.set_f64_bits(OFF_TYRE_SLIP_RATIO + index * F64_SIZE, bits);
    }

    /// The bit pattern of wheel `index`'s `tyre_temp`; zero past the fourth wheel.
    pub fn tyre_temp_bits(&self, index: usize) -> (r: u64)
        ensures
            r == (if index < WHEEL_COUNT { le_u64_at(self@, OFF_TYRE_TEMP + 8 * index) } else { 0 }),
    {
        if index >= WHEEL_COUNT {
            return 0;
        }
        self.buf.get_f64_bits(OFF_TYRE_TEMP + index * F64_SIZE)
    }

    /// Stores wheel `index`'s `tyre_temp` from its bit pattern; nothing past the fourth wheel.
    pub fn set_tyre_temp_bits(&mut self, index: usize, bits: u64)
        ensures
            final(self)@ == (if index < WHEEL_COUNT {
                write_at(old(self)@, OFF_TYRE_TEMP + 8 * index, u64_bytes(bits))
            } else {
                old(self)@
            }),
    {
        if index >= WHEEL_COUNT {
            return;
        }
        self.buf.set_f64_bits(OFF_TYRE_TEMP + index * F64_SIZE, bits);
    }

    /// The bit pattern of wheel `index`'s `susp_velocity`; zero past the fourth wheel.
    pub fn susp_velocity_bits(&self, index: usize) -> (r: u64)
        ensures
            r == (if index < WHEEL_COUNT { le_u64_at(self@, OFF_SUSP_VELOCITY + 8 * index) } else { 0 }),
    {
        if index >= WHEEL_COUNT {
            return 0;
        }
        self.buf.get_f64_bits(OFF_SUSP_VELOCITY + index * F64_SIZE)
    }

    /// Stores wheel `index`'s `susp_velocity` from its bit pattern; nothing past the fourth wheel.
    pub fn set_susp_velocity_bits(&mut self, index: usize, bits: u64)
        ensures
            final(self)@ == (if index < WHEEL_COUNT {
                write_at(old(self)@, OFF_SUSP_VELOCITY + 8 * index, u64_bytes(bits))
            } else {
                old(self)@
            }),
    {
        if index >= WHEEL_COUNT {
            return;
        }
        self.buf.set_f64_bits(OFF_SUSP_VELOCITY + index * F64_SIZE, bits);
    }

    /// The bit pattern of wheel `index`'s `brake_temp`; zero past the fourth wheel.
    pub fn brake_temp_bits(&self, index: usize) -> (r: u64)
        ensures
            r == (if index < WHEEL_COUNT { le_u64_at(self@, OFF_BRAKE_TEMP + 8 * index) } else { 0 }),
    {
        if index >= WHEEL_COUNT {
            return 0;
        }
        self.buf.get_f64_bits(OFF_BRAKE_TEMP + index * F64_SIZE)
    }

    /// Stores wheel `index`'s `brake_temp` from its bit pattern; nothing past the fourth wheel.
    pub fn set_brake_temp_bits(&mut self, index: usize, bits: u64)
        ensures
            final(self)@ == (if index < WHEEL_COUNT {
                write_at(old(self)@, OFF_BRAKE_TEMP + 8 * index, u64_bytes(bits))
            } else {
                old(self)@
            }),
    {
        if index >= WHEEL_COUNT {
            return;
        }
        self.buf.set_f64_bits(OFF_BRAKE_TEMP + index * F64_SIZE, bits);
    }

    /// The bit pattern of nearby car `index`'s `prox_radius`.
    pub fn prox_radius_bits(&self, index: usize) -> (r: u64)
        requires
            index < PROXIMITY_CARS,
        ensures
            r == le_u64_at(self@, OFF_PROXIMITY + PROXIMITY_STRIDE * index + OFF_PROX_RADIUS),
    {
        self.buf.get_f64_bits(OFF_PROXIMITY + index * PROXIMITY_STRIDE + OFF_PROX_RADIUS)
    }

    /// Stores nearby car `index`'s `prox_radius` from its bit pattern.
    pub fn set_prox_radius_bits(&mut self, index: usize, bits: u64)
        requires
            index < PROXIMITY_CARS,
        ensures
            final(self)@ == write_at(old(self)@, OFF_PROXIMITY + PROXIMITY_STRIDE * index + OFF_PROX_RADIUS, u64_bytes(bits)),
    {
        self.buf.set_f64_bits(OFF_PROXIMITY + index * PROXIMITY_STRIDE + OFF_PROX_RADIUS, bits);
    }

    /// The bit pattern of nearby car `index`'s `prox_theta`.
    pub fn prox_theta_bits(&self, index: usize) -> (r: u64)
        requires
            index < PROXIMITY_CARS,
        ensures
            r == le_u64_at(self@, OFF_PROXIMITY + PROXIMITY_STRIDE * index + OFF_PROX_THETA),
    {
        self.buf.get_f64_bits(OFF_PROXIMITY + index * PROXIMITY_STRIDE + OFF_PROX_THETA)
    }

    /// Stores nearby car `index`'s `prox_theta` from its bit pattern.
    pub fn set_prox_theta_bits(&mut self, index: usize, bits: u64)
        requires
            index < PROXIMITY_CARS,
        ensures
            final(self)@ == write_at(old(self)@, OFF_PROXIMITY + PROXIMITY_STRIDE * index + OFF_PROX_THETA, u64_bytes(bits)),
    {
        self.buf.set_f64_bits(OFF_PROXIMITY + index * PROXIMITY_STRIDE + OFF_PROX_THETA, bits);
    }

}

impl Default for Telemetry {
    fn default() -> (t: Self)
        ensures
            t@ == Seq::new(SIMDATA_SIZE as nat, |_i: int| 0u8),
    {
        Self::new()
    }
}

/// Bytes of one per-wheel `f64` field.
pub fn wheel_bytes() -> (r: usize)
    ensures
        r == WHEEL_COUNT * F64_SIZE,
{
    WHEEL_COUNT * F64_SIZE
}


/// The gear field a text fills: its first three bytes, zero-padded.
pub open spec fn gear_field(bytes: Seq<u8>) -> Seq<u8> {
    Seq::new(GEARC_BYTES as nat, |i: int| if i < bytes.len() { bytes[i] } else { 0u8 })
}

/// Setting an ASCII gear text with no NUL in it and reading it back gives
/// its first three characters, and no byte outside the gear field changes.
pub proof fn gear_text_reads_back(before: Seq<u8>, text: &str)
    requires
        before.len() == SIMDATA_SIZE,
        vstd::string::is_ascii(text),
        forall|i: int| 0 <= i < text@.len() ==> #[trigger] text@[i] != '\0',
    ensures
        ({
            let after = write_at(before, OFF_GEARC as int, gear_field(text.spec_bytes()));
            let c = c_string(after.subrange(OFF_GEARC as int, OFF_GEARC + GEARC_BYTES));
            &&& all_ascii(c)
            &&& chars_of(c) == text@.take(if text@.len() < 3 { text@.len() as int } else { 3 })
            &&& forall|i: int| 0 <= i < before.len() && !(OFF_GEARC <= i < OFF_GEARC + GEARC_BYTES) ==> after[i] == before[i]
        }),
{
    broadcast use vstd::string::is_ascii_spec_bytes;
    let b = text.spec_bytes();
    assert(b =~= Seq::new(text@.len(), |i: int| text@[i] as u8));
    let after = write_at(before, OFF_GEARC as int, gear_field(b));
    let sub = after.subrange(OFF_GEARC as int, OFF_GEARC + GEARC_BYTES);
    let n: int = if text@.len() < 3 { text@.len() as int } else { 3 };
    assert forall|i: int| 0 <= i < n implies #[trigger] sub[i] == text@[i] as u8 && (text@[i] as u8) != 0 && (text@[i] as u8) < 0x80 && ((text@[i] as u8) as char) == text@[i] by {
        assert(vstd::utf8::is_ascii_chars(text@));
        assert(sub[i] == gear_field(b)[i]);
        let c = text@[i];
        assert((c as u32) < 128);
        assert(c != '\0');
    }
    assert(forall|i: int| n <= i < 3 ==> #[trigger] sub[i] == 0u8);
    reveal_with_fuel(c_string_end, 4);
    assert(c_string_end(sub, 0) == n);
    let c = c_string(sub);
    assert(c =~= sub.subrange(0, n));
    assert(chars_of(c) =~= text@.take(n));
}

} // verus!
