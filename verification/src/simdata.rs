//! The shared `SimData` frame as bytes: the field offsets and a buffer that
//! writes and reads little-endian fields at them.
use vstd::prelude::*;

verus! {

pub const WHEEL_COUNT: usize = 4;
pub const CAR_NAME_BYTES: usize = 128;
pub const GEAR_CHAR_BYTES: usize = 3;
pub const GEARC_BYTES: usize = 3;
pub const F64_SIZE: usize = 8;
pub const BOOL_SIZE: usize = 1;
pub const OFF_MTICK: usize = 0;
pub const OFF_SIMEXE: usize = 8;
pub const OFF_PULSES: usize = 16;
pub const OFF_VELOCITY: usize = 20;
pub const OFF_RPMS: usize = 24;
pub const OFF_GEAR: usize = 28;
pub const OFF_MAXRPM: usize = 32;
pub const OFF_IDLERPM: usize = 36;
pub const OFF_SIMSTATUS: usize = 40;
pub const OFF_PLAYER_FLAG: usize = 44;
pub const OFF_SIMAPI: usize = 45;
pub const OFF_SIMON: usize = 46;
pub const OFF_GEARC: usize = 47;
pub const OFF_COURSE_FLAG: usize = 50;
pub const OFF_GAS: usize = 56;
pub const OFF_BRAKE: usize = 64;
pub const OFF_FUEL: usize = 72;
pub const OFF_TURBOBOOST: usize = 80;
pub const OFF_XVELOCITY: usize = 88;
pub const OFF_YVELOCITY: usize = 96;
pub const OFF_ZVELOCITY: usize = 104;
pub const OFF_ABS: usize = 112;
pub const OFF_TYRE_RPS: usize = 120;
pub const OFF_TYRE_DIAMETER: usize = 152;
pub const OFF_TYRE_SLIP_RATIO: usize = 184;
pub const OFF_TYRE_TEMP: usize = 216;
pub const OFF_SUSP_VELOCITY: usize = 248;
pub const OFF_BRAKE_TEMP: usize = 280;
pub const OFF_PROXIMITY: usize = 312;
pub const PROXIMITY_STRIDE: usize = 16;
pub const OFF_PROX_RADIUS: usize = 0;
pub const OFF_PROX_THETA: usize = 8;
pub const PROXIMITY_CARS: usize = 6;
pub const OFF_CAR: usize = 408;
pub const CAR_BYTES: usize = 128;
pub const SIMDATA_SIZE: usize = 536;

/// The little-endian value of four bytes.
pub open spec fn le_u32(b0: u8, b1: u8, b2: u8, b3: u8) -> u32 {
    (b0 as u32) | ((b1 as u32) << 8u32) | ((b2 as u32) << 16u32) | ((b3 as u32) << 24u32)
}

/// The little-endian value of eight bytes from `off`.
pub open spec fn le_u64_at(b: Seq<u8>, off: int) -> u64 {
    (b[off] as u64) | ((b[off + 1] as u64) << 8u64) | ((b[off + 2] as u64) << 16u64) | ((b[off + 3] as u64) << 24u64)
        | ((b[off + 4] as u64) << 32u64) | ((b[off + 5] as u64) << 40u64) | ((b[off + 6] as u64) << 48u64) | ((b[off
        + 7] as u64) << 56u64)
}

/// The little-endian value of four bytes from `off`.
pub open spec fn le_u32_at(b: Seq<u8>, off: int) -> u32 {
    le_u32(b[off], b[off + 1], b[off + 2], b[off + 3])
}

/// `b` with the bytes of `data` written from `off`.
pub open spec fn write_at(b: Seq<u8>, off: int, data: Seq<u8>) -> Seq<u8> {
    Seq::new(b.len(), |i: int| if off <= i < off + data.len() { data[i - off] } else { b[i] })
}

/// The little-endian bytes of a `u32`.
pub open spec fn u32_bytes(v: u32) -> Seq<u8> {
    seq![(v & 0xff) as u8, ((v >> 8u32) & 0xff) as u8, ((v >> 16u32) & 0xff) as u8, ((v >> 24u32) & 0xff) as u8]
}

/// The little-endian bytes of a `u64`.
pub open spec fn u64_bytes(v: u64) -> Seq<u8> {
    seq![
        (v & 0xff) as u8,
        ((v >> 8u64) & 0xff) as u8,
        ((v >> 16u64) & 0xff) as u8,
        ((v >> 24u64) & 0xff) as u8,
        ((v >> 32u64) & 0xff) as u8,
        ((v >> 40u64) & 0xff) as u8,
        ((v >> 48u64) & 0xff) as u8,
        ((v >> 56u64) & 0xff) as u8,
    ]
}

/// Reading back the bytes of a `u32` gives the `u32`.
pub proof fn u32_bytes_round_trip(v: u32)
    ensures
        le_u32_at(u32_bytes(v), 0) == v,
{
    assert(le_u32((v & 0xff) as u8, ((v >> 8u32) & 0xff) as u8, ((v >> 16u32) & 0xff) as u8, ((v >> 24u32) & 0xff) as u8)
        == v) by (bit_vector);
}

/// Reading back the bytes of a `u64` gives the `u64`.
pub proof fn u64_bytes_round_trip(v: u64)
    ensures
        le_u64_at(u64_bytes(v), 0) == v,
{
    assert((((v & 0xff) as u8) as u64) | (((((v >> 8u64) & 0xff) as u8) as u64) << 8u64) | (((((v >> 16u64) & 0xff) as u8)
        as u64) << 16u64) | (((((v >> 24u64) & 0xff) as u8) as u64) << 24u64) | (((((v >> 32u64) & 0xff) as u8) as u64)
        << 32u64) | (((((v >> 40u64) & 0xff) as u8) as u64) << 40u64) | (((((v >> 48u64) & 0xff) as u8) as u64) << 48u64)
        | (((((v >> 56u64) & 0xff) as u8) as u64) << 56u64) == v) by (bit_vector);
}

/// One `SimData` frame, always `SIMDATA_SIZE` bytes.
pub struct SimDataBuf {
    bytes: Vec<u8>,
}

impl View for SimDataBuf {
    type V = Seq<u8>;

    closed spec fn view(&self) -> Seq<u8> {
        self.bytes@
    }
}

impl SimDataBuf {
    #[verifier::type_invariant]
    spec fn frame_size(self) -> bool {
        self.bytes@.len() == SIMDATA_SIZE
    }

    /// A zeroed frame.
    pub fn new() -> (b: Self)
        ensures
            b@ == Seq::new(SIMDATA_SIZE as nat, |_i: int| 0u8),
    {
        let mut bytes: Vec<u8> = Vec::new();
        while bytes.len() < SIMDATA_SIZE
            invariant
                bytes@.len() <= SIMDATA_SIZE,
                forall|i: int| 0 <= i < bytes@.len() ==> bytes@[i] == 0,
            decreases SIMDATA_SIZE - bytes@.len(),
        {
            bytes.push(0);
        }
        assert(bytes@ =~= Seq::new(SIMDATA_SIZE as nat, |_i: int| 0u8));
        SimDataBuf { bytes }
    }

    pub fn as_bytes(&self) -> (r: &[u8])
        ensures
            r@ == self@,
            r@.len() == SIMDATA_SIZE,
    {
        proof { use_type_invariant(self); }
        self.bytes.as_slice()
    }

    /// Writes bytes from `offset`; the write must lie inside the frame.
    pub fn set_bytes(&mut self, offset: usize, value: &[u8])
        requires
            offset + value@.len() <= SIMDATA_SIZE,
        ensures
            old(self)@.len() == SIMDATA_SIZE,
            final(self)@.len() == SIMDATA_SIZE,
            final(self)@ == write_at(old(self)@, offset as int, value@),
    {
        proof { use_type_invariant(&*self); }
        let ghost start = self.bytes@;
        let mut bytes: Vec<u8> = Vec::new();
        let mut k: usize = 0;
        while k < SIMDATA_SIZE
            invariant
                offset + value@.len() <= SIMDATA_SIZE,
                start == self.bytes@,
                start.len() == SIMDATA_SIZE,
                k <= SIMDATA_SIZE,
                bytes@.len() == k,
                forall|j: int| 0 <= j < k ==> #[trigger] bytes@[j] == write_at(start, offset as int, value@)[j],
            decreases SIMDATA_SIZE - k,
        {
            let b = if offset <= k && k < offset + value.len() { value[k - offset] } else { self.bytes[k] };
            bytes.push(b);
            k += 1;
        }
        assert(bytes@ =~= write_at(start, offset as int, value@));
        self.bytes = bytes;
    }

    fn set_byte(&mut self, offset: usize, value: u8)
        requires
            offset < SIMDATA_SIZE,
        ensures
            old(self)@.len() == SIMDATA_SIZE,
            final(self)@.len() == SIMDATA_SIZE,
            final(self)@ == old(self)@.update(offset as int, value),
    {
        proof { use_type_invariant(&*self); }
        let one: [u8; 1] = [value];
        self.set_bytes(offset, &one);
        assert(write_at(old(self)@, offset as int, one@) =~= old(self)@.update(offset as int, value));
    }

    pub fn set_u8(&mut self, offset: usize, value: u8)
        requires
            offset + 1 <= SIMDATA_SIZE,
        ensures
            old(self)@.len() == SIMDATA_SIZE,
            final(self)@.len() == SIMDATA_SIZE,
            final(self)@ == old(self)@.update(offset as int, value),
    {
        self.set_byte(offset, value);
    }

    pub fn set_bool(&mut self, offset: usize, value: bool)
        requires
            offset + BOOL_SIZE <= SIMDATA_SIZE,
        ensures
            old(self)@.len() == SIMDATA_SIZE,
            final(self)@.len() == SIMDATA_SIZE,
            final(self)@ == old(self)@.update(offset as int, if value { 1u8 } else { 0u8 }),
    {
        self.set_byte(offset, if value { 1 } else { 0 });
    }

    pub fn set_u32(&mut self, offset: usize, value: u32)
        requires
            offset + 4 <= SIMDATA_SIZE,
        ensures
            old(self)@.len() == SIMDATA_SIZE,
            final(self)@.len() == SIMDATA_SIZE,
            final(self)@ == write_at(old(self)@, offset as int, u32_bytes(value)),
    {
        let bytes: [u8; 4] = [
            (value & 0xff) as u8,
            ((value >> 8u32) & 0xff) as u8,
            ((value >> 16u32) & 0xff) as u8,
            ((value >> 24u32) & 0xff) as u8,
        ];
        assert(bytes@ =~= u32_bytes(value));
        self.set_bytes(offset, &bytes);
    }

    pub fn set_u64(&mut self, offset: usize, value: u64)
        requires
            offset + 8 <= SIMDATA_SIZE,
        ensures
            old(self)@.len() == SIMDATA_SIZE,
            final(self)@.len() == SIMDATA_SIZE,
            final(self)@ == write_at(old(self)@, offset as int, u64_bytes(value)),
    {
        let bytes: [u8; 8] = [
            (value & 0xff) as u8,
            ((value >> 8u64) & 0xff) as u8,
            ((value >> 16u64) & 0xff) as u8,
            ((value >> 24u64) & 0xff) as u8,
            ((value >> 32u64) & 0xff) as u8,
            ((value >> 40u64) & 0xff) as u8,
            ((value >> 48u64) & 0xff) as u8,
            ((value >> 56u64) & 0xff) as u8,
        ];
        assert(bytes@ =~= u64_bytes(value));
        self.set_bytes(offset, &bytes);
    }

    /// Writes the bit pattern of an `f64` field (`f64::to_bits`).
    pub fn set_f64_bits(&mut self, offset: usize, bits: u64)
        requires
            offset + F64_SIZE <= SIMDATA_SIZE,
        ensures
            old(self)@.len() == SIMDATA_SIZE,
            final(self)@.len() == SIMDATA_SIZE,
            final(self)@ == write_at(old(self)@, offset as int, u64_bytes(bits)),
    {
        self.set_u64(offset, bits);
    }

    pub fn get_u8(&self, offset: usize) -> (r: u8)
        requires
            offset + 1 <= SIMDATA_SIZE,
        ensures
            r == self@[offset as int],
    {
        proof { use_type_invariant(self); }
        self.bytes[offset]
    }

    pub fn get_u32(&self, offset: usize) -> (r: u32)
        requires
            offset + 4 <= SIMDATA_SIZE,
        ensures
            r == le_u32_at(self@, offset as int),
    {
        proof { use_type_invariant(self); }
        let b0 = self.bytes[offset] as u32;
        let b1 = self.bytes[offset + 1] as u32;
        let b2 = self.bytes[offset + 2] as u32;
        let b3 = self.bytes[offset + 3] as u32;
        b0 | (b1 << 8u32) | (b2 << 16u32) | (b3 << 24u32)
    }

    pub fn get_u64(&self, offset: usize) -> (r: u64)
        requires
            offset + 8 <= SIMDATA_SIZE,
        ensures
            r == le_u64_at(self@, offset as int),
    {
        proof { use_type_invariant(self); }
        let b = &self.bytes;
        (b[offset] as u64) | ((b[offset + 1] as u64) << 8u64) | ((b[offset + 2] as u64) << 16u64) | ((b[offset
            + 3] as u64) << 24u64) | ((b[offset + 4] as u64) << 32u64) | ((b[offset + 5] as u64) << 40u64) | ((b[offset
            + 6] as u64) << 48u64) | ((b[offset + 7] as u64) << 56u64)
    }

    /// The bit pattern of an `f64` field (`f64::from_bits` gives the value).
    pub fn get_f64_bits(&self, offset: usize) -> (r: u64)
        requires
            offset + F64_SIZE <= SIMDATA_SIZE,
        ensures
            r == le_u64_at(self@, offset as int),
    {
        self.get_u64(offset)
    }

    /// `len` bytes from `offset`.
    pub fn get_bytes(&self, offset: usize, len: usize) -> (r: Vec<u8>)
        requires
            offset + len <= SIMDATA_SIZE,
        ensures
            r@ == self@.subrange(offset as int, offset + len),
    {
        proof { use_type_invariant(self); }
        let mut r: Vec<u8> = Vec::new();
        let mut i: usize = 0;
        while i < len
            invariant
                offset + len <= SIMDATA_SIZE,
                self.bytes@.len() == SIMDATA_SIZE,
                i <= len,
                r@ == self.bytes@.subrange(offset as int, offset + i),
            decreases len - i,
        {
            r.push(self.bytes[offset + i]);
            i += 1;
            assert(r@ =~= self.bytes@.subrange(offset as int, offset + i));
        }
        r
    }
}

impl Clone for SimDataBuf {
    fn clone(&self) -> (r: Self)
        ensures
            r@ == self@,
    {
        proof { use_type_invariant(self); }
        let mut bytes: Vec<u8> = Vec::new();
        let mut i: usize = 0;
        while i < self.bytes.len()
            invariant
                self.bytes@.len() == SIMDATA_SIZE,
                i <= SIMDATA_SIZE,
                bytes@ == self.bytes@.subrange(0, i as int),
            decreases SIMDATA_SIZE - i,
        {
            bytes.push(self.bytes[i]);
            i += 1;
            assert(bytes@ =~= self.bytes@.subrange(0, i as int));
        }
        assert(self.bytes@.subrange(0, SIMDATA_SIZE as int) =~= self.bytes@);
        SimDataBuf { bytes }
    }
}

impl Default for SimDataBuf {
    fn default() -> (b: Self)
        ensures
            b@ == Seq::new(SIMDATA_SIZE as nat, |_i: int| 0u8),
    {
        Self::new()
    }
}

} // verus!
