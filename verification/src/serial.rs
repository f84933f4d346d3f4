//! Serial devices: Arduino shift lights, haptic motors and LED strips, and the
//! Moza wheels' framed protocol.
use vstd::prelude::*;
use crate::usb::{revlights_lit, spec_revlights_lit};
use crate::text::{all_ascii, chars_of, lossy_text, utf8_lossy};

verus! {

pub const LED_FIRST: i32 = 1;
pub const SIMLED_END_ALL: i32 = 0;
pub const SIMLED_QUERY_WAIT_MS: u32 = 5_000;
pub const SIMLED_QUERY_ATTEMPTS: usize = 4;
pub const SIMLED_READ_TIMEOUT_MS: u64 = 10;
pub const SIMLED_READ_CAP: usize = 255;
pub const SHIFT_PACKET_LEN: i32 = 1;
pub const SIMWIND_PACKET_LEN: i32 = 2;
pub const SIMWIND_BYTE_SPEED: usize = 0;
pub const SIMWIND_BYTE_FAN: usize = 1;
pub const HAPTIC_MOTORS: usize = 4;
pub const HAPTIC_MOTOR_STRIDE: usize = 2;
pub const HAPTIC_PACKET: usize = 8;
pub const HAPTIC_PACKET_LEN: i32 = 8;
pub const HAPTIC_MOTOR_FLAG: u8 = 1;
pub const HEADER_MARKS: usize = 6;
pub const MARK_BYTE: u8 = 0xff;
pub const RGB_CHANNELS: usize = 3;
/// Header marks, the `sleds` tag, and the three-byte tail.
pub const PACKET_META: usize = 14;
pub const BAUD_R9_FLOOR: u32 = 115_200;

/// Lit shift lights as a byte: the lit count, truncated to eight bits.
pub fn shiftlights_byte(rpm: u32, maxrpm: u32, lights: i32) -> (r: u8)
    ensures
        r == spec_revlights_lit(rpm as i32 as int, maxrpm as i32 as int, lights as int) as u8,
{
    let lit = revlights_lit(rpm as i32, maxrpm as i32, lights);
    lit as u8
}

/// Every motor flagged, every speed zero.
pub fn haptic_stop_packet() -> (r: [u8; HAPTIC_PACKET])
    ensures
        r@ == seq![1u8, 0, 1, 0, 1, 0, 1, 0],
{
    let mut stopped = [0u8; HAPTIC_PACKET];
    let mut index: usize = 0;
    while index < HAPTIC_MOTORS
        invariant
            index <= HAPTIC_MOTORS,
            forall|k: int| 0 <= k < HAPTIC_PACKET ==> #[trigger] stopped@[k] == (if k % 2 == 0 && k < 2 * index { 1u8 } else { 0u8 }),
        decreases HAPTIC_MOTORS - index,
    {
        stopped[index * HAPTIC_MOTOR_STRIDE] = HAPTIC_MOTOR_FLAG;
        index += 1;
    }
    assert(stopped@ =~= seq![1u8, 0, 1, 0, 1, 0, 1, 0]);
    stopped
}

pub const MOTOR_1: u32 = 0;
pub const MOTOR_RIGHT: u32 = 2;
pub const MOTOR_LEFT_FRONT: u32 = 4;
pub const MOTOR_RIGHT_MID: u32 = 6;
pub const MOTOR_REAR: u32 = 7;
pub const MOTOR_FRONT_AXLE: u32 = 8;
pub const MOTOR_RIGHT_FRONT: u32 = 9;
pub const MOTOR_RIGHT_REAR: u32 = 10;
pub const MOTOR_LEFT_REAR: u32 = 11;
pub const MOTOR_RIGHT_ALL: u32 = 12;
pub const MOTOR_DIAGONAL: u32 = 13;
pub const MOTOR_ALL: u32 = 14;
pub const HAPTIC_LOG_MOTOR_ONE: i32 = 1;
pub const HAPTIC_LOG_MOTOR_THREE: i32 = 3;

/// The motor positions that drive motor one.
pub open spec fn drives_motor_one(position: u32) -> bool {
    position == 0 || position == 4 || position == 7 || position == 8 || position == 10
        || position == 11 || position == 13 || position == 14
}

/// The motor positions that drive motor three.
pub open spec fn drives_motor_three(position: u32) -> bool {
    position == 2 || position == 6 || position == 8 || position == 9 || position == 10
        || position == 11 || position == 12 || position == 14
}

pub fn motor_one(position: u32) -> (r: bool)
    ensures
        r == drives_motor_one(position),
{
    position == MOTOR_1 || position == MOTOR_LEFT_FRONT || position == MOTOR_REAR
        || position == MOTOR_FRONT_AXLE || position == MOTOR_RIGHT_REAR || position == MOTOR_LEFT_REAR
        || position == MOTOR_DIAGONAL || position == MOTOR_ALL
}

pub fn motor_three(position: u32) -> (r: bool)
    ensures
        r == drives_motor_three(position),
{
    position == MOTOR_RIGHT || position == MOTOR_RIGHT_MID || position == MOTOR_FRONT_AXLE
        || position == MOTOR_RIGHT_FRONT || position == MOTOR_RIGHT_REAR || position == MOTOR_LEFT_REAR
        || position == MOTOR_RIGHT_ALL || position == MOTOR_ALL
}

/// A motor that was set this tick, for the log: its number and speed.
#[derive(Clone, Copy, Debug, PartialEq, Eq, Structural)]
pub struct SerialHapticChannel {
    pub motor: i32,
    pub speed: u8,
}

/// What one haptic tick sends, and the motors it set.
#[derive(Clone, Copy, Debug)]
pub struct SerialHapticStep {
    pub packet: [u8; HAPTIC_PACKET],
    pub channels: [Option<SerialHapticChannel>; 2],
}

/// The haptic packet kept between ticks: a flag and a speed byte per motor.
#[derive(Clone, Copy, Debug)]
pub struct SerialHapticPacket {
    pub packet: [u8; HAPTIC_PACKET],
}

/// The packet after a tick: every motor flag cleared; when the speed
/// changed, the driven motors (one and three) flagged with the new speed;
/// every speed byte of a motor not set keeps its earlier value.
pub open spec fn haptic_tick_packet(old: Seq<u8>, changed: Option<u8>, position: u32) -> Seq<u8> {
    Seq::new(8, |k: int|
        if k == 0 && changed is Some && drives_motor_one(position) { 1u8 }
        else if k == 1 && changed is Some && drives_motor_one(position) { changed.unwrap() }
        else if k == 4 && changed is Some && drives_motor_three(position) { 1u8 }
        else if k == 5 && changed is Some && drives_motor_three(position) { changed.unwrap() }
        else if k % 2 == 0 { 0u8 }
        else { old[k] })
}

impl SerialHapticPacket {
    /// All zero.
    pub fn new() -> (p: Self)
        ensures
            p.packet@ == Seq::new(8, |_k: int| 0u8),
    {
        let p = SerialHapticPacket { packet: [0u8; HAPTIC_PACKET] };
        assert(p.packet@ =~= Seq::new(8, |_k: int| 0u8));
        p
    }

    /// One tick: `changed` is the new effect speed when the scaled play
    /// differs from the last one sent, `None` when it is unchanged.
    pub fn step(&mut self, changed: Option<u8>, position: u32) -> (r: SerialHapticStep)
        ensures
            final(self).packet@ == haptic_tick_packet(old(self).packet@, changed, position),
            r.packet == final(self).packet,
            r.channels[0] == (match changed {
                Some(speed) if drives_motor_one(position) => Some(SerialHapticChannel { motor: HAPTIC_LOG_MOTOR_ONE, speed }),
                _ => None,
            }),
            r.channels[1] == (match changed {
                Some(speed) if drives_motor_three(position) => Some(SerialHapticChannel { motor: HAPTIC_LOG_MOTOR_THREE, speed }),
                _ => None,
            }),
    {
        let ghost before = self.packet@;
        self.packet[0] = 0;
        self.packet[2] = 0;
        self.packet[4] = 0;
        self.packet[6] = 0;
        let mut channels: [Option<SerialHapticChannel>; 2] = [None, None];
        if let Some(speed) = changed {
            if motor_one(position) {
                self.packet[0] = HAPTIC_MOTOR_FLAG;
                self.packet[1] = speed;
                channels[0] = Some(SerialHapticChannel { motor: HAPTIC_LOG_MOTOR_ONE, speed });
            }
            if motor_three(position) {
                self.packet[4] = HAPTIC_MOTOR_FLAG;
                self.packet[5] = speed;
                channels[1] = Some(SerialHapticChannel { motor: HAPTIC_LOG_MOTOR_THREE, speed });
            }
        }
        assert(self.packet@ =~= haptic_tick_packet(before, changed, position));
        SerialHapticStep { packet: self.packet, channels }
    }
}

/// The `sleds` tag.
pub open spec fn sled_tag() -> Seq<u8> {
    seq![0x73u8, 0x6c, 0x65, 0x64, 0x73]
}

/// Byte `i` of the LED packet for `total` LEDs: six marks, `sleds`, three
/// color bytes per LED taken from `rgb` (zero past its end), and `ff fe fd`.
pub open spec fn led_packet_byte(total: int, rgb: Seq<u8>, i: int) -> u8 {
    let colors = total * 3;
    if i < 6 {
        MARK_BYTE
    } else if i < 11 {
        sled_tag()[i - 6]
    } else if i < 11 + colors {
        if i - 11 < rgb.len() { rgb[i - 11] } else { 0 }
    } else if i == 11 + colors {
        0xff
    } else if i == 12 + colors {
        0xfe
    } else {
        0xfd
    }
}

/// The LED packet for `total` LEDs.
pub open spec fn spec_led_packet(total: int, rgb: Seq<u8>) -> Seq<u8> {
    Seq::new((total * 3 + PACKET_META) as nat, |i: int| led_packet_byte(total, rgb, i))
}

fn led_packet(total: usize, rgb: &[u8]) -> (r: Vec<u8>)
    requires
        total * 3 + PACKET_META <= usize::MAX,
    ensures
        r@ == spec_led_packet(total as int, rgb@),
{
    let len = total * RGB_CHANNELS + PACKET_META;
    let tag: [u8; 5] = [0x73, 0x6c, 0x65, 0x64, 0x73];
    assert(tag@ =~= sled_tag());
    let mut bytes: Vec<u8> = Vec::new();
    let mut i: usize = 0;
    while i < len
        invariant
            len == total * 3 + PACKET_META,
            tag@ == sled_tag(),
            i <= len,
            bytes@.len() == i,
            forall|k: int| 0 <= k < i ==> #[trigger] bytes@[k] == led_packet_byte(total as int, rgb@, k),
        decreases len - i,
    {
        let b = if i < HEADER_MARKS {
            MARK_BYTE
        } else if i < 11 {
            tag[i - 6]
        } else if i < 11 + total * RGB_CHANNELS {
            if i - 11 < rgb.len() { rgb[i - 11] } else { 0 }
        } else if i == 11 + total * RGB_CHANNELS {
            0xff
        } else if i == 12 + total * RGB_CHANNELS {
            0xfe
        } else {
            0xfd
        };
        bytes.push(b);
        i += 1;
    }
    assert(bytes@ =~= spec_led_packet(total as int, rgb@));
    bytes
}

/// A built LED strip frame and how many LEDs it lights.
pub struct SimLedReport {
    pub lit: i32,
    pub bytes: Vec<u8>,
}

/// The LEDs in use: the first is `startled` (at least 1), the last is
/// `endled` (0 meaning the last LED), capped at `total`.
pub open spec fn span_end(total: i32, endled: i32) -> int {
    if endled == SIMLED_END_ALL || endled > total { total as int } else { endled as int }
}

pub open spec fn span_start(startled: i32) -> int {
    if startled < LED_FIRST { LED_FIRST as int } else { startled as int }
}

/// LEDs available between the start and the end.
pub open spec fn span_avail(total: i32, startled: i32, endled: i32) -> int {
    span_end(total, endled) - span_start(startled) + 1
}

/// The color of byte `k` of the strip: LEDs before the span and past the lit
/// ones are dark; the first half of the span is green, then yellow, and the
/// last LED of the span red.
pub open spec fn simled_rgb_byte(lit: int, avail: int, start: int, k: int) -> u8 {
    let idx = k / 3 - (start - 1);
    let ch = k % 3;
    if idx < 0 || idx >= lit {
        0
    } else if idx == avail - 1 {
        if ch == 0 { MARK_BYTE } else { 0 }
    } else if idx < avail / 2 {
        if ch == 1 { MARK_BYTE } else { 0 }
    } else {
        if ch == 2 { 0 } else { MARK_BYTE }
    }
}

/// The strip colors for `total` LEDs.
pub open spec fn spec_simled_rgb(lit: int, total: int, avail: int, start: int) -> Seq<u8> {
    Seq::new((total * 3) as nat, |k: int| simled_rgb_byte(lit, avail, start, k))
}

/// Lit LEDs of the strip: the rpm over the available LEDs, none without rpm.
pub open spec fn simled_lit(rpm: u32, maxrpm: u32, avail: int) -> int {
    if rpm > 0 && maxrpm > 0 { spec_revlights_lit(rpm as i32 as int, maxrpm as i32 as int, avail) } else { 0 }
}

/// What `simled_report` answers: nothing without LEDs or an empty span; else
/// the lit count and the strip frame.
pub open spec fn spec_simled_report(rpm: u32, maxrpm: u32, total: i32, startled: i32, endled: i32) -> Option<(int, Seq<u8>)> {
    let avail = span_avail(total, startled, endled);
    if total < LED_FIRST || avail < LED_FIRST {
        None
    } else {
        let lit = simled_lit(rpm, maxrpm, avail);
        Some((lit, spec_led_packet(total as int, spec_simled_rgb(lit, total as int, avail, span_start(startled)))))
    }
}

/// The inputs a strip frame can be built from on this machine.
pub open spec fn simled_fits(total: i32, startled: i32, endled: i32) -> bool {
    &&& span_avail(total, startled, endled) >= i32::MIN
    &&& total * 3 + PACKET_META <= usize::MAX
}

fn simled_rgb(lit: i32, total: i32, avail: i32, start: i32) -> (r: Vec<u8>)
    requires
        1 <= start,
        1 <= avail,
        start + avail - 1 <= total,
        0 <= lit <= avail,
        total * 3 + PACKET_META <= usize::MAX,
    ensures
        r@ == spec_simled_rgb(lit as int, total as int, avail as int, start as int),
{
    let n = total as usize * RGB_CHANNELS;
    let half = avail / 2;
    let last = avail - 1;
    let mut rgb: Vec<u8> = Vec::new();
    let mut k: usize = 0;
    while k < n
        invariant
            n == total * 3,
            1 <= start,
            1 <= avail,
            start + avail - 1 <= total,
            0 <= lit <= avail,
            half == avail / 2,
            last == avail - 1,
            k <= n,
            rgb@.len() == k,
            forall|j: int| 0 <= j < k ==> #[trigger] rgb@[j] == simled_rgb_byte(lit as int, avail as int, start as int, j),
        decreases n - k,
    {
        let led = (k / RGB_CHANNELS) as i64;
        let idx = led - (start as i64 - 1);
        let ch = k % RGB_CHANNELS;
        let b = if idx < 0 || idx >= lit as i64 {
            0
        } else if idx == last as i64 {
            if ch == 0 { MARK_BYTE } else { 0 }
        } else if idx < half as i64 {
            if ch == 1 { MARK_BYTE } else { 0 }
        } else {
            if ch == 2 { 0 } else { MARK_BYTE }
        };
        rgb.push(b);
        k += 1;
    }
    assert(rgb@ =~= spec_simled_rgb(lit as int, total as int, avail as int, start as int));
    rgb
}

/// The LED strip frame for `rpm`: green for the first half of the span,
/// yellow after, the last LED red; `None` without LEDs or with an empty span.
pub fn simled_report(rpm: u32, maxrpm: u32, total: i32, startled: i32, endled: i32) -> (r: Option<SimLedReport>)
    requires
        simled_fits(total, startled, endled),
    ensures
        match (r, spec_simled_report(rpm, maxrpm, total, startled, endled)) {
            (Some(report), Some((lit, bytes))) => report.lit == lit && report.bytes@ == bytes,
            (None, None) => true,
            _ => false,
        },
{
    if total < LED_FIRST {
        return None;
    }
    let mut end = endled;
    if end == SIMLED_END_ALL {
        end = total;
    }
    let start = if startled < LED_FIRST { LED_FIRST } else { startled };
    if end > total {
        end = total;
    }
    let avail = end - (start - 1);
    if avail < LED_FIRST {
        return None;
    }
    let lit = if rpm > 0 && maxrpm > 0 { revlights_lit(rpm as i32, maxrpm as i32, avail) } else { 0 };
    let rgb = simled_rgb(lit, total, avail, start);
    Some(SimLedReport { lit, bytes: led_packet(total as usize, &rgb) })
}

/// A dark strip of `total` LEDs; `None` for a negative count.
pub fn simled_blank(total: i32) -> (r: Option<Vec<u8>>)
    requires
        total * 3 + PACKET_META <= usize::MAX,
    ensures
        total < 0 ==> r is None,
        total >= 0 ==> (r matches Some(b) && b@ == spec_led_packet(total as int, Seq::empty())),
{
    if total < 0 {
        return None;
    }
    let none: [u8; 0] = [];
    assert(none@ =~= Seq::<u8>::empty());
    Some(led_packet(total as usize, &none))
}

/// The LED packet for `total` LEDs with the given colors.
pub fn simled_packet(total: usize, rgb: &[u8]) -> (r: Vec<u8>)
    requires
        total * 3 + PACKET_META <= usize::MAX,
    ensures
        r@ == spec_led_packet(total as int, rgb@),
{
    led_packet(total, rgb)
}

/// The LED-count query: six marks and `ledsc`.
pub fn simled_count_query() -> (r: Vec<u8>)
    ensures
        r@ == seq![0xffu8, 0xff, 0xff, 0xff, 0xff, 0xff, 0x6c, 0x65, 0x64, 0x73, 0x63],
{
    let mut query: Vec<u8> = Vec::new();
    let mut i: usize = 0;
    while i < HEADER_MARKS
        invariant
            i <= HEADER_MARKS,
            query@ == Seq::new(i as nat, |_k: int| MARK_BYTE),
        decreases HEADER_MARKS - i,
    {
        query.push(MARK_BYTE);
        i += 1;
        assert(query@ =~= Seq::new(i as nat, |_k: int| MARK_BYTE));
    }
    query.push(0x6c);
    query.push(0x65);
    query.push(0x64);
    query.push(0x73);
    query.push(0x63);
    assert(query@ =~= seq![0xffu8, 0xff, 0xff, 0xff, 0xff, 0xff, 0x6c, 0x65, 0x64, 0x73, 0x63]);
    query
}

/// What the strip answered to the LED-count query.
#[derive(Clone, Copy, Debug, PartialEq, Eq, Structural)]
pub enum SimLedCount {
    Count(i32),
    Invalid,
    Waiting,
}

/// The bytes before the first NUL.
pub open spec fn c_string(bytes: Seq<u8>) -> Seq<u8> {
    bytes.subrange(0, c_string_end(bytes, 0))
}

pub open spec fn c_string_end(bytes: Seq<u8>, i: int) -> int
    decreases bytes.len() - i,
{
    if i < 0 || i >= bytes.len() || bytes[i] == 0 { i } else { c_string_end(bytes, i + 1) }
}

/// C `isspace` in the C locale.
pub open spec fn is_c_space(b: u8) -> bool {
    b == 0x20 || b == 0x09 || b == 0x0a || b == 0x0d || b == 0x0b || b == 0x0c
}

/// The first position from `i` on that is not a C space.
pub open spec fn skip_c_space(t: Seq<u8>, i: int) -> int
    decreases t.len() - i,
{
    if i < 0 || i >= t.len() || !is_c_space(t[i]) { i } else { skip_c_space(t, i + 1) }
}

/// The end of the run of ASCII digits from `i` on.
pub open spec fn digit_run(t: Seq<u8>, i: int) -> int
    decreases t.len() - i,
{
    if i < 0 || i >= t.len() || !(0x30 <= t[i] <= 0x39) { i } else { digit_run(t, i + 1) }
}

/// The first position from `i` on that is not CR or LF.
pub open spec fn skip_crlf(t: Seq<u8>, i: int) -> int
    decreases t.len() - i,
{
    if i < 0 || i >= t.len() || !(t[i] == 0x0d || t[i] == 0x0a) { i } else { skip_crlf(t, i + 1) }
}

/// The number the ASCII digits `t[from..to]` spell.
pub open spec fn bytes_value(t: Seq<u8>, from: int, to: int) -> int
    decreases to - from,
{
    if to <= from { 0 } else { bytes_value(t, from, to - 1) * 10 + (t[to - 1] - 0x30) }
}

/// The strip's answer to the LED-count query, read as C `strtol` would: no
/// bytes yet is waiting; the text before any NUL must be optional C spaces, an
/// optional sign, digits, and nothing but CR and LF after; negative counts
/// other than zero and counts past `i32::MAX` are invalid.
pub open spec fn spec_parse_simled_count(bytes: Seq<u8>) -> SimLedCount {
    if bytes.len() == 0 {
        SimLedCount::Waiting
    } else {
        let t = c_string(bytes);
        let s = skip_c_space(t, 0);
        let neg = s < t.len() && t[s] == 0x2d;
        let d = if s < t.len() && (t[s] == 0x2d || t[s] == 0x2b) { s + 1 } else { s };
        let e = digit_run(t, d);
        let v = bytes_value(t, d, e);
        if e == d || skip_crlf(t, e) != t.len() || (neg && v != 0) || v > i32::MAX {
            SimLedCount::Invalid
        } else {
            SimLedCount::Count(v as i32)
        }
    }
}

proof fn lemma_bytes_value_nonneg(t: Seq<u8>, from: int, to: int)
    requires
        0 <= from <= to <= t.len(),
        forall|k: int| from <= k < to ==> 0x30 <= #[trigger] t[k] <= 0x39,
    ensures
        bytes_value(t, from, to) >= 0,
    decreases to - from,
{
    if to > from {
        lemma_bytes_value_nonneg(t, from, to - 1);
    }
}

/// Reads the strip's answer to the LED-count query.
pub fn parse_simled_count(bytes: &[u8]) -> (r: SimLedCount)
    ensures
        r == spec_parse_simled_count(bytes@),
{
    if bytes.len() == 0 {
        return SimLedCount::Waiting;
    }
    let mut n: usize = 0;
    while n < bytes.len() && bytes[n] != 0
        invariant
            n <= bytes@.len(),
            c_string_end(bytes@, n as int) == c_string_end(bytes@, 0),
        decreases bytes@.len() - n,
    {
        n += 1;
    }
    let ghost t = bytes@.subrange(0, n as int);
    assert(t == c_string(bytes@));
    let mut s: usize = 0;
    while s < n && (bytes[s] == 0x20 || bytes[s] == 0x09 || bytes[s] == 0x0a || bytes[s] == 0x0d || bytes[s] == 0x0b
        || bytes[s] == 0x0c)
        invariant
            n <= bytes@.len(),
            t == bytes@.subrange(0, n as int),
            s <= n,
            skip_c_space(t, s as int) == skip_c_space(t, 0),
        decreases n - s,
    {
        s += 1;
    }
    let neg = s < n && bytes[s] == 0x2d;
    let d = if s < n && (bytes[s] == 0x2d || bytes[s] == 0x2b) { s + 1 } else { s };
    let mut e = d;
    let mut value: u64 = 0;
    while e < n && 0x30 <= bytes[e] && bytes[e] <= 0x39
        invariant
            n <= bytes@.len(),
            t == bytes@.subrange(0, n as int),
            d <= e <= n,
            digit_run(t, e as int) == digit_run(t, d as int),
            forall|k: int| d <= k < e ==> 0x30 <= #[trigger] t[k] <= 0x39,
            value == (if bytes_value(t, d as int, e as int) > 0x1_0000_0000 { 0x1_0000_0001 } else { bytes_value(t, d as int, e as int) }),
        decreases n - e,
    {
        let digit = (bytes[e] - 0x30) as u64;
        proof { lemma_bytes_value_nonneg(t, d as int, e as int); }
        value = if value > 0x1_0000_0000 { 0x1_0000_0001 } else {
            let v = value * 10 + digit;
            if v > 0x1_0000_0000 { 0x1_0000_0001 } else { v }
        };
        e += 1;
    }
    proof { lemma_bytes_value_nonneg(t, d as int, e as int); }
    let mut rest = e;
    while rest < n && (bytes[rest] == 0x0d || bytes[rest] == 0x0a)
        invariant
            n <= bytes@.len(),
            t == bytes@.subrange(0, n as int),
            e <= rest <= n,
            skip_crlf(t, rest as int) == skip_crlf(t, e as int),
        decreases n - rest,
    {
        rest += 1;
    }
    if e == d || rest != n || (neg && value != 0) || value > 2_147_483_647 {
        return SimLedCount::Invalid;
    }
    SimLedCount::Count(value as i32)
}

/// The baud a Moza R9 port opens at: the configured rate (0 when it is not a
/// `u32`), at least 115200.
pub fn moza_r9_open_baud(configured: i64) -> (r: u32)
    ensures
        r == (if 0 <= configured <= u32::MAX && configured >= BAUD_R9_FLOOR { configured as u32 } else { BAUD_R9_FLOOR }),
{
    let c: u32 = if 0 <= configured && configured <= u32::MAX as i64 { configured as u32 } else { 0 };
    if c > BAUD_R9_FLOOR { c } else { BAUD_R9_FLOOR }
}


pub const MOZA_START: u8 = 0x7e;
pub const MOZA_MAGIC: u32 = 0x0d;
pub const MOZA_GROUP: u8 = 0x3f;
pub const MOZA_DEVICE: u8 = 0x17;
pub const MOZA_MAX_FRAME: usize = 64;
pub const MOZA_LED_COUNT: usize = 10;
pub const MOZA_COLOUR_BYTES: usize = 40;
pub const MOZA_COLOUR_CHUNK: usize = 20;
pub const MOZA_BRIGHTNESS: u8 = 100;
pub const MOZA_CORNERS: usize = 4;
pub const MOZA_ALERT_MS: u64 = 110;
pub const MOZA_BUTTON_MS: u64 = 80;
pub const NS_PER_MS: u64 = 1_000_000;
pub const RGB_STRIDE: usize = 4;

/// The sum of the bytes.
pub open spec fn byte_sum(s: Seq<u8>) -> int
    decreases s.len(),
{
    if s.len() == 0 { 0 } else { byte_sum(s.drop_last()) + s.last() }
}

/// How many bytes are the frame start `0x7e`.
pub open spec fn start_count(s: Seq<u8>) -> int
    decreases s.len(),
{
    if s.len() == 0 { 0 } else { start_count(s.drop_last()) + (if s.last() == MOZA_START { 1int } else { 0 }) }
}

/// The checksum of a decoded frame: `0x0d` plus every byte, plus `0x7e` again
/// for each `0x7e` past the first two bytes, modulo 256.
pub open spec fn wire_checksum(decoded: Seq<u8>) -> u8 {
    ((MOZA_MAGIC + byte_sum(decoded) + MOZA_START * start_count(past_two(decoded))) % 256) as u8
}

/// The bytes past the first two, none for a shorter frame.
pub open spec fn past_two(s: Seq<u8>) -> Seq<u8> {
    if s.len() >= 2 { s.subrange(2, s.len() as int) } else { Seq::empty() }
}

/// Byte stuffing from position `i` on: every `0x7e` past the first two bytes
/// is doubled; `None` once the frame would reach 64 bytes.
pub open spec fn stuff_from(frame: Seq<u8>, i: int, out: Seq<u8>) -> Option<Seq<u8>>
    decreases frame.len() - i,
{
    if i < 0 || i >= frame.len() {
        Some(out)
    } else if out.len() + 1 >= MOZA_MAX_FRAME {
        None
    } else {
        let b = frame[i];
        stuff_from(frame, i + 1, if b == MOZA_START { out.push(b).push(b) } else { out.push(b) })
    }
}

/// The frame on the wire, or `None` when it is too short or too long.
pub open spec fn byte_stuff(frame: Seq<u8>) -> Option<Seq<u8>> {
    if frame.len() < 2 { None } else { stuff_from(frame, 2, frame.subrange(0, 2)) }
}

/// The decoded frame of a command: start, body length, group, device, then
/// the command and the payload.
pub open spec fn moza_decoded(cmd: Seq<u8>, payload: Seq<u8>) -> Seq<u8> {
    seq![MOZA_START, (cmd.len() + payload.len()) as u8, MOZA_GROUP, MOZA_DEVICE] + cmd + payload
}

/// The wire frame of a command, or `None` when its body is too long for a frame.
pub open spec fn moza_frame(cmd: Seq<u8>, payload: Seq<u8>) -> Option<Seq<u8>> {
    let body = cmd.len() + payload.len();
    if body > 255 || 5 + body > MOZA_MAX_FRAME {
        None
    } else {
        let d = moza_decoded(cmd, payload);
        byte_stuff(d.push(wire_checksum(d)))
    }
}

/// The contents of each frame.
pub open spec fn frame_views(v: Seq<Vec<u8>>) -> Seq<Seq<u8>> {
    Seq::new(v.len(), |i: int| v[i]@)
}

proof fn lemma_frame_views_push(v: Seq<Vec<u8>>, f: Vec<u8>)
    ensures
        frame_views(v.push(f)) == frame_views(v).push(f@),
{
    assert(frame_views(v.push(f)) =~= frame_views(v).push(f@));
}

/// The checksum of a decoded frame; a frame is at most 64 bytes long.
pub fn wire_checksum_exec(decoded: &Vec<u8>) -> (r: u8)
    requires
        decoded@.len() <= 64,
    ensures
        r == wire_checksum(decoded@),
{
    let ghost d = decoded@;
    let mut sum: u32 = 0;
    let mut i: usize = 0;
    while i < decoded.len()
        invariant
            d == decoded@,
            d.len() <= 64,
            i <= d.len(),
            sum == byte_sum(d.subrange(0, i as int)),
            sum <= 255 * i,
        decreases d.len() - i,
    {
        proof {
            let next = d.subrange(0, i as int + 1);
            assert(next.drop_last() =~= d.subrange(0, i as int));
        }
        sum = sum + decoded[i] as u32;
        i += 1;
    }
    assert(d.subrange(0, d.len() as int) =~= d);
    let mut extra: u32 = 0;
    if decoded.len() < 2 {
        assert(past_two(d) =~= Seq::<u8>::empty());
        return ((MOZA_MAGIC + sum) % 256) as u8;
    }
    let mut j: usize = 2;
    while j < decoded.len()
        invariant
            d == decoded@,
            2 <= d.len() <= 64,
            2 <= j <= d.len(),
            extra == start_count(d.subrange(2, j as int)),
            extra <= j - 2,
            sum == byte_sum(d),
            sum <= 255 * 64,
        decreases d.len() - j,
    {
        proof {
            let next = d.subrange(2, j as int + 1);
            assert(next.drop_last() =~= d.subrange(2, j as int));
        }
        if decoded[j] == MOZA_START {
            extra = extra + 1;
        }
        j += 1;
    }
    assert(extra <= 64 && sum <= 255 * 64);
    let stuffed_extra: u32 = 126 * extra;
    let total = MOZA_MAGIC + sum + stuffed_extra;
    (total % 256) as u8
}

fn byte_stuff_exec(frame: &Vec<u8>) -> (r: Option<Vec<u8>>)
    ensures
        match r {
            Some(v) => byte_stuff(frame@) == Some(v@),
            None => byte_stuff(frame@) is None,
        },
{
    if frame.len() < 2 {
        return None;
    }
    let mut out: Vec<u8> = Vec::new();
    out.push(frame[0]);
    out.push(frame[1]);
    assert(out@ =~= frame@.subrange(0, 2));
    let mut i: usize = 2;
    while i < frame.len()
        invariant
            2 <= i <= frame@.len(),
            out@.len() <= MOZA_MAX_FRAME,
            stuff_from(frame@, i as int, out@) == byte_stuff(frame@),
        decreases frame@.len() - i,
    {
        if out.len() + 1 >= MOZA_MAX_FRAME {
            return None;
        }
        let b = frame[i];
        out.push(b);
        if b == MOZA_START {
            out.push(MOZA_START);
        }
        i += 1;
    }
    Some(out)
}

/// Appends the wire frame of a command to `out`; false, with nothing
/// appended, when the command does not fit in a frame.
pub fn write_frame(out: &mut Vec<Vec<u8>>, cmd: &[u8], payload: &[u8]) -> (r: bool)
    ensures
        match moza_frame(cmd@, payload@) {
            Some(f) => r && frame_views(final(out)@) == frame_views(old(out)@).push(f),
            None => !r && final(out)@ == old(out)@,
        },
{
    if cmd.len() > 255 || payload.len() > 255 - cmd.len() || 5 + (cmd.len() + payload.len()) > MOZA_MAX_FRAME {
        return false;
    }
    let body = cmd.len() + payload.len();
    let mut decoded: Vec<u8> = Vec::new();
    decoded.push(MOZA_START);
    decoded.push(body as u8);
    decoded.push(MOZA_GROUP);
    decoded.push(MOZA_DEVICE);
    let mut i: usize = 0;
    while i < cmd.len()
        invariant
            i <= cmd@.len(),
            decoded@ == seq![MOZA_START, body as u8, MOZA_GROUP, MOZA_DEVICE] + cmd@.subrange(0, i as int),
        decreases cmd@.len() - i,
    {
        decoded.push(cmd[i]);
        i += 1;
        assert(decoded@ =~= seq![MOZA_START, body as u8, MOZA_GROUP, MOZA_DEVICE] + cmd@.subrange(0, i as int));
    }
    let mut j: usize = 0;
    while j < payload.len()
        invariant
            j <= payload@.len(),
            i == cmd@.len(),
            decoded@ == seq![MOZA_START, body as u8, MOZA_GROUP, MOZA_DEVICE] + cmd@.subrange(0, i as int)
                + payload@.subrange(0, j as int),
        decreases payload@.len() - j,
    {
        decoded.push(payload[j]);
        j += 1;
        assert(decoded@ =~= seq![MOZA_START, body as u8, MOZA_GROUP, MOZA_DEVICE] + cmd@.subrange(0, i as int)
            + payload@.subrange(0, j as int));
    }
    assert(cmd@.subrange(0, i as int) =~= cmd@);
    assert(payload@.subrange(0, j as int) =~= payload@);
    assert(decoded@ == moza_decoded(cmd@, payload@));
    let sum = wire_checksum_exec(&decoded);
    decoded.push(sum);
    match byte_stuff_exec(&decoded) {
        None => false,
        Some(stuffed) => {
            proof { lemma_frame_views_push(out@, stuffed); }
            out.push(stuffed);
            true
        },
    }
}

/// Which colour set the rim's LED bar shows.
#[derive(Clone, Copy, Debug, PartialEq, Eq, Structural)]
pub enum MozaBar {
    Rpm,
    Brake,
    Lock,
    Abs,
}

/// One LED colour.
#[derive(Clone, Copy, Debug, PartialEq, Eq, Structural)]
pub struct Rgb {
    pub r: u8,
    pub g: u8,
    pub b: u8,
}

/// Byte `k` of the rpm colour table: LED number, then green for the first
/// four LEDs, amber for the next three, red for the last three.
pub open spec fn rpm_table_byte(k: int) -> u8 {
    let led = k / 4;
    let part = k % 4;
    if part == 0 {
        led as u8
    } else if led < 4 {
        if part == 2 { 255 } else { 0 }
    } else if led < 7 {
        if part == 1 { 255 } else if part == 2 { 196 } else { 0 }
    } else {
        if part == 1 { 255 } else { 0 }
    }
}

/// Byte `k` of a table that shows one colour on every LED.
pub open spec fn solid_table_byte(rgb: Rgb, k: int) -> u8 {
    let part = k % 4;
    if part == 0 { (k / 4) as u8 } else if part == 1 { rgb.r } else if part == 2 { rgb.g } else { rgb.b }
}

pub open spec fn spec_rpm_table() -> Seq<u8> {
    Seq::new(MOZA_COLOUR_BYTES as nat, |k: int| rpm_table_byte(k))
}

pub open spec fn spec_solid_table(rgb: Rgb) -> Seq<u8> {
    Seq::new(MOZA_COLOUR_BYTES as nat, |k: int| solid_table_byte(rgb, k))
}

/// The rpm colour table.
pub fn rpm_table() -> (t: [u8; MOZA_COLOUR_BYTES])
    ensures
        t@ == spec_rpm_table(),
{
    let mut table = [0u8; MOZA_COLOUR_BYTES];
    let mut k: usize = 0;
    while k < MOZA_COLOUR_BYTES
        invariant
            k <= MOZA_COLOUR_BYTES,
            forall|j: int| 0 <= j < k ==> #[trigger] table@[j] == rpm_table_byte(j),
        decreases MOZA_COLOUR_BYTES - k,
    {
        let led = k / 4;
        let part = k % 4;
        let b: u8 = if part == 0 {
            led as u8
        } else if led < 4 {
            if part == 2 { 255 } else { 0 }
        } else if led < 7 {
            if part == 1 { 255 } else if part == 2 { 196 } else { 0 }
        } else {
            if part == 1 { 255 } else { 0 }
        };
        table[k] = b;
        k += 1;
    }
    assert(table@ =~= spec_rpm_table());
    table
}

/// A table that shows `rgb` on every LED.
pub fn solid_table(rgb: Rgb) -> (t: [u8; MOZA_COLOUR_BYTES])
    ensures
        t@ == spec_solid_table(rgb),
{
    let mut table = [0u8; MOZA_COLOUR_BYTES];
    let mut k: usize = 0;
    while k < MOZA_COLOUR_BYTES
        invariant
            k <= MOZA_COLOUR_BYTES,
            forall|j: int| 0 <= j < k ==> #[trigger] table@[j] == solid_table_byte(rgb, j),
        decreases MOZA_COLOUR_BYTES - k,
    {
        let part = k % 4;
        let b: u8 = if part == 0 { (k / 4) as u8 } else if part == 1 { rgb.r } else if part == 2 { rgb.g } else { rgb.b };
        table[k] = b;
        k += 1;
    }
    assert(table@ =~= spec_solid_table(rgb));
    table
}

/// The colour frames for a table: its first and second twenty bytes, in that
/// order; the second only when the first was written.
pub open spec fn colour_frames(group: u8, table: Seq<u8>) -> Seq<(Seq<u8>, Seq<u8>)> {
    seq![(seq![0x19u8, group], table.subrange(0, 20)), (seq![0x19u8, group], table.subrange(20, 40))]
}

/// Writes a colour table in two frames; stops at the first that does not fit.
pub fn send_colours(out: &mut Vec<Vec<u8>>, group: u8, table: &[u8; MOZA_COLOUR_BYTES]) -> (r: bool)
    ensures
        frames_after(frame_views(old(out)@), colour_frames(group, table@)) == (frame_views(final(out)@), r),
{
    let cmd: [u8; 2] = [0x19, group];
    assert(cmd@ =~= seq![0x19u8, group]);
    let first = slice_copy(table, 0, MOZA_COLOUR_CHUNK);
    let second = slice_copy(table, MOZA_COLOUR_CHUNK, MOZA_COLOUR_BYTES);
    let ghost start = frame_views(out@);
    let ghost reqs = colour_frames(group, table@);
    assert(reqs[0] == (cmd@, first@));
    assert(reqs[1] == (cmd@, second@));
    assert(reqs.drop_first().drop_first() =~= Seq::<(Seq<u8>, Seq<u8>)>::empty());
    proof { reveal_with_fuel(frames_after, 3); }
    if !write_frame(out, &cmd, &first) {
        return false;
    }
    write_frame(out, &cmd, &second)
}

fn slice_copy(table: &[u8; MOZA_COLOUR_BYTES], from: usize, to: usize) -> (r: Vec<u8>)
    requires
        from <= to <= MOZA_COLOUR_BYTES,
    ensures
        r@ == table@.subrange(from as int, to as int),
{
    let mut r: Vec<u8> = Vec::new();
    let mut i = from;
    while i < to
        invariant
            from <= i <= to <= MOZA_COLOUR_BYTES,
            r@ == table@.subrange(from as int, i as int),
        decreases to - i,
    {
        r.push(table[i]);
        i += 1;
        assert(r@ =~= table@.subrange(from as int, i as int));
    }
    r
}

/// The frames after writing commands in order, stopping at the first that
/// does not fit, and whether all were written.
pub open spec fn frames_after(frames: Seq<Seq<u8>>, reqs: Seq<(Seq<u8>, Seq<u8>)>) -> (Seq<Seq<u8>>, bool)
    decreases reqs.len(),
{
    if reqs.len() == 0 {
        (frames, true)
    } else {
        match moza_frame(reqs[0].0, reqs[0].1) {
            None => (frames, false),
            Some(f) => frames_after(frames.push(f), reqs.drop_first()),
        }
    }
}


proof fn lemma_frames_after_step(frames: Seq<Seq<u8>>, reqs: Seq<(Seq<u8>, Seq<u8>)>)
    requires
        reqs.len() > 0,
    ensures
        frames_after(frames, reqs) == (match moza_frame(reqs[0].0, reqs[0].1) {
            None => (frames, false),
            Some(f) => frames_after(frames.push(f), reqs.drop_first()),
        }),
{
}

/// The commands that arm telemetry mode: enable, bar brightness, the rpm
/// colours in two halves, button brightness, and the mode switch.
pub open spec fn arm_requests() -> Seq<(Seq<u8>, Seq<u8>)> {
    seq![
        (seq![0x1cu8, 0x00], seq![1u8]),
        (seq![0x1bu8, 0x00, 0xff], seq![MOZA_BRIGHTNESS]),
        (seq![0x19u8, 0x00], spec_rpm_table().subrange(0, 20)),
        (seq![0x19u8, 0x00], spec_rpm_table().subrange(20, 40)),
        (seq![0x1bu8, 0x01, 0xff], seq![MOZA_BRIGHTNESS]),
        (seq![0x1du8, 0x00], seq![0u8]),
    ]
}

fn write_step(
    out: &mut Vec<Vec<u8>>,
    cmd: &[u8],
    payload: &[u8],
    Ghost(rest): Ghost<Seq<(Seq<u8>, Seq<u8>)>>,
) -> (r: bool)
    requires
        rest.len() > 0,
        rest[0] == (cmd@, payload@),
    ensures
        r ==> frames_after(frame_views(old(out)@), rest) == frames_after(frame_views(final(out)@), rest.drop_first()),
        !r ==> frames_after(frame_views(old(out)@), rest) == (frame_views(final(out)@), false),
{
    proof { lemma_frames_after_step(frame_views(out@), rest); }
    write_frame(out, cmd, payload)
}

/// Arms telemetry mode, stopping at the first command that does not fit.
pub fn arm_telemetry(out: &mut Vec<Vec<u8>>) -> (r: bool)
    ensures
        frames_after(frame_views(old(out)@), arm_requests()) == (frame_views(final(out)@), r),
{
    let ghost reqs = arm_requests();
    let rpm = rpm_table();
    let first = slice_copy(&rpm, 0, MOZA_COLOUR_CHUNK);
    let second = slice_copy(&rpm, MOZA_COLOUR_CHUNK, MOZA_COLOUR_BYTES);
    let c1: [u8; 2] = [0x1c, 0x00];
    let p1: [u8; 1] = [1];
    let c2: [u8; 3] = [0x1b, 0x00, 0xff];
    let bright: [u8; 1] = [MOZA_BRIGHTNESS];
    let c3: [u8; 2] = [0x19, 0x00];
    let c5: [u8; 3] = [0x1b, 0x01, 0xff];
    let c6: [u8; 2] = [0x1d, 0x00];
    let p6: [u8; 1] = [0];
    assert(c1@ =~= seq![0x1cu8, 0x00]);
    assert(p1@ =~= seq![1u8]);
    assert(c2@ =~= seq![0x1bu8, 0x00, 0xff]);
    assert(bright@ =~= seq![MOZA_BRIGHTNESS]);
    assert(c3@ =~= seq![0x19u8, 0x00]);
    assert(c5@ =~= seq![0x1bu8, 0x01, 0xff]);
    assert(c6@ =~= seq![0x1du8, 0x00]);
    assert(p6@ =~= seq![0u8]);
    let ghost r1 = reqs;
    let ghost r2 = r1.drop_first();
    let ghost r3 = r2.drop_first();
    let ghost r4 = r3.drop_first();
    let ghost r5 = r4.drop_first();
    let ghost r6 = r5.drop_first();
    assert(r6.drop_first() =~= Seq::<(Seq<u8>, Seq<u8>)>::empty());
    if !write_step(out, &c1, &p1, Ghost(r1)) {
        return false;
    }
    if !write_step(out, &c2, &bright, Ghost(r2)) {
        return false;
    }
    if !write_step(out, &c3, &first, Ghost(r3)) {
        return false;
    }
    if !write_step(out, &c3, &second, Ghost(r4)) {
        return false;
    }
    if !write_step(out, &c5, &bright, Ghost(r5)) {
        return false;
    }
    write_step(out, &c6, &p6, Ghost(r6))
}

/// The payload of an rpm-mask command: the lit mask and the ten-LED window,
/// both little-endian.
pub open spec fn rpm_mask_payload(active: u32) -> Seq<u8> {
    seq![
        (active % 256) as u8,
        ((active / 256) % 256) as u8,
        ((active / 65536) % 256) as u8,
        (active / 16777216) as u8,
        0xffu8,
        0x03u8,
        0u8,
        0u8,
    ]
}

/// Writes the rpm-bar mask frame.
pub fn send_rpm_mask(out: &mut Vec<Vec<u8>>, active: u32) -> (r: bool)
    ensures
        match moza_frame(seq![0x1au8, 0x00], rpm_mask_payload(active)) {
            Some(f) => r && frame_views(final(out)@) == frame_views(old(out)@).push(f),
            None => !r && final(out)@ == old(out)@,
        },
{
    let cmd: [u8; 2] = [0x1a, 0x00];
    let payload: [u8; 8] = [
        (active & 0xff) as u8,
        ((active >> 8) & 0xff) as u8,
        ((active >> 16) & 0xff) as u8,
        (active >> 24) as u8,
        0xff,
        0x03,
        0,
        0,
    ];
    assert((active & 0xff) == active % 256) by (bit_vector);
    assert(((active >> 8) & 0xff) == (active / 256) % 256) by (bit_vector);
    assert(((active >> 16) & 0xff) == (active / 65536) % 256) by (bit_vector);
    assert((active >> 24) == active / 16777216) by (bit_vector);
    assert(cmd@ =~= seq![0x1au8, 0x00]);
    assert(payload@ =~= rpm_mask_payload(active));
    write_frame(out, &cmd, &payload)
}

/// Writes the button-light mask frame, little-endian.
pub fn send_buttons(out: &mut Vec<Vec<u8>>, mask: u16) -> (r: bool)
    ensures
        match moza_frame(seq![0x1au8, 0x01], seq![(mask % 256) as u8, (mask / 256) as u8]) {
            Some(f) => r && frame_views(final(out)@) == frame_views(old(out)@).push(f),
            None => !r && final(out)@ == old(out)@,
        },
{
    let cmd: [u8; 2] = [0x1a, 0x01];
    let payload: [u8; 2] = [(mask & 0xff) as u8, (mask >> 8) as u8];
    assert((mask & 0xff) == mask % 256) by (bit_vector);
    assert((mask >> 8) == mask / 256) by (bit_vector);
    assert(cmd@ =~= seq![0x1au8, 0x01]);
    assert(payload@ =~= seq![(mask % 256) as u8, (mask / 256) as u8]);
    write_frame(out, &cmd, &payload)
}

/// A corner colour that is not black.
pub open spec fn corner_on(c: Rgb) -> bool {
    c.r > 0 || c.g > 0 || c.b > 0
}

/// The button mask: one bit per lit corner, at its button.
pub open spec fn spec_corners_mask(corners: Seq<Rgb>) -> u16 {
    ((if corner_on(corners[0]) { 2int } else { 0 }) + (if corner_on(corners[1]) { 256int } else { 0 }) + (if corner_on(
        corners[2],
    ) { 8int } else { 0 }) + (if corner_on(corners[3]) { 64int } else { 0 })) as u16
}

/// The button mask of the brake corners.
pub fn corners_mask(corners: &[Rgb; MOZA_CORNERS]) -> (r: u16)
    ensures
        r == spec_corners_mask(corners@),
{
    let mut mask: u16 = 0;
    if corners[0].r > 0 || corners[0].g > 0 || corners[0].b > 0 {
        mask = mask + 2;
    }
    if corners[1].r > 0 || corners[1].g > 0 || corners[1].b > 0 {
        mask = mask + 256;
    }
    if corners[2].r > 0 || corners[2].g > 0 || corners[2].b > 0 {
        mask = mask + 8;
    }
    if corners[3].r > 0 || corners[3].g > 0 || corners[3].b > 0 {
        mask = mask + 64;
    }
    mask
}

/// Byte `k` of the button colour table: every LED numbered, the corners'
/// buttons in their colours, the rest black.
pub open spec fn corners_table_byte(corners: Seq<Rgb>, k: int) -> u8 {
    let led = k / 4;
    let part = k % 4;
    let c = if led == 1 { Some(corners[0]) } else if led == 8 { Some(corners[1]) } else if led == 3 { Some(
        corners[2],
    ) } else if led == 6 { Some(corners[3]) } else { None };
    if part == 0 {
        led as u8
    } else {
        match c {
            None => 0,
            Some(rgb) => if part == 1 { rgb.r } else if part == 2 { rgb.g } else { rgb.b },
        }
    }
}

pub open spec fn spec_corners_table(corners: Seq<Rgb>) -> Seq<u8> {
    Seq::new(MOZA_COLOUR_BYTES as nat, |k: int| corners_table_byte(corners, k))
}

/// The button colour table of the brake corners.
pub fn corners_table(corners: &[Rgb; MOZA_CORNERS]) -> (t: [u8; MOZA_COLOUR_BYTES])
    ensures
        t@ == spec_corners_table(corners@),
{
    let mut table = [0u8; MOZA_COLOUR_BYTES];
    let mut k: usize = 0;
    while k < MOZA_COLOUR_BYTES
        invariant
            k <= MOZA_COLOUR_BYTES,
            forall|j: int| 0 <= j < k ==> #[trigger] table@[j] == corners_table_byte(corners@, j),
        decreases MOZA_COLOUR_BYTES - k,
    {
        let led = k / 4;
        let part = k % 4;
        let c: Option<Rgb> = if led == 1 { Some(corners[0]) } else if led == 8 { Some(corners[1]) } else if led == 3 {
            Some(corners[2])
        } else if led == 6 { Some(corners[3]) } else { None };
        let b: u8 = if part == 0 {
            led as u8
        } else {
            match c {
                None => 0,
                Some(rgb) => if part == 1 { rgb.r } else if part == 2 { rgb.g } else { rgb.b },
            }
        };
        table[k] = b;
        k += 1;
    }
    assert(table@ =~= spec_corners_table(corners@));
    table
}

/// The two corner sets show the same colours.
pub fn corners_same(left: &[Rgb; MOZA_CORNERS], right: &[Rgb; MOZA_CORNERS]) -> (r: bool)
    ensures
        r == (left@ == right@),
{
    let mut i: usize = 0;
    while i < MOZA_CORNERS
        invariant
            i <= MOZA_CORNERS,
            forall|j: int| 0 <= j < i ==> left@[j] == right@[j],
        decreases MOZA_CORNERS - i,
    {
        let a = left[i];
        let b = right[i];
        if a.r != b.r || a.g != b.g || a.b != b.b {
            assert(left@[i as int] != right@[i as int]);
            return false;
        }
        i += 1;
    }
    assert(left@ =~= right@);
    true
}

/// The mask with the lowest `lit` bits set, all of them from 32 on.
pub open spec fn spec_mask_from_lit(lit: int) -> u32 {
    if lit <= 0 { 0 } else if lit >= 32 { u32::MAX } else { (vstd::arithmetic::power2::pow2(lit as nat) - 1) as u32 }
}

/// The mask with the lowest `lit` bits set.
pub fn mask_from_lit(lit: usize) -> (r: u32)
    ensures
        r == spec_mask_from_lit(lit as int),
{
    if lit == 0 {
        return 0;
    }
    if lit >= 32 {
        return u32::MAX;
    }
    let l = lit as u32;
    proof {
        vstd::bits::lemma_u32_pow2_no_overflow(l as nat);
        vstd::bits::lemma_u32_shl_is_mul(1, l);
    }
    (1u32 << l) - 1
}

/// Whole milliseconds from `start_ns` to `now_ns`, zero when the clock is behind.
pub open spec fn spec_elapsed_ms(now_ns: u64, start_ns: u64) -> u64 {
    if now_ns >= start_ns { ((now_ns - start_ns) / NS_PER_MS as int) as u64 } else { 0 }
}

pub fn elapsed_ms(now_ns: u64, start_ns: u64) -> (r: u64)
    ensures
        r == spec_elapsed_ms(now_ns, start_ns),
{
    let d = if now_ns >= start_ns { now_ns - start_ns } else { 0 };
    d / NS_PER_MS
}

/// Alerts blink: on for 110 ms, off for 110 ms, from the moment the wheel was armed.
pub fn blink_on(now_ns: u64, started_ns: u64) -> (r: bool)
    ensures
        r == spec_blink_on(now_ns, started_ns),
{
    let periods = elapsed_ms(now_ns, started_ns) / MOZA_ALERT_MS;
    periods % 2 == 0
}

/// The colour table a bar shows: purple for brake and lock, blue for ABS, the
/// rpm colours otherwise.
pub open spec fn bar_table(bar: MozaBar) -> Seq<u8> {
    match bar {
        MozaBar::Brake | MozaBar::Lock => spec_solid_table(Rgb { r: 180, g: 0, b: 255 }),
        MozaBar::Abs => spec_solid_table(Rgb { r: 0, g: 120, b: 255 }),
        MozaBar::Rpm => spec_rpm_table(),
    }
}

/// Writes the bar's colour table.
pub fn apply_bar_colours(out: &mut Vec<Vec<u8>>, bar: MozaBar) -> (r: bool)
    ensures
        frames_after(frame_views(old(out)@), colour_frames(0x00, bar_table(bar))) == (frame_views(final(out)@), r),
{
    let table = match bar {
        MozaBar::Brake | MozaBar::Lock => solid_table(Rgb { r: 180, g: 0, b: 255 }),
        MozaBar::Abs => solid_table(Rgb { r: 0, g: 120, b: 255 }),
        MozaBar::Rpm => rpm_table(),
    };
    send_colours(out, 0x00, &table)
}

/// What one step of a Moza wheel wrote and what happened.
#[derive(Clone, Debug)]
pub struct MozaNewStep {
    pub frames: Vec<Vec<u8>>,
    pub arm_failed: bool,
    pub just_armed: bool,
    pub rpm_failed: bool,
    pub rpm_sent: bool,
}

/// A new-firmware Moza wheel (R9): whether telemetry is armed, which bar it
/// shows, the latched alerts, and when it last wrote its buttons.
pub struct MozaNewWheel {
    pub armed: bool,
    pub braking: bool,
    pub lock_latched: bool,
    pub abs_latched: bool,
    pub has_button_write: bool,
    pub bar: MozaBar,
    pub last_rpm_lit: usize,
    pub last_brake_lit: usize,
    pub last_corners: [Rgb; MOZA_CORNERS],
    pub started_ns: u64,
    pub last_button_ns: u64,
}

/// Four dark corners.
pub open spec fn dark_corners() -> [Rgb; MOZA_CORNERS] {
    [Rgb { r: 0, g: 0, b: 0 }, Rgb { r: 0, g: 0, b: 0 }, Rgb { r: 0, g: 0, b: 0 }, Rgb { r: 0, g: 0, b: 0 }]
}

/// A wheel just reset at `now_ns`: not armed, showing rpm, nothing latched,
/// every corner dark, its blink clock started at `now_ns`.
pub open spec fn fresh_state(now_ns: u64) -> MozaNewWheel {
    MozaNewWheel {
        armed: false,
        braking: false,
        lock_latched: false,
        abs_latched: false,
        has_button_write: false,
        bar: MozaBar::Rpm,
        last_rpm_lit: 0,
        last_brake_lit: 0,
        last_corners: dark_corners(),
        started_ns: now_ns,
        last_button_ns: 0,
    }
}

impl MozaNewWheel {
    /// A wheel that is not armed, showing rpm, with every corner dark.
    pub fn new() -> (w: Self)
        ensures
            w == fresh_state(0),
    {
        let dark = Rgb { r: 0, g: 0, b: 0 };
        let w = MozaNewWheel {
            armed: false,
            braking: false,
            lock_latched: false,
            abs_latched: false,
            has_button_write: false,
            bar: MozaBar::Rpm,
            last_rpm_lit: 0,
            last_brake_lit: 0,
            last_corners: [dark, dark, dark, dark],
            started_ns: 0,
            last_button_ns: 0,
        };
        assert(w.last_corners =~= dark_corners());
        w
    }

    /// Back to a new wheel, with its blink clock started at `now_ns`.
    pub fn reset(&mut self, now_ns: u64)
        ensures
            *final(self) == fresh_state(now_ns),
    {
        *self = Self::new();
        self.started_ns = now_ns;
    }

    pub fn armed(&self) -> (r: bool)
        ensures
            r == self.armed,
    {
        self.armed
    }

    /// Telemetry will be armed again on the next tick.
    pub fn disarm(&mut self)
        ensures
            !final(self).armed,
            final(self).bar == old(self).bar,
            final(self).started_ns == old(self).started_ns,
    {
        self.armed = false;
    }

    /// Resets the wheel at `now_ns` and arms telemetry; armed when every
    /// arming frame was written.
    pub fn prepare(&mut self, now_ns: u64) -> (step: MozaNewStep)
        ensures
            *final(self) == (MozaNewWheel { armed: final(self).armed, ..fresh_state(now_ns) }),
            frames_after(Seq::empty(), arm_requests()) == (frame_views(step.frames@), final(self).armed),
            !step.arm_failed && !step.just_armed && !step.rpm_failed && !step.rpm_sent,
            final(self).armed,
            step.frames@.len() == 6,
    {
        proof {
            arming_sends_six_frames();
        }
        self.reset(now_ns);
        let mut frames: Vec<Vec<u8>> = Vec::new();
        assert(frame_views(frames@) =~= Seq::<Seq<u8>>::empty());
        let armed = arm_telemetry(&mut frames);
        self.armed = armed;
        MozaNewStep { frames, arm_failed: false, just_armed: false, rpm_failed: false, rpm_sent: false }
    }
}


/// The Moza checksum of a packet: `0x0d` plus every byte, modulo 256.
pub open spec fn moza_checksum(data: Seq<u8>) -> u8 {
    ((MOZA_MAGIC + byte_sum(data)) % 256) as u8
}

fn moza_checksum_exec(data: &[u8]) -> (r: u8)
    requires
        data@.len() <= 64,
    ensures
        r == moza_checksum(data@),
{
    let mut sum: u32 = MOZA_MAGIC;
    let mut i: usize = 0;
    while i < data.len()
        invariant
            data@.len() <= 64,
            i <= data@.len(),
            sum == MOZA_MAGIC + byte_sum(data@.subrange(0, i as int)),
            sum <= MOZA_MAGIC + 255 * i,
        decreases data@.len() - i,
    {
        proof {
            let next = data@.subrange(0, i as int + 1);
            assert(next.drop_last() =~= data@.subrange(0, i as int));
        }
        sum = sum + data[i] as u32;
        i += 1;
    }
    assert(data@.subrange(0, data@.len() as int) =~= data@);
    (sum % 256) as u8
}

/// `bit` when `on`, else zero.
pub open spec fn bit_if(on: bool, bit: int) -> int {
    if on { bit } else { 0 }
}

/// The R5 rpm packet for an rpm percentage: bits of byte 9 at 10 % steps up to
/// 80 %, bits of byte 8 at 90 and 92 %, the blink bit at 94 %, and the checksum.
pub open spec fn spec_r5_packet(percent: i32) -> Seq<u8> {
    let b9 = bit_if(percent >= 10, 1) + bit_if(percent >= 20, 2) + bit_if(percent >= 30, 4) + bit_if(percent >= 40, 8)
        + bit_if(percent >= 50, 16) + bit_if(percent >= 60, 32) + bit_if(percent >= 70, 64) + bit_if(
        percent >= 80,
        128,
    );
    let b8 = bit_if(percent >= 90, 1) + bit_if(percent >= 92, 2) + bit_if(percent >= 94, 128);
    let body = seq![0x7eu8, 0x06, 0x41, 0x13, 0xfd, 0xde, 0, 0, b8 as u8, b9 as u8, 0];
    body.update(10, moza_checksum(body))
}

/// The Moza R5 rpm packet for an rpm percentage.
pub fn r5_packet_for_percent(percent: i32) -> (r: [u8; 11])
    ensures
        r@ == spec_r5_packet(percent),
{
    let mut b9: u8 = 0;
    if percent >= 10 { b9 = b9 + 1; }
    if percent >= 20 { b9 = b9 + 2; }
    if percent >= 30 { b9 = b9 + 4; }
    if percent >= 40 { b9 = b9 + 8; }
    if percent >= 50 { b9 = b9 + 16; }
    if percent >= 60 { b9 = b9 + 32; }
    if percent >= 70 { b9 = b9 + 64; }
    if percent >= 80 { b9 = b9 + 128; }
    let mut b8: u8 = 0;
    if percent >= 90 { b8 = b8 + 1; }
    if percent >= 92 { b8 = b8 + 2; }
    if percent >= 94 { b8 = b8 + 128; }
    let mut bytes: [u8; 11] = [0x7e, 0x06, 0x41, 0x13, 0xfd, 0xde, 0, 0, b8, b9, 0];
    let sum = moza_checksum_exec(&bytes);
    bytes[10] = sum;
    assert(bytes@ =~= spec_r5_packet(percent));
    bytes
}

/// The KS Pro rpm mask for an rpm percentage: near the redline the mask blinks
/// off every other 128 ms tick; byte 6 and 7 bits light at 75 % and every 2 %
/// after up to 97 %; a yellow flag lights its own bits; then the checksum.
pub open spec fn spec_ks_mask(percent: i32, mtick: u64, yellow: bool) -> Seq<u8> {
    let p = if percent >= 98 && (mtick / 128) % 2 == 1 { 0 } else { percent as int };
    let b6 = bit_if(p >= 75, 8) + bit_if(p >= 77, 16) + bit_if(p >= 79, 32) + bit_if(p >= 81, 64) + bit_if(p >= 83, 128)
        + bit_if(yellow, 7);
    let b7 = bit_if(p >= 85, 1) + bit_if(p >= 87, 2) + bit_if(p >= 89, 4) + bit_if(p >= 91, 8) + bit_if(p >= 93, 16)
        + bit_if(p >= 95, 32) + bit_if(p >= 97, 64) + bit_if(yellow, 128);
    let b8 = bit_if(yellow, 3);
    let body = seq![0x7eu8, 0x06, 0x3f, 0x17, 0x1a, 0, b6 as u8, b7 as u8, b8 as u8, 0, 0];
    body.update(10, moza_checksum(body))
}

/// The Moza KS Pro rpm mask for an rpm percentage, the telemetry tick and the flag.
pub fn ks_mask_for_percent(percent: i32, mtick: u64, yellow: bool) -> (r: [u8; 11])
    ensures
        r@ == spec_ks_mask(percent, mtick, yellow),
{
    let blink = ((mtick >> 7) & 1) == 1;
    assert(((mtick >> 7) & 1) == (mtick / 128) % 2) by (bit_vector);
    let p: i32 = if percent >= 98 && blink { 0 } else { percent };
    let mut b6: u8 = 0;
    if p >= 75 { b6 = b6 + 8; }
    if p >= 77 { b6 = b6 + 16; }
    if p >= 79 { b6 = b6 + 32; }
    if p >= 81 { b6 = b6 + 64; }
    if p >= 83 { b6 = b6 + 128; }
    if yellow { b6 = b6 + 7; }
    let mut b7: u8 = 0;
    if p >= 85 { b7 = b7 + 1; }
    if p >= 87 { b7 = b7 + 2; }
    if p >= 89 { b7 = b7 + 4; }
    if p >= 91 { b7 = b7 + 8; }
    if p >= 93 { b7 = b7 + 16; }
    if p >= 95 { b7 = b7 + 32; }
    if p >= 97 { b7 = b7 + 64; }
    if yellow { b7 = b7 + 128; }
    let b8: u8 = if yellow { 3 } else { 0 };
    let mut bytes: [u8; 11] = [0x7e, 0x06, 0x3f, 0x17, 0x1a, 0, b6, b7, b8, 0, 0];
    let sum = moza_checksum_exec(&bytes);
    bytes[10] = sum;
    assert(bytes@ =~= spec_ks_mask(percent, mtick, yellow));
    bytes
}

/// The KS Pro colour packets sent when the port opens, before their checksums.
pub open spec fn ks_templates() -> Seq<Seq<u8>> {
    seq![
        seq![0x7eu8, 0x16, 0x3f, 0x17, 0x19, 0, 0, 0, 0, 0, 1, 0, 0, 0, 2, 0, 0, 0, 3, 0xff, 0, 0, 4, 0xff, 0, 0, 0],
        seq![0x7eu8, 0x16, 0x3f, 0x17, 0x19, 0, 5, 0xff, 0, 0, 6, 0xff, 0, 0, 7, 0xff, 0, 0, 8, 0xff, 0, 0, 9, 0xff, 0, 0, 0],
        seq![0x7eu8, 0x16, 0x3f, 0x17, 0x19, 0, 10, 0xff, 0x7f, 0, 11, 0xff, 0x7f, 0, 12, 0xff, 0x7f, 0, 13, 0, 0, 0xff, 14, 0, 0, 0xff, 0],
        seq![0x7eu8, 0x16, 0x3f, 0x17, 0x19, 1, 0, 0xff, 0, 0, 1, 0xff, 0, 0, 2, 0xff, 0, 0, 3, 0xff, 0, 0, 4, 0xff, 0, 0, 0],
        seq![0x7eu8, 0x16, 0x3f, 0x17, 0x19, 1, 5, 0xff, 0, 0, 6, 0xff, 0, 0, 7, 0xff, 0, 0, 8, 0xff, 0, 0, 9, 0xff, 0, 0, 0],
        seq![0x7eu8, 0x16, 0x3f, 0x17, 0x19, 0, 15, 0, 0, 0, 16, 0, 0, 0, 17, 0, 0, 0, 15, 0, 0, 0, 16, 0, 0, 0, 0],
    ]
}

fn ks_color(template: [u8; 27]) -> (r: [u8; 27])
    ensures
        r@ == template@.update(26, moza_checksum(template@)),
{
    let mut bytes = template;
    let sum = moza_checksum_exec(&bytes);
    bytes[26] = sum;
    bytes
}

/// The KS Pro colour packets sent when the port opens, each with its checksum.
pub fn ks_init_colors() -> (r: Vec<[u8; 27]>)
    ensures
        r@.len() == 6,
        forall|k: int| 0 <= k < 6 ==> #[trigger] r@[k]@ == ks_templates()[k].update(26, moza_checksum(ks_templates()[k])),
{
    let t0: [u8; 27] = [0x7e, 0x16, 0x3f, 0x17, 0x19, 0, 0, 0, 0, 0, 1, 0, 0, 0, 2, 0, 0, 0, 3, 0xff, 0, 0, 4, 0xff, 0, 0, 0];
    let t1: [u8; 27] = [0x7e, 0x16, 0x3f, 0x17, 0x19, 0, 5, 0xff, 0, 0, 6, 0xff, 0, 0, 7, 0xff, 0, 0, 8, 0xff, 0, 0, 9, 0xff, 0, 0, 0];
    let t2: [u8; 27] = [0x7e, 0x16, 0x3f, 0x17, 0x19, 0, 10, 0xff, 0x7f, 0, 11, 0xff, 0x7f, 0, 12, 0xff, 0x7f, 0, 13, 0, 0, 0xff, 14, 0, 0, 0xff, 0];
    let t3: [u8; 27] = [0x7e, 0x16, 0x3f, 0x17, 0x19, 1, 0, 0xff, 0, 0, 1, 0xff, 0, 0, 2, 0xff, 0, 0, 3, 0xff, 0, 0, 4, 0xff, 0, 0, 0];
    let t4: [u8; 27] = [0x7e, 0x16, 0x3f, 0x17, 0x19, 1, 5, 0xff, 0, 0, 6, 0xff, 0, 0, 7, 0xff, 0, 0, 8, 0xff, 0, 0, 9, 0xff, 0, 0, 0];
    let t5: [u8; 27] = [0x7e, 0x16, 0x3f, 0x17, 0x19, 0, 15, 0, 0, 0, 16, 0, 0, 0, 17, 0, 0, 0, 15, 0, 0, 0, 16, 0, 0, 0, 0];
    assert(t0@ =~= ks_templates()[0]);
    assert(t1@ =~= ks_templates()[1]);
    assert(t2@ =~= ks_templates()[2]);
    assert(t3@ =~= ks_templates()[3]);
    assert(t4@ =~= ks_templates()[4]);
    assert(t5@ =~= ks_templates()[5]);
    let mut r: Vec<[u8; 27]> = Vec::new();
    r.push(ks_color(t0));
    r.push(ks_color(t1));
    r.push(ks_color(t2));
    r.push(ks_color(t3));
    r.push(ks_color(t4));
    r.push(ks_color(t5));
    r
}

/// The corners' button colours, then their button mask.
pub open spec fn brake_button_requests(corners: Seq<Rgb>) -> Seq<(Seq<u8>, Seq<u8>)> {
    colour_frames(0x01, spec_corners_table(corners)) + seq![
        (seq![0x1au8, 0x01], seq![(spec_corners_mask(corners) % 256) as u8, (spec_corners_mask(corners) / 256) as u8]),
    ]
}

/// Writes the corners' button colours and then, when those were written, their mask.
pub fn write_brake_buttons(out: &mut Vec<Vec<u8>>, corners: &[Rgb; MOZA_CORNERS]) -> (r: bool)
    ensures
        frames_after(frame_views(old(out)@), brake_button_requests(corners@)) == (frame_views(final(out)@), r),
{
    let ghost reqs = brake_button_requests(corners@);
    proof { reveal_with_fuel(frames_after, 4); }
    let table = corners_table(corners);
    let ghost mid = frame_views(out@);
    if !send_colours(out, 0x01, &table) {
        assert(frames_after(mid, reqs) == (frame_views(out@), false)) by {
            assert(reqs.subrange(0, 2) =~= colour_frames(0x01, spec_corners_table(corners@)));
            lemma_frames_after_prefix_fail(mid, colour_frames(0x01, spec_corners_table(corners@)), reqs.subrange(2, 3));
            assert(reqs =~= colour_frames(0x01, spec_corners_table(corners@)) + reqs.subrange(2, 3));
        }
        return false;
    }
    let ghost after_colours = frame_views(out@);
    let mask = corners_mask(corners);
    let r = send_buttons(out, mask);
    proof {
        let rest = reqs.subrange(2, 3);
        assert(reqs =~= colour_frames(0x01, spec_corners_table(corners@)) + rest);
        lemma_frames_after_concat(mid, colour_frames(0x01, spec_corners_table(corners@)), rest);
        assert(rest.drop_first() =~= Seq::<(Seq<u8>, Seq<u8>)>::empty());
    }
    r
}

proof fn lemma_frames_after_concat(frames: Seq<Seq<u8>>, a: Seq<(Seq<u8>, Seq<u8>)>, b: Seq<(Seq<u8>, Seq<u8>)>)
    ensures
        frames_after(frames, a + b) == (if frames_after(frames, a).1 {
            frames_after(frames_after(frames, a).0, b)
        } else {
            frames_after(frames, a)
        }),
    decreases a.len(),
{
    if a.len() == 0 {
        assert(a + b =~= b);
    } else {
        assert((a + b).drop_first() =~= a.drop_first() + b);
        assert((a + b)[0] == a[0]);
        match moza_frame(a[0].0, a[0].1) {
            None => {},
            Some(f) => {
                lemma_frames_after_concat(frames.push(f), a.drop_first(), b);
            },
        }
    }
}

proof fn lemma_frames_after_prefix_fail(
    frames: Seq<Seq<u8>>,
    a: Seq<(Seq<u8>, Seq<u8>)>,
    b: Seq<(Seq<u8>, Seq<u8>)>,
)
    requires
        !frames_after(frames, a).1,
    ensures
        frames_after(frames, a + b) == frames_after(frames, a),
{
    lemma_frames_after_concat(frames, a, b);
}

/// The frames a blanked wheel gets after `frames`: dark buttons, an empty
/// rpm mask, and the rpm colours again when `bar` was another bar. Each is
/// written whether or not the one before it was.
pub open spec fn blank_frames(frames: Seq<Seq<u8>>, bar: MozaBar) -> Seq<Seq<u8>> {
    let buttons = frames_after(frames, brake_button_requests(dark_corners()@)).0;
    let masked = match moza_frame(seq![0x1au8, 0x00], rpm_mask_payload(0)) {
        Some(f) => buttons.push(f),
        None => buttons,
    };
    if bar != MozaBar::Rpm {
        frames_after(masked, colour_frames(0x00, bar_table(MozaBar::Rpm))).0
    } else {
        masked
    }
}

/// Blanks a wheel whose sim is not in active play: dark buttons, an empty
/// rpm mask, the rpm colours back when another bar was shown; then the wheel
/// is reset at `now_ns` and stays armed.
pub fn blank_wheel(out: &mut Vec<Vec<u8>>, wheel: &mut MozaNewWheel, now_ns: u64)
    ensures
        *final(wheel) == (MozaNewWheel { armed: true, ..fresh_state(now_ns) }),
        frame_views(final(out)@) == blank_frames(frame_views(old(out)@), old(wheel).bar),
{
    let dark = Rgb { r: 0, g: 0, b: 0 };
    let off = [dark, dark, dark, dark];
    assert(off =~= dark_corners());
    let _ = write_brake_buttons(out, &off);
    let _ = send_rpm_mask(out, 0);
    if wheel.bar != MozaBar::Rpm {
        let _ = apply_bar_colours(out, MozaBar::Rpm);
    }
    wheel.reset(now_ns);
    wheel.armed = true;
}

/// What one telemetry frame says to a new-firmware Moza rim. The caller reads
/// these from the frame's floating-point fields.
#[derive(Clone, Copy, Debug)]
pub struct MozaFrameFacts {
    /// The sim is in active play.
    pub active: bool,
    /// Braking hard at speed with a wheel slipping past the lock threshold.
    pub locking: bool,
    /// The peak wheel slip is below the level that releases a latched lock.
    pub lock_clear: bool,
    /// ABS is working.
    pub abs_on: bool,
    /// The brake is at or above the level that shows the brake bar.
    pub brake_show: bool,
    /// The brake is below the level that hides the brake bar.
    pub brake_low: bool,
    /// The brake-heat colour of each corner.
    pub corners: [Rgb; MOZA_CORNERS],
}

/// The latched alerts after a frame: a lock latches when the wheel locks and
/// is released when locking stops or the slip falls below the release level;
/// ABS follows the frame.
pub open spec fn latch_alerts(w: MozaNewWheel, f: MozaFrameFacts) -> MozaNewWheel {
    MozaNewWheel {
        lock_latched: if w.lock_latched { f.locking && !f.lock_clear } else { f.locking },
        abs_latched: f.abs_on,
        ..w
    }
}

/// The alert bar of a wheel: lock before ABS, rpm when neither is latched.
pub open spec fn alert_of(w: MozaNewWheel) -> MozaBar {
    if w.lock_latched {
        MozaBar::Lock
    } else if w.abs_latched {
        MozaBar::Abs
    } else {
        MozaBar::Rpm
    }
}

/// Braking starts at the show level and stops below the hide level; between
/// the two it stays as it was.
pub open spec fn note_braking(w: MozaNewWheel, f: MozaFrameFacts) -> MozaNewWheel {
    MozaNewWheel { braking: if f.brake_show { true } else if f.brake_low { false } else { w.braking }, ..w }
}

/// The bar a wheel wants: an alert when there is one, else the brake bar
/// while braking, else rpm.
pub open spec fn wanted_bar(w: MozaNewWheel, alert: MozaBar) -> MozaBar {
    if alert != MozaBar::Rpm {
        alert
    } else if w.braking {
        MozaBar::Brake
    } else {
        MozaBar::Rpm
    }
}

/// Latches the alerts for a frame and gives the alert bar it calls for.
pub fn alert_mode(wheel: &mut MozaNewWheel, facts: &MozaFrameFacts) -> (bar: MozaBar)
    ensures
        *final(wheel) == latch_alerts(*old(wheel), *facts),
        bar == alert_of(*final(wheel)),
{
    if wheel.lock_latched {
        if !facts.locking || facts.lock_clear {
            wheel.lock_latched = false;
        }
    } else if facts.locking {
        wheel.lock_latched = true;
    }
    if wheel.abs_latched {
        if !facts.abs_on {
            wheel.abs_latched = false;
        }
    } else if facts.abs_on {
        wheel.abs_latched = true;
    }
    if wheel.lock_latched {
        return MozaBar::Lock;
    }
    if wheel.abs_latched {
        return MozaBar::Abs;
    }
    MozaBar::Rpm
}

/// Notes whether the driver is braking and gives the bar the wheel wants.
pub fn desired_bar(wheel: &mut MozaNewWheel, facts: &MozaFrameFacts, alert: MozaBar) -> (bar: MozaBar)
    ensures
        *final(wheel) == note_braking(*old(wheel), *facts),
        bar == wanted_bar(*final(wheel), alert),
{
    if facts.brake_show {
        wheel.braking = true;
    } else if facts.brake_low {
        wheel.braking = false;
    }
    if alert != MozaBar::Rpm {
        return alert;
    }
    if wheel.braking {
        return MozaBar::Brake;
    }
    MozaBar::Rpm
}

/// Switching to `bar` when it is not shown yet: the wheel takes it when its
/// colours were written, and the brake bar's lit count starts over on rpm.
pub open spec fn show_bar(frames: Seq<Seq<u8>>, w: MozaNewWheel, bar: MozaBar) -> (Seq<Seq<u8>>, MozaNewWheel) {
    if bar == w.bar {
        (frames, w)
    } else {
        let sent = frames_after(frames, colour_frames(0x00, bar_table(bar)));
        if sent.1 {
            (sent.0, MozaNewWheel { bar: bar, last_brake_lit: if bar == MozaBar::Rpm { 0 } else { w.last_brake_lit }, ..w })
        } else {
            (sent.0, w)
        }
    }
}

/// The corner buttons are rewritten when their colours changed and either a
/// corner went on or off, or none were written yet, or the last write is 80 ms old.
pub open spec fn corners_due(w: MozaNewWheel, corners: Seq<Rgb>, now_ns: u64) -> bool {
    &&& corners != w.last_corners@
    &&& (spec_corners_mask(corners) != spec_corners_mask(w.last_corners@) || !w.has_button_write
        || spec_elapsed_ms(now_ns, w.last_button_ns) >= MOZA_BUTTON_MS)
}

/// Writing the corner buttons when they are due; the wheel remembers them when
/// every frame was written.
pub open spec fn show_corners(frames: Seq<Seq<u8>>, w: MozaNewWheel, corners: [Rgb; MOZA_CORNERS], now_ns: u64) -> (
    Seq<Seq<u8>>,
    MozaNewWheel,
) {
    if !corners_due(w, corners@, now_ns) {
        (frames, w)
    } else {
        let sent = frames_after(frames, brake_button_requests(corners@));
        if sent.1 {
            (sent.0, MozaNewWheel { last_corners: corners, last_button_ns: now_ns, has_button_write: true, ..w })
        } else {
            (sent.0, w)
        }
    }
}

/// The lights of an armed wheel for a frame in active play: latch the alerts,
/// note braking, show the wanted bar, then the corner buttons.
pub open spec fn lights_after(frames: Seq<Seq<u8>>, w: MozaNewWheel, f: MozaFrameFacts, now_ns: u64) -> (
    Seq<Seq<u8>>,
    MozaNewWheel,
) {
    let latched = latch_alerts(w, f);
    let noted = note_braking(latched, f);
    let shown = show_bar(frames, noted, wanted_bar(noted, alert_of(latched)));
    show_corners(shown.0, shown.1, f.corners, now_ns)
}

/// A wheel ready for a frame: an armed wheel as it is, with no frames yet; an
/// unarmed one reset at `now_ns` and armed after the arming frames, or left as
/// it was when they could not all be written. The flag says whether it is armed.
pub open spec fn armed_start(w: MozaNewWheel, now_ns: u64) -> (Seq<Seq<u8>>, MozaNewWheel, bool) {
    if w.armed {
        (Seq::empty(), w, true)
    } else {
        let sent = frames_after(Seq::empty(), arm_requests());
        if sent.1 {
            (sent.0, MozaNewWheel { armed: true, ..fresh_state(now_ns) }, true)
        } else {
            (sent.0, w, false)
        }
    }
}

/// Whether an alert bar is in the lit half of its blink period.
pub open spec fn spec_blink_on(now_ns: u64, started_ns: u64) -> bool {
    (spec_elapsed_ms(now_ns, started_ns) / MOZA_ALERT_MS) % 2 == 0
}

/// The bar's LED mask and the wheel after it. `brake_bits` is the brake
/// bar's mask and lit count for the wheel's last brake count, `rpm_bits` the
/// rpm bar's for its last rpm count; `brake_held` says the brake is at or above
/// the hide level. The brake bar shows the brake; an alert shows the brake
/// while it is held, else the whole bar, and blinks; rpm shows the rpm bar.
pub open spec fn bar_mask_next(
    w: MozaNewWheel,
    bar: MozaBar,
    brake_held: bool,
    brake_bits: (u32, usize),
    rpm_bits: (u32, usize),
    now_ns: u64,
) -> (u32, MozaNewWheel) {
    match bar {
        MozaBar::Brake => (brake_bits.0, MozaNewWheel { last_brake_lit: brake_bits.1, ..w }),
        MozaBar::Lock | MozaBar::Abs => {
            let shown = if brake_held { brake_bits } else { (spec_mask_from_lit(MOZA_LED_COUNT as int), MOZA_LED_COUNT) };
            (
                if spec_blink_on(now_ns, w.started_ns) { shown.0 } else { 0 },
                MozaNewWheel { last_brake_lit: shown.1, ..w },
            )
        },
        MozaBar::Rpm => (rpm_bits.0, MozaNewWheel { last_brake_lit: 0, last_rpm_lit: rpm_bits.1, ..w }),
    }
}

/// The LED mask a bar shows; see `bar_mask_next`.
pub fn bar_mask(
    wheel: &mut MozaNewWheel,
    bar: MozaBar,
    brake_held: bool,
    brake_bits: (u32, usize),
    rpm_bits: (u32, usize),
    now_ns: u64,
) -> (r: u32)
    ensures
        (r, *final(wheel)) == bar_mask_next(*old(wheel), bar, brake_held, brake_bits, rpm_bits, now_ns),
{
    match bar {
        MozaBar::Brake => {
            wheel.last_brake_lit = brake_bits.1;
            brake_bits.0
        },
        MozaBar::Lock | MozaBar::Abs => {
            let mask = if brake_held {
                wheel.last_brake_lit = brake_bits.1;
                brake_bits.0
            } else {
                wheel.last_brake_lit = MOZA_LED_COUNT;
                mask_from_lit(MOZA_LED_COUNT)
            };
            if blink_on(now_ns, wheel.started_ns) {
                mask
            } else {
                0
            }
        },
        MozaBar::Rpm => {
            wheel.last_brake_lit = 0;
            wheel.last_rpm_lit = rpm_bits.1;
            rpm_bits.0
        },
    }
}

impl MozaNewWheel {
    /// The first half of a tick: arm the wheel when it is not armed, blank it
    /// when the sim is not in active play, else latch the alerts, show the
    /// wanted bar and the corner buttons. The flag says whether the tick goes
    /// on to the rpm mask (`tick_rpm`).
    pub fn tick_lights(&mut self, facts: &MozaFrameFacts, now_ns: u64) -> (r: (MozaNewStep, bool))
        ensures
            !armed_start(*old(self), now_ns).2 ==> {
                &&& *final(self) == *old(self)
                &&& frame_views(r.0.frames@) == armed_start(*old(self), now_ns).0
                &&& r.0.arm_failed
                &&& !r.1
            },
            armed_start(*old(self), now_ns).2 && !facts.active ==> {
                &&& *final(self) == (MozaNewWheel { armed: true, ..fresh_state(now_ns) })
                &&& frame_views(r.0.frames@) == blank_frames(
                    armed_start(*old(self), now_ns).0,
                    armed_start(*old(self), now_ns).1.bar,
                )
                &&& !r.0.arm_failed
                &&& !r.1
            },
            armed_start(*old(self), now_ns).2 && facts.active ==> {
                &&& (frame_views(r.0.frames@), *final(self)) == lights_after(
                    armed_start(*old(self), now_ns).0,
                    armed_start(*old(self), now_ns).1,
                    *facts,
                    now_ns,
                )
                &&& !r.0.arm_failed
                &&& r.1
            },
            r.0.just_armed == (!old(self).armed && armed_start(*old(self), now_ns).2),
            !r.0.rpm_failed,
            !r.0.rpm_sent,
    {
        let mut frames: Vec<Vec<u8>> = Vec::new();
        assert(frame_views(frames@) =~= Seq::<Seq<u8>>::empty());
        let mut just_armed = false;
        if !self.armed {
            if !arm_telemetry(&mut frames) {
                let step = MozaNewStep { frames, arm_failed: true, just_armed: false, rpm_failed: false, rpm_sent: false };
                return (step, false);
            }
            self.reset(now_ns);
            self.armed = true;
            just_armed = true;
        }
        let ghost start = armed_start(*old(self), now_ns);
        assert(frame_views(frames@) == start.0 && *self == start.1);
        if !facts.active {
            blank_wheel(&mut frames, self, now_ns);
            let step = MozaNewStep { frames, arm_failed: false, just_armed, rpm_failed: false, rpm_sent: false };
            return (step, false);
        }
        let alert = alert_mode(self, facts);
        let bar = desired_bar(self, facts, alert);
        if bar != self.bar && apply_bar_colours(&mut frames, bar) {
            if bar == MozaBar::Rpm {
                self.last_brake_lit = 0;
            }
            self.bar = bar;
        }
        let corners = facts.corners;
        let changed = !corners_same(&corners, &self.last_corners);
        let on_off = corners_mask(&corners) != corners_mask(&self.last_corners);
        let due = !self.has_button_write || elapsed_ms(now_ns, self.last_button_ns) >= MOZA_BUTTON_MS;
        if changed && (on_off || due) && write_brake_buttons(&mut frames, &corners) {
            self.last_corners = corners;
            self.last_button_ns = now_ns;
            self.has_button_write = true;
        }
        let step = MozaNewStep { frames, arm_failed: false, just_armed, rpm_failed: false, rpm_sent: false };
        (step, true)
    }

    /// The second half of a tick: the bar's LED mask (`bar_mask`) is written;
    /// when that fails the wheel is disarmed and the step says so.
    pub fn tick_rpm(
        &mut self,
        step: &mut MozaNewStep,
        brake_held: bool,
        brake_bits: (u32, usize),
        rpm_bits: (u32, usize),
        now_ns: u64,
    )
        ensures
            ({
                let next = bar_mask_next(*old(self), old(self).bar, brake_held, brake_bits, rpm_bits, now_ns);
                match moza_frame(seq![0x1au8, 0x00], rpm_mask_payload(next.0)) {
                    Some(f) => {
                        &&& frame_views(final(step).frames@) == frame_views(old(step).frames@).push(f)
                        &&& *final(self) == next.1
                        &&& final(step).rpm_sent
                        &&& final(step).rpm_failed == old(step).rpm_failed
                    },
                    None => {
                        &&& final(step).frames@ == old(step).frames@
                        &&& *final(self) == (MozaNewWheel { armed: false, ..next.1 })
                        &&& final(step).rpm_failed
                        &&& final(step).rpm_sent == old(step).rpm_sent
                    },
                }
            }),
            final(step).arm_failed == old(step).arm_failed,
            final(step).just_armed == old(step).just_armed,
    {
        let bar = self.bar;
        let bits = bar_mask(self, bar, brake_held, brake_bits, rpm_bits, now_ns);
        if !send_rpm_mask(&mut step.frames, bits) {
            self.armed = false;
            step.rpm_failed = true;
            return;
        }
        step.rpm_sent = true;
    }
}

/// The text of a reply before its first NUL, as `String::from_utf8_lossy` reads it.
pub fn simled_count_text(bytes: &[u8]) -> (s: String)
    ensures
        s@ == utf8_lossy(c_string(bytes@)),
        all_ascii(c_string(bytes@)) ==> s@ == chars_of(c_string(bytes@)),
{
    let mut n: usize = 0;
    while n < bytes.len() && bytes[n] != 0
        invariant
            n <= bytes@.len(),
            c_string_end(bytes@, n as int) == c_string_end(bytes@, 0),
        decreases bytes@.len() - n,
    {
        n += 1;
    }
    let mut prefix: Vec<u8> = Vec::new();
    let mut i: usize = 0;
    while i < n
        invariant
            i <= n <= bytes@.len(),
            prefix@ == bytes@.subrange(0, i as int),
        decreases n - i,
    {
        prefix.push(bytes[i]);
        i += 1;
        assert(prefix@ =~= bytes@.subrange(0, i as int));
    }
    lossy_text(prefix.as_slice())
}

/// A blank strip is the frame of a strip at zero rpm over all its LEDs.
pub proof fn simled_blank_is_the_dark_report(maxrpm: u32, total: i32)
    requires
        total >= LED_FIRST,
    ensures
        spec_simled_report(0, maxrpm, total, LED_FIRST, total) == Some((0int, spec_led_packet(total as int, Seq::empty()))),
{
    let avail = span_avail(total, LED_FIRST, total);
    let rgb = spec_simled_rgb(0, total as int, avail, span_start(LED_FIRST));
    assert(spec_led_packet(total as int, rgb) =~= spec_led_packet(total as int, Seq::empty()));
}

/// An end LED of zero means the last LED of the strip.
pub proof fn simled_end_zero_is_the_last_led(rpm: u32, maxrpm: u32, total: i32, startled: i32)
    ensures
        spec_simled_report(rpm, maxrpm, total, startled, SIMLED_END_ALL) == spec_simled_report(
            rpm,
            maxrpm,
            total,
            startled,
            total,
        ),
{
}


/// Real frames never both lock and clear a lock: locking needs the peak slip
/// at the lock level, clearing needs it below the lower release level.
pub open spec fn facts_consistent(f: MozaFrameFacts) -> bool {
    f.locking ==> !f.lock_clear
}

/// The latch law: on a consistent frame the lock latch is exactly whether the
/// frame locks and the ABS latch whether ABS works, whatever the old latches,
/// and the bar follows (lock before ABS, else rpm); nothing else changes.
pub proof fn alert_latches_follow_the_frame(w: MozaNewWheel, f: MozaFrameFacts)
    requires
        facts_consistent(f),
    ensures
        latch_alerts(w, f).lock_latched == f.locking,
        latch_alerts(w, f).abs_latched == f.abs_on,
        alert_of(latch_alerts(w, f)) == (if f.locking {
            MozaBar::Lock
        } else if f.abs_on {
            MozaBar::Abs
        } else {
            MozaBar::Rpm
        }),
        latch_alerts(w, f) == (MozaNewWheel { lock_latched: f.locking, abs_latched: f.abs_on, ..w }),
{
}

/// Stuffing that cannot outgrow a frame succeeds and keeps what was written.
proof fn lemma_stuff_fits(frame: Seq<u8>, i: int, out: Seq<u8>)
    requires
        0 <= i <= frame.len(),
        out.len() + 2 * (frame.len() - i) + 1 < MOZA_MAX_FRAME,
    ensures
        stuff_from(frame, i, out) matches Some(r) && r.len() >= out.len() && r.subrange(0, out.len() as int) == out,
    decreases frame.len() - i,
{
    if i < frame.len() {
        let b = frame[i];
        let next = if b == MOZA_START { out.push(b).push(b) } else { out.push(b) };
        lemma_stuff_fits(frame, i + 1, next);
        let r = stuff_from(frame, i + 1, next).unwrap();
        assert(r.subrange(0, out.len() as int) =~= next.subrange(0, out.len() as int));
        assert(next.subrange(0, out.len() as int) =~= out);
    }
}

/// A short command frame encodes, and its first five bytes are the start,
/// the length, the group, the device and the command.
proof fn lemma_frame_head(cmd: Seq<u8>, payload: Seq<u8>)
    requires
        cmd.len() >= 1,
        cmd[0] != MOZA_START,
        cmd.len() + payload.len() <= 28,
    ensures
        moza_frame(cmd, payload) matches Some(f) && f.len() >= 5 && f[0] == MOZA_START && f[2] == MOZA_GROUP
            && f[3] == MOZA_DEVICE && f[4] == cmd[0],
{
    let d = moza_decoded(cmd, payload);
    let fr = d.push(wire_checksum(d));
    let o2 = fr.subrange(0, 2);
    assert(fr[2] == MOZA_GROUP && fr[3] == MOZA_DEVICE && fr[4] == cmd[0] && fr[0] == MOZA_START);
    let o5 = o2.push(fr[2]).push(fr[3]).push(fr[4]);
    assert(stuff_from(fr, 2, o2) == stuff_from(fr, 3, o2.push(fr[2])));
    assert(stuff_from(fr, 3, o2.push(fr[2])) == stuff_from(fr, 4, o2.push(fr[2]).push(fr[3])));
    assert(stuff_from(fr, 4, o2.push(fr[2]).push(fr[3])) == stuff_from(fr, 5, o5));
    lemma_stuff_fits(fr, 5, o5);
    let f = stuff_from(fr, 5, o5).unwrap();
    assert(f.subrange(0, 5) == o5);
    assert(f[0] == o5[0] && f[2] == o5[2] && f[3] == o5[3] && f[4] == o5[4]);
}

/// Requests of short commands, none starting with the frame start, all
/// encode: one frame each, in order, each headed by its command.
proof fn lemma_frames_all(frames: Seq<Seq<u8>>, reqs: Seq<(Seq<u8>, Seq<u8>)>)
    requires
        forall|k: int| 0 <= k < reqs.len() ==> (#[trigger] reqs[k]).0.len() >= 1 && reqs[k].0[0] != MOZA_START
            && reqs[k].0.len() + reqs[k].1.len() <= 28,
    ensures
        ({
            let (fs, ok) = frames_after(frames, reqs);
            &&& ok
            &&& fs.len() == frames.len() + reqs.len()
            &&& fs.subrange(0, frames.len() as int) == frames
            &&& forall|k: int| 0 <= k < reqs.len() ==> (#[trigger] fs[frames.len() + k]).len() >= 5
                && fs[frames.len() + k][0] == MOZA_START && fs[frames.len() + k][2] == MOZA_GROUP
                && fs[frames.len() + k][3] == MOZA_DEVICE && fs[frames.len() + k][4] == reqs[k].0[0]
        }),
    decreases reqs.len(),
{
    if reqs.len() > 0 {
        let r0 = reqs[0];
        lemma_frame_head(r0.0, r0.1);
        let f = moza_frame(r0.0, r0.1).unwrap();
        lemma_frames_after_step(frames, reqs);
        let rest = reqs.drop_first();
        assert forall|k: int| 0 <= k < rest.len() implies (#[trigger] rest[k]).0.len() >= 1 && rest[k].0[0] != MOZA_START
            && rest[k].0.len() + rest[k].1.len() <= 28 by {
            assert(rest[k] == reqs[k + 1]);
        }
        lemma_frames_all(frames.push(f), rest);
        let fs = frames_after(frames.push(f), rest).0;
        assert(fs.subrange(0, frames.len() as int) =~= fs.subrange(0, frames.len() as int + 1).subrange(0, frames.len() as int));
        assert forall|k: int| 0 <= k < reqs.len() implies (#[trigger] fs[frames.len() + k]).len() >= 5
            && fs[frames.len() + k][0] == MOZA_START && fs[frames.len() + k][2] == MOZA_GROUP
            && fs[frames.len() + k][3] == MOZA_DEVICE && fs[frames.len() + k][4] == reqs[k].0[0] by {
            if k == 0 {
                assert(fs[frames.len() as int] == fs.subrange(0, frames.len() as int + 1)[frames.len() as int]);
            } else {
                assert(fs[frames.len() + 1 + (k - 1)] == fs[frames.len() + k]);
                assert(rest[k - 1] == reqs[k]);
            }
        }
    } else {
        assert(frames.subrange(0, frames.len() as int) =~= frames);
    }
}

/// Arming sends six frames, all of them encodable: each starts with the
/// frame start, addresses the wheel's group and device, and carries the
/// arming commands in order.
pub proof fn arming_sends_six_frames()
    ensures
        ({
            let (fs, ok) = frames_after(Seq::empty(), arm_requests());
            &&& ok
            &&& fs.len() == 6
            &&& forall|i: int| 0 <= i < 6 ==> (#[trigger] fs[i]).len() >= 5 && fs[i][0] == MOZA_START
                && fs[i][2] == MOZA_GROUP && fs[i][3] == MOZA_DEVICE
            &&& fs[0][4] == 0x1c && fs[1][4] == 0x1b && fs[2][4] == 0x19 && fs[3][4] == 0x19 && fs[4][4] == 0x1b
                && fs[5][4] == 0x1d
        }),
{
    let reqs = arm_requests();
    assert forall|k: int| 0 <= k < reqs.len() implies (#[trigger] reqs[k]).0.len() >= 1 && reqs[k].0[0] != MOZA_START
        && reqs[k].0.len() + reqs[k].1.len() <= 28 by {
        assert(reqs.len() == 6);
    }
    lemma_frames_all(Seq::empty(), reqs);
    let fs = frames_after(Seq::empty(), reqs).0;
    assert forall|i: int| 0 <= i < 6 implies (#[trigger] fs[i]).len() >= 5 && fs[i][0] == MOZA_START
        && fs[i][2] == MOZA_GROUP && fs[i][3] == MOZA_DEVICE by {
        assert(fs[0int + i] == fs[i]);
    }
    assert(fs[0int + 0] == fs[0] && fs[0int + 1] == fs[1] && fs[0int + 2] == fs[2] && fs[0int + 3] == fs[3] && fs[0int + 4] == fs[4] && fs[0int + 5] == fs[5]);
}

} // verus!
