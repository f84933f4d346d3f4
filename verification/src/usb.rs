//! USB device reports: RevBurner tachometer, Cammus C5/C12 wheels, Simagic GT Neo
//! and P1000, byte for byte as the devices expect them.
use vstd::prelude::*;
use crate::haptic::VibrationEffect;
use crate::text::{dec_int, push_char, push_i64};

verus! {

pub const TACH_POINTS: usize = 9;
pub const TACH_RPM_STEP: u32 = 1000;
pub const TACH_IDLE_RPM: u32 = 500;
pub const GRANULARITY_DIRECT: u32 = 0;
pub const REVBURNER_LEN: usize = 8;
pub const REVBURNER_PULSE_LOW: usize = 2;
pub const REVBURNER_PULSE_HIGH: usize = 3;
pub const REVBURNER_VID: u16 = 0x04d8;
pub const REVBURNER_PID: u16 = 0x0102;
pub const G29_LEN: usize = 7;
pub const G29_VID: u16 = 0x046d;
pub const G29_PID: u16 = 0xc24f;
pub const G29_BYTE_REPORT: usize = 0;
pub const G29_BYTE_CMD: usize = 1;
pub const G29_BYTE_LEDS: usize = 2;
pub const G29_BYTE_PAD: usize = 3;
pub const G29_BYTE_TAIL: usize = 6;
pub const G29_REPORT: u8 = 0xf8;
pub const G29_CMD: u8 = 0x12;
pub const G29_TAIL: u8 = 0x01;
pub const C5_LEN: usize = 14;
pub const C5_VID: u16 = 0x3416;
pub const C5_PID: u16 = 0x1021;
pub const C5_BYTE_REPORT: usize = 0;
pub const C5_BYTE_LEDS: usize = 1;
pub const C5_BYTE_VELOCITY_HIGH: usize = 2;
pub const C5_BYTE_VELOCITY_LOW: usize = 3;
pub const C5_BYTE_GEAR: usize = 4;
pub const C5_REPORT: u8 = 0xfc;
pub const C5_LED_STEPS: i32 = 10;
pub const C12_LEN: usize = 16;
pub const C12_VID: u16 = 0x3416;
pub const C12_PID: u16 = 0x1023;
pub const C12_BYTE_MARK0: usize = 0;
pub const C12_BYTE_MARK1: usize = 1;
pub const C12_BYTE_MARK2: usize = 2;
pub const C12_BYTE_PERCENT: usize = 3;
pub const C12_BYTE_VELOCITY_LOW: usize = 4;
pub const C12_BYTE_VELOCITY_HIGH: usize = 5;
pub const C12_BYTE_GEAR: usize = 6;
/// Bytes of one C12 LED packet.
pub const C12_LED_LEN: usize = 7;
pub const C12_LED_TOTAL: usize = 23;
pub const C12_LED_FIRST: usize = 15;
pub const C12_BYTE_LED: usize = 3;
pub const C12_BYTE_RED: usize = 4;
pub const C12_BYTE_GREEN: usize = 5;
pub const C12_BYTE_BLUE: usize = 6;
pub const C12_LED_MODE: u8 = 0x02;
pub const C12_LED_NUMBER_OFFSET: usize = 1;
pub const C12_B0: u8 = 0xfa;
pub const C12_B1: u8 = 0xfb;
pub const C12_B2: u8 = 0xd4;
pub const GT_NEO_VID: u16 = 0x3670;
pub const GT_NEO_PID: u16 = 0x0805;
pub const GT_NEO_LEDS: usize = 73;
pub const GT_NEO_PAYLOAD: usize = 64;
pub const GT_NEO_REPORT: u8 = 0xf0;
pub const GT_NEO_CONTROL: u8 = 0xec;
pub const GT_NEO_PREPARE: u8 = 0x02;
pub const GT_NEO_SET: u8 = 0x03;
pub const GT_NEO_PREPARE_COUNT: u8 = 0x01;
pub const GT_NEO_BYTE_REPORT: usize = 0;
pub const GT_NEO_BYTE_CONTROL: usize = 6;
pub const GT_NEO_BYTE_ACTION: usize = 7;
pub const GT_NEO_BYTE_COUNT: usize = 8;
pub const GT_NEO_BYTE_LED: usize = 9;
/// LEDs that fit in one GT Neo report: `(64 - 1 - 9) / 4`.
pub const GT_NEO_ROOM: usize = 13;
pub const LED_STRIDE: usize = 4;
pub const RGB_CHANNELS: usize = 3;
pub const P1000_LEN: usize = 49;
pub const P1000_VID: u16 = 0x0483;
pub const P1000_PID: u16 = 0x0525;
pub const P1000_MARK: u8 = 241;
pub const P1000_BYTE_MARK: usize = 0;
pub const P1000_BYTE_CMD: usize = 1;
pub const P1000_BYTE_KIND: usize = 2;
pub const P1000_BYTE_FLAG0: usize = 3;
pub const P1000_BYTE_FLAG1: usize = 4;
pub const P1000_BYTE_FLAG2: usize = 5;
pub const P1000_BYTE_INIT0: usize = 6;
pub const P1000_BYTE_INIT1: usize = 7;
pub const P1000_CLEARED: u8 = 0;
pub const P1000_CMD_IDLE: u8 = 0;
pub const P1000_CMD_ACTIVE: u8 = 0xec;
pub const P1000_CMD_INIT: u8 = 0xf1;
pub const P1000_KIND_LOCK: u8 = 0x01;
pub const P1000_KIND_SLIP: u8 = 0x02;
pub const P1000_FLAG0: u8 = 0x01;
pub const P1000_FLAG1: u8 = 0x0a;
pub const P1000_FLAG2: u8 = 0xff;
pub const P1000_INIT_MODE: u8 = 0x17;
pub const P1000_INIT_A: u8 = 0x01;
pub const P1000_INIT_B: u8 = 0x02;
pub const P1000_TRACE_LEN: usize = 7;
pub const P1000_REPORT_OK: i32 = 0;
pub const P1000_REPORT_FAILED: i32 = 1;
pub const CSL_RUMBLE_OFF: i32 = 0;
pub const CSL_RUMBLE_SLIP: i32 = 0x00ff_0000;
pub const CSL_RUMBLE_LOCK: i32 = 0x0000_ff00;
pub const CSL_RUMBLE_ABS: i32 = 0x00ff_ff00;

/// The redline margin `ceil(maxrpm / 20)`, that is `ceil(0.05 * maxrpm)`.
pub open spec fn redline_margin(maxrpm: int) -> int {
    (maxrpm + 19) / 20
}

/// Lit shift lights for `rpm`: `rpm / interval` capped at `steps`, where the
/// interval splits the rpm below the redline margin into `steps` parts.
pub open spec fn spec_revlights_lit(rpm: int, maxrpm: int, steps: int) -> int {
    if rpm <= 0 || maxrpm <= 0 || steps <= 0 {
        0
    } else {
        let interval = (maxrpm - redline_margin(maxrpm)) / steps;
        if interval <= 0 {
            steps
        } else if rpm / interval > steps {
            steps
        } else {
            rpm / interval
        }
    }
}

/// Lit shift lights for `rpm` out of `steps`.
pub fn revlights_lit(rpm: i32, maxrpm: i32, steps: i32) -> (r: i32)
    ensures
        r == spec_revlights_lit(rpm as int, maxrpm as int, steps as int),
        0 <= r <= (if steps > 0 { steps as int } else { 0 }),
{
    if rpm <= 0 || maxrpm <= 0 || steps <= 0 {
        return 0;
    }
    let margin = ((maxrpm as i64 + 19) / 20) as i32;
    let interval = (maxrpm - margin) / steps;
    if interval <= 0 {
        return steps;
    }
    let lit = rpm / interval;
    if lit > steps {
        return steps;
    }
    lit
}

/// The interpolation table: `(i + 1) * granularity` pulses for point `i`.
pub fn tach_table(granularity: u32) -> (t: [u32; TACH_POINTS])
    requires
        granularity <= 100_000,
    ensures
        forall|i: int| 0 <= i < TACH_POINTS ==> t[i] == (i + 1) * granularity,
{
    let mut pulses = [0u32; TACH_POINTS];
    let mut i: usize = 0;
    while i < TACH_POINTS
        invariant
            i <= TACH_POINTS,
            granularity <= 100_000,
            forall|j: int| 0 <= j < i ==> pulses[j] == (j + 1) * granularity,
        decreases TACH_POINTS - i,
    {
        assert((i as int + 1) * granularity <= 9 * 100_000) by (nonlinear_arith)
            requires i < 9, granularity <= 100_000;
        pulses[i] = (i as u32 + 1) * granularity;
        i += 1;
    }
    pulses
}

/// Where a tachometer pulse count came from.
pub enum TachPulses {
    /// The frame's own pulse count.
    Frame(u32),
    /// Below the idle rpm: the first table entry.
    Idle(u32),
    /// The table entry at `element`.
    Indexed { pulses: u32, element: u32 },
}

impl TachPulses {
    pub open spec fn spec_pulses(self) -> u32 {
        match self {
            TachPulses::Frame(p) => p,
            TachPulses::Idle(p) => p,
            TachPulses::Indexed { pulses, .. } => pulses,
        }
    }

    /// The pulse count, wherever it came from.
    pub fn pulses(&self) -> (r: u32)
        ensures
            r == self.spec_pulses(),
    {
        match self {
            TachPulses::Frame(p) => *p,
            TachPulses::Idle(p) => *p,
            TachPulses::Indexed { pulses, .. } => *pulses,
        }
    }
}

/// The table index for `rpms`: one per 1000 rpm, or one per `1000 / granularity`
/// rpm when a granularity is set, capped at the last entry.
pub open spec fn spec_tach_element(rpms: u32, granularity: u32, len: nat) -> u32 {
    let base = rpms / TACH_RPM_STEP;
    let step = if granularity > GRANULARITY_DIRECT { TACH_RPM_STEP / granularity } else { 0 };
    let element = if granularity > GRANULARITY_DIRECT && step != 0 { rpms / step } else { base };
    if element >= len - 1 { (len - 1) as u32 } else { element }
}

fn tach_element(rpms: u32, granularity: u32, len: usize) -> (r: u32)
    requires
        1 <= len <= u32::MAX,
    ensures
        r == spec_tach_element(rpms, granularity, len as nat),
        r < len,
{
    let mut element = rpms / TACH_RPM_STEP;
    if granularity > GRANULARITY_DIRECT {
        let step = TACH_RPM_STEP / granularity;
        if step != 0 {
            element = rpms / step;
        }
    }
    let last = (len - 1) as u32;
    if element >= last {
        return last;
    }
    element
}

/// What `lookup_tach_pulses` answers.
pub open spec fn spec_lookup_tach_pulses(
    rpms: u32,
    frame_pulses: u32,
    granularity: u32,
    table: Seq<u32>,
    use_pulses: bool,
) -> Option<TachPulses> {
    if use_pulses {
        Some(TachPulses::Frame(frame_pulses))
    } else if table.len() == 0 {
        None
    } else if rpms < TACH_IDLE_RPM {
        Some(TachPulses::Idle(table[0]))
    } else {
        let element = spec_tach_element(rpms, granularity, table.len());
        Some(TachPulses::Indexed { pulses: table[element as int], element })
    }
}

/// The pulses to send for `rpms`: the frame's own count, the idle entry, or the
/// table entry for the rpm. `None` when the table is empty.
pub fn lookup_tach_pulses(
    rpms: u32,
    frame_pulses: u32,
    granularity: u32,
    table: &[u32],
    use_pulses: bool,
) -> (r: Option<TachPulses>)
    requires
        table@.len() <= u32::MAX,
    ensures
        r == spec_lookup_tach_pulses(rpms, frame_pulses, granularity, table@, use_pulses),
{
    if use_pulses {
        return Some(TachPulses::Frame(frame_pulses));
    }
    if table.len() == 0 {
        return None;
    }
    let idle = table[0];
    if rpms < TACH_IDLE_RPM {
        return Some(TachPulses::Idle(idle));
    }
    let element = tach_element(rpms, granularity, table.len());
    Some(TachPulses::Indexed { pulses: table[element as usize], element })
}

/// The RevBurner report: pulses little-endian in bytes 2 and 3, all zero for none.
pub fn revburner_report(pulses: u32) -> (r: [u8; REVBURNER_LEN])
    ensures
        forall|i: int| 0 <= i < REVBURNER_LEN && i != 2 && i != 3 ==> r[i] == 0,
        r[2] == (if pulses > 0 { pulses % 256 } else { 0 }),
        r[3] == (if pulses > 0 { (pulses / 256) % 256 } else { 0 }),
{
    let mut bytes = [0u8; REVBURNER_LEN];
    if pulses > 0 {
        bytes[REVBURNER_PULSE_LOW] = (pulses & 0xff) as u8;
        bytes[REVBURNER_PULSE_HIGH] = ((pulses >> 8) & 0xff) as u8;
        assert((pulses & 0xff) == pulses % 256) by (bit_vector);
        assert(((pulses >> 8) & 0xff) == (pulses / 256) % 256) by (bit_vector);
    }
    bytes
}

/// The Cammus C5 report: lit LEDs out of ten, velocity big-endian, gear minus one.
pub fn c5_report(rpm: u32, maxrpm: u32, gear: u32, velocity: u32) -> (r: [u8; C5_LEN])
    ensures
        r[0] == C5_REPORT,
        r[1] == spec_revlights_lit((rpm as i32) as int, (maxrpm as i32) as int, C5_LED_STEPS as int),
        r[2] == (if velocity > 0 { (velocity / 256) % 256 } else { 0 }),
        r[3] == (if velocity > 0 { velocity % 256 } else { 0 }),
        r[4] == ((gear % 256) + 255) % 256,
        forall|i: int| 5 <= i < C5_LEN ==> r[i] == 0,
{
    let mut bytes = [0u8; C5_LEN];
    bytes[C5_BYTE_REPORT] = C5_REPORT;
    bytes[C5_BYTE_LEDS] = revlights_lit(rpm as i32, maxrpm as i32, C5_LED_STEPS) as u8;
    if velocity > 0 {
        bytes[C5_BYTE_VELOCITY_HIGH] = ((velocity >> 8) & 0xff) as u8;
        bytes[C5_BYTE_VELOCITY_LOW] = (velocity & 0xff) as u8;
        assert((velocity & 0xff) == velocity % 256) by (bit_vector);
        assert(((velocity >> 8) & 0xff) == (velocity / 256) % 256) by (bit_vector);
    }
    let g = (gear & 0xff) as u8;
    assert((gear & 0xff) == gear % 256) by (bit_vector);
    bytes[C5_BYTE_GEAR] = g.wrapping_sub(1);
    bytes
}

/// The Logitech G29 LED report around an LED mask (bit `i` lights LED `i`).
pub fn g29_report_for_leds(leds: u8) -> (r: [u8; G29_LEN])
    ensures
        r@ == seq![G29_REPORT, G29_CMD, leds, 0u8, 0u8, 0u8, G29_TAIL],
{
    let r = [G29_REPORT, G29_CMD, leds, 0, 0, 0, G29_TAIL];
    assert(r@ =~= seq![G29_REPORT, G29_CMD, leds, 0u8, 0u8, 0u8, G29_TAIL]);
    r
}

/// The Cammus C12 report: marker bytes, the rev percentage (when the caller
/// has one: rpm and max rpm both above zero), velocity little-endian when
/// above zero, and the gear minus one.
pub fn c12_report_for_percent(percent: Option<u8>, gear: u32, velocity: u32) -> (r: [u8; C12_LEN])
    ensures
        r[0] == C12_B0,
        r[1] == C12_B1,
        r[2] == C12_B2,
        r[3] == (match percent { Some(p) => p, None => 0u8 }),
        r[4] == (if velocity > 0 { velocity % 256 } else { 0 }),
        r[5] == (if velocity > 0 { (velocity / 256) % 256 } else { 0 }),
        r[6] == ((gear % 256) + 255) % 256,
        forall|i: int| 7 <= i < C12_LEN ==> r[i] == 0,
{
    let mut bytes = [0u8; C12_LEN];
    bytes[C12_BYTE_MARK0] = C12_B0;
    bytes[C12_BYTE_MARK1] = C12_B1;
    bytes[C12_BYTE_MARK2] = C12_B2;
    if let Some(p) = percent {
        bytes[C12_BYTE_PERCENT] = p;
    }
    if velocity > 0 {
        bytes[C12_BYTE_VELOCITY_LOW] = (velocity & 0xff) as u8;
        bytes[C12_BYTE_VELOCITY_HIGH] = ((velocity >> 8) & 0xff) as u8;
        assert((velocity & 0xff) == velocity % 256) by (bit_vector);
        assert(((velocity >> 8) & 0xff) == (velocity / 256) % 256) by (bit_vector);
    }
    let g = (gear & 0xff) as u8;
    assert((gear & 0xff) == gear % 256) by (bit_vector);
    bytes[C12_BYTE_GEAR] = g.wrapping_sub(1);
    bytes
}

/// Color bytes the C12 LED path reads: three per LED.
pub fn c12_led_color_len() -> (r: usize)
    ensures
        r == C12_LED_TOTAL * RGB_CHANNELS,
{
    C12_LED_TOTAL * RGB_CHANNELS
}

/// Offset of an LED's red byte in the color buffer.
pub fn c12_led_color_index(led_index: usize) -> (r: usize)
    ensures
        r == (if led_index * 3 <= usize::MAX { led_index * 3 } else { usize::MAX as int }),
{
    if led_index <= usize::MAX / 3 {
        led_index * RGB_CHANNELS
    } else {
        usize::MAX
    }
}

/// The color byte at `i`, or zero past the end.
pub open spec fn color_at(colors: Seq<u8>, i: int) -> u8 {
    if 0 <= i < colors.len() { colors[i] } else { 0 }
}

/// The C12 packet for LED `index`: mode 2, LED number `index + 1`, then its RGB.
pub open spec fn c12_led_packet(colors: Seq<u8>, index: int) -> Seq<u8> {
    seq![
        C12_B0,
        C12_B1,
        C12_LED_MODE,
        (index + 1) as u8,
        color_at(colors, index * 3),
        color_at(colors, index * 3 + 1),
        color_at(colors, index * 3 + 2),
    ]
}

fn c12_one_led(colors: &[u8], index: usize) -> (r: [u8; C12_LED_LEN])
    requires
        index < C12_LED_TOTAL,
    ensures
        r@ == c12_led_packet(colors@, index as int),
{
    let mut bytes = [0u8; C12_LED_LEN];
    bytes[C12_BYTE_MARK0] = C12_B0;
    bytes[C12_BYTE_MARK1] = C12_B1;
    bytes[C12_BYTE_MARK2] = C12_LED_MODE;
    bytes[C12_BYTE_LED] = (index + C12_LED_NUMBER_OFFSET) as u8;
    let base = index * RGB_CHANNELS;
    if base < colors.len() {
        bytes[C12_BYTE_RED] = colors[base];
    }
    if base + 1 < colors.len() {
        bytes[C12_BYTE_GREEN] = colors[base + 1];
    }
    if base + 2 < colors.len() {
        bytes[C12_BYTE_BLUE] = colors[base + 2];
    }
    assert(bytes@ =~= c12_led_packet(colors@, index as int));
    bytes
}

/// One packet per shift light, LEDs 15 through 22.
pub fn c12_led_reports(colors: &[u8]) -> (r: Vec<[u8; C12_LED_LEN]>)
    ensures
        r@.len() == C12_LED_TOTAL - C12_LED_FIRST,
        forall|k: int| 0 <= k < r@.len() ==> #[trigger] r@[k]@ == c12_led_packet(colors@, C12_LED_FIRST + k),
{
    let mut reports: Vec<[u8; C12_LED_LEN]> = Vec::new();
    let mut index = C12_LED_FIRST;
    while index < C12_LED_TOTAL
        invariant
            C12_LED_FIRST <= index <= C12_LED_TOTAL,
            reports@.len() == index - C12_LED_FIRST,
            forall|k: int| 0 <= k < reports@.len() ==> #[trigger] reports@[k]@ == c12_led_packet(colors@, C12_LED_FIRST + k),
        decreases C12_LED_TOTAL - index,
    {
        reports.push(c12_one_led(colors, index));
        index += 1;
    }
    reports
}

/// Color bytes the GT Neo path reads: three per LED.
pub fn gt_neo_color_len() -> (r: usize)
    ensures
        r == GT_NEO_LEDS * RGB_CHANNELS,
{
    GT_NEO_LEDS * RGB_CHANNELS
}

/// The GT Neo prepare report.
pub open spec fn gt_prepare_report() -> Seq<u8> {
    Seq::new(GT_NEO_PAYLOAD as nat, |i: int|
        if i == 0 { GT_NEO_REPORT }
        else if i == 6 { GT_NEO_CONTROL }
        else if i == 7 { GT_NEO_PREPARE }
        else if i == 8 { GT_NEO_PREPARE_COUNT }
        else { 0u8 })
}

/// The LEDs of the GT Neo set report that starts at LED `start`.
pub open spec fn gt_chunk_count(start: int) -> int {
    if GT_NEO_LEDS - start < GT_NEO_ROOM { GT_NEO_LEDS - start } else { GT_NEO_ROOM as int }
}

/// Byte `i` of the GT Neo set report that starts at LED `start`: a header, then
/// four bytes per LED (number, red, green, blue), RGB left zero when the color
/// buffer is too short for that LED.
pub open spec fn gt_chunk_byte(colors: Seq<u8>, start: int, i: int) -> u8 {
    let count = gt_chunk_count(start);
    if i == 0 {
        GT_NEO_REPORT
    } else if i == 6 {
        GT_NEO_CONTROL
    } else if i == 7 {
        GT_NEO_SET
    } else if i == 8 {
        count as u8
    } else if 9 <= i < 9 + 4 * count {
        let k = (i - 9) / 4;
        let led = start + k;
        let part = (i - 9) % 4;
        if part == 0 {
            led as u8
        } else if led * 3 + 2 < colors.len() {
            colors[led * 3 + part - 1]
        } else {
            0
        }
    } else {
        0
    }
}

pub open spec fn gt_chunk_report(colors: Seq<u8>, start: int) -> Seq<u8> {
    Seq::new(GT_NEO_PAYLOAD as nat, |i: int| gt_chunk_byte(colors, start, i))
}

fn gt_prepare() -> (r: [u8; GT_NEO_PAYLOAD])
    ensures
        r@ == gt_prepare_report(),
{
    let mut report = [0u8; GT_NEO_PAYLOAD];
    report[GT_NEO_BYTE_REPORT] = GT_NEO_REPORT;
    report[GT_NEO_BYTE_CONTROL] = GT_NEO_CONTROL;
    report[GT_NEO_BYTE_ACTION] = GT_NEO_PREPARE;
    report[GT_NEO_BYTE_COUNT] = GT_NEO_PREPARE_COUNT;
    assert(report@ =~= gt_prepare_report());
    report
}

fn gt_chunk(colors: &[u8], start_led: usize) -> (r: ([u8; GT_NEO_PAYLOAD], usize))
    requires
        start_led < GT_NEO_LEDS,
    ensures
        r.1 == gt_chunk_count(start_led as int),
        r.0@ == gt_chunk_report(colors@, start_led as int),
{
    let mut report = [0u8; GT_NEO_PAYLOAD];
    report[GT_NEO_BYTE_REPORT] = GT_NEO_REPORT;
    report[GT_NEO_BYTE_CONTROL] = GT_NEO_CONTROL;
    report[GT_NEO_BYTE_ACTION] = GT_NEO_SET;
    let mut count: usize = 0;
    while count < GT_NEO_ROOM && start_led + count < GT_NEO_LEDS
        invariant
            start_led < GT_NEO_LEDS,
            count <= GT_NEO_ROOM,
            start_led + count <= GT_NEO_LEDS,
            report@.len() == GT_NEO_PAYLOAD,
            report@[0] == GT_NEO_REPORT,
            report@[6] == GT_NEO_CONTROL,
            report@[7] == GT_NEO_SET,
            report@[8] == (if count == 0 { 0u8 } else { count as u8 }),
            forall|i: int| 9 <= i < 9 + 4 * count ==> #[trigger] report@[i] == gt_chunk_byte(colors@, start_led as int, i),
            forall|i: int| 9 + 4 * count <= i < GT_NEO_PAYLOAD ==> #[trigger] report@[i] == 0,
            forall|i: int| 1 <= i < 6 ==> #[trigger] report@[i] == 0,
        decreases GT_NEO_ROOM - count,
    {
        let led = start_led + count;
        let base = GT_NEO_BYTE_LED + count * LED_STRIDE;
        report[base] = led as u8;
        let color = led * RGB_CHANNELS;
        if color + 2 < colors.len() {
            report[base + 1] = colors[color];
            report[base + 2] = colors[color + 1];
            report[base + 3] = colors[color + 2];
        }
        count += 1;
        report[GT_NEO_BYTE_COUNT] = count as u8;
        assert forall|i: int| 9 <= i < 9 + 4 * count implies #[trigger] report@[i] == gt_chunk_byte(colors@, start_led as int, i) by {
            if i >= base {
                assert((i - 9) / 4 == count - 1);
            }
        }
    }
    assert(count == gt_chunk_count(start_led as int));
    assert(report@ =~= gt_chunk_report(colors@, start_led as int));
    (report, count)
}

/// The GT Neo reports: the prepare report, then set reports of 13 LEDs each for
/// all 73 LEDs.
pub fn gt_neo_reports(colors: &[u8]) -> (r: Vec<[u8; GT_NEO_PAYLOAD]>)
    ensures
        r@.len() == 7,
        r@[0]@ == gt_prepare_report(),
        forall|k: int| 1 <= k < 7 ==> #[trigger] r@[k]@ == gt_chunk_report(colors@, (k - 1) * GT_NEO_ROOM),
{
    let mut reports: Vec<[u8; GT_NEO_PAYLOAD]> = Vec::new();
    reports.push(gt_prepare());
    let mut led: usize = 0;
    while led < GT_NEO_LEDS
        invariant
            led % GT_NEO_ROOM == 0 || led == GT_NEO_LEDS,
            led <= GT_NEO_LEDS,
            reports@.len() == 1 + (if led == GT_NEO_LEDS { 6 } else { led / GT_NEO_ROOM }),
            reports@[0]@ == gt_prepare_report(),
            forall|k: int| 1 <= k < reports@.len() ==> #[trigger] reports@[k]@ == gt_chunk_report(colors@, (k - 1) * GT_NEO_ROOM),
        decreases GT_NEO_LEDS - led,
    {
        let (report, count) = gt_chunk(colors, led);
        reports.push(report);
        led += count;
    }
    reports
}

/// The P1000 init report.
pub fn p1000_init_report() -> (r: [u8; P1000_LEN])
    ensures
        r[0] == P1000_MARK,
        r[1] == P1000_CMD_INIT,
        r[2] == P1000_INIT_MODE,
        r[6] == P1000_INIT_A,
        r[7] == P1000_INIT_B,
        forall|i: int| 0 <= i < P1000_LEN && i != 0 && i != 1 && i != 2 && i != 6 && i != 7 ==> r[i] == 0,
{
    let mut bytes = [0u8; P1000_LEN];
    bytes[P1000_BYTE_MARK] = P1000_MARK;
    bytes[P1000_BYTE_CMD] = P1000_CMD_INIT;
    bytes[P1000_BYTE_KIND] = P1000_INIT_MODE;
    bytes[P1000_BYTE_INIT0] = P1000_INIT_A;
    bytes[P1000_BYTE_INIT1] = P1000_INIT_B;
    bytes
}

/// The bytes of the P1000 report that starts an effect of `kind`.
pub open spec fn p1000_active(kind: u8) -> Seq<u8> {
    Seq::new(P1000_LEN as nat, |i: int|
        if i == 0 { P1000_MARK } else if i == 1 { P1000_CMD_ACTIVE } else if i == 2 { kind }
        else if i == 3 { P1000_FLAG0 } else if i == 4 { P1000_FLAG1 } else if i == 5 { P1000_FLAG2 } else { 0u8 })
}

/// The bytes of the P1000 report that stops an effect of `kind`.
pub open spec fn p1000_idle(kind: u8) -> Seq<u8> {
    Seq::new(P1000_LEN as nat, |i: int|
        if i == 0 { P1000_MARK } else if i == 1 { P1000_CMD_IDLE } else if i == 2 { kind } else { 0u8 })
}

/// The P1000 report that starts an effect of `kind`.
pub fn p1000_active_report(kind: u8) -> (r: [u8; P1000_LEN])
    ensures
        r[0] == P1000_MARK,
        r[1] == P1000_CMD_ACTIVE,
        r[2] == kind,
        r[3] == P1000_FLAG0,
        r[4] == P1000_FLAG1,
        r[5] == P1000_FLAG2,
        forall|i: int| 6 <= i < P1000_LEN ==> r[i] == 0,
        r@ == p1000_active(kind),
{
    let mut bytes = [0u8; P1000_LEN];
    bytes[P1000_BYTE_MARK] = P1000_MARK;
    bytes[P1000_BYTE_CMD] = P1000_CMD_ACTIVE;
    bytes[P1000_BYTE_KIND] = kind;
    bytes[P1000_BYTE_FLAG0] = P1000_FLAG0;
    bytes[P1000_BYTE_FLAG1] = P1000_FLAG1;
    bytes[P1000_BYTE_FLAG2] = P1000_FLAG2;
    assert(bytes@ =~= p1000_active(kind));
    bytes
}

/// The P1000 report that stops an effect of `kind`.
pub fn p1000_idle_report(kind: u8) -> (r: [u8; P1000_LEN])
    ensures
        r[0] == P1000_MARK,
        r[1] == P1000_CMD_IDLE,
        r[2] == kind,
        forall|i: int| 3 <= i < P1000_LEN ==> r[i] == 0,
        r@ == p1000_idle(kind),
{
    let mut bytes = [0u8; P1000_LEN];
    bytes[P1000_BYTE_MARK] = P1000_MARK;
    bytes[P1000_BYTE_CMD] = P1000_CMD_IDLE;
    bytes[P1000_BYTE_KIND] = kind;
    assert(bytes@ =~= p1000_idle(kind));
    bytes
}


/// The rumble value the CSL pedals get: by effect while it plays (`playing`
/// is `!(play <= 0.0)`), off otherwise and for effects the pedals do not have.
pub open spec fn csl_rumble_spec(effect: VibrationEffect, playing: bool) -> i32 {
    if !playing {
        CSL_RUMBLE_OFF
    } else {
        match effect {
            VibrationEffect::TyreSlip => CSL_RUMBLE_SLIP,
            VibrationEffect::TyreLock => CSL_RUMBLE_LOCK,
            VibrationEffect::AbsBrakes => CSL_RUMBLE_ABS,
            _ => CSL_RUMBLE_OFF,
        }
    }
}

pub fn csl_rumble_value(effect: VibrationEffect, playing: bool) -> (r: i32)
    ensures
        r == csl_rumble_spec(effect, playing),
{
    if !playing {
        return CSL_RUMBLE_OFF;
    }
    match effect {
        VibrationEffect::TyreSlip => CSL_RUMBLE_SLIP,
        VibrationEffect::TyreLock => CSL_RUMBLE_LOCK,
        VibrationEffect::AbsBrakes => CSL_RUMBLE_ABS,
        VibrationEffect::EngineRpm | VibrationEffect::GearShift | VibrationEffect::Suspension => CSL_RUMBLE_OFF,
    }
}

/// The rumble value as written to the pedals' sysfs file: decimal and a newline.
pub fn csl_rumble_text(effect: VibrationEffect, playing: bool) -> (s: String)
    ensures
        s@ == dec_int(csl_rumble_spec(effect, playing) as int) + seq!['\n'],
{
    let mut s = String::new();
    push_i64(&mut s, csl_rumble_value(effect, playing) as i64);
    push_char(&mut s, '\n');
    s
}

/// What the glob for the pedals' rumble file says: `aborted` when a
/// directory could not be read, else the first path it matched, as text,
/// when there was one. A denied directory means no permission; no match, or
/// an empty path, means the pedals are missing.
pub fn csl_from_glob(aborted: bool, first: Option<String>) -> (r: CslLocate)
    ensures
        aborted ==> r is Permission,
        !aborted ==> match first {
            Some(p) => if p@.len() > 0 {
                r matches CslLocate::Found(q) && q@ == p@
            } else {
                r is Missing
            },
            None => r is Missing,
        },
{
    if aborted {
        return CslLocate::Permission;
    }
    match first {
        None => CslLocate::Missing,
        Some(path) => {
            if path.unicode_len() == 0 {
                CslLocate::Missing
            } else {
                CslLocate::Found(path)
            }
        },
    }
}

/// The P1000 reports for an effect: both kinds stopped when it does not
/// play; the slip report, the lock report, or both (ABS) while it plays;
/// none for effects the pedals do not have.
pub fn p1000_reports(effect: VibrationEffect, playing: bool) -> (r: Vec<[u8; P1000_LEN]>)
    ensures
        !playing ==> r@.map_values(|a: [u8; P1000_LEN]| a@) == seq![p1000_idle(P1000_KIND_LOCK), p1000_idle(P1000_KIND_SLIP)],
        playing ==> r@.map_values(|a: [u8; P1000_LEN]| a@) == (match effect {
            VibrationEffect::TyreSlip => seq![p1000_active(P1000_KIND_SLIP)],
            VibrationEffect::TyreLock => seq![p1000_active(P1000_KIND_LOCK)],
            VibrationEffect::AbsBrakes => seq![p1000_active(P1000_KIND_SLIP), p1000_active(P1000_KIND_LOCK)],
            _ => Seq::<Seq<u8>>::empty(),
        }),
{
    let mut v: Vec<[u8; P1000_LEN]> = Vec::new();
    if !playing {
        v.push(p1000_idle_report(P1000_KIND_LOCK));
        v.push(p1000_idle_report(P1000_KIND_SLIP));
        assert(v@.map_values(|a: [u8; P1000_LEN]| a@) =~= seq![p1000_idle(P1000_KIND_LOCK), p1000_idle(P1000_KIND_SLIP)]);
        return v;
    }
    match effect {
        VibrationEffect::TyreSlip => {
            v.push(p1000_active_report(P1000_KIND_SLIP));
        },
        VibrationEffect::TyreLock => {
            v.push(p1000_active_report(P1000_KIND_LOCK));
        },
        VibrationEffect::AbsBrakes => {
            v.push(p1000_active_report(P1000_KIND_SLIP));
            v.push(p1000_active_report(P1000_KIND_LOCK));
        },
        VibrationEffect::EngineRpm | VibrationEffect::GearShift | VibrationEffect::Suspension => {},
    }
    assert(v@.map_values(|a: [u8; P1000_LEN]| a@) =~= (match effect {
        VibrationEffect::TyreSlip => seq![p1000_active(P1000_KIND_SLIP)],
        VibrationEffect::TyreLock => seq![p1000_active(P1000_KIND_LOCK)],
        VibrationEffect::AbsBrakes => seq![p1000_active(P1000_KIND_SLIP), p1000_active(P1000_KIND_LOCK)],
        _ => Seq::<Seq<u8>>::empty(),
    }));
    v
}

/// Where the Fanatec CSL pedals' rumble file was found.
#[derive(Clone, Debug)]
pub enum CslLocate {
    Found(String),
    Missing,
    Permission,
}

} // verus!
