//! The LED buffer behind the Lua LED functions: three bytes (red, green,
//! blue) per LED, painted and cleared by the calls a script makes.
use vstd::prelude::*;

verus! {

pub const COLOR_RED: i64 = 1;
pub const COLOR_GREEN: i64 = 2;
pub const COLOR_BLUE: i64 = 3;
pub const COLOR_YELLOW: i64 = 4;
pub const COLOR_ORANGE: i64 = 5;
pub const RGB_RED: usize = 0;
pub const RGB_GREEN: usize = 1;
pub const RGB_BLUE: usize = 2;
pub const RGB_CHANNELS: usize = 3;
pub const LED_FULL: u8 = 255;
pub const LED_ORANGE_GREEN: u8 = 165;
pub const MESSAGE_GLOBAL: &'static str = "Message";

/// Which clear functions a script gets.
#[derive(Clone, Copy, Debug, PartialEq, Eq, Structural)]
pub enum LuaLedMode {
    /// USB wheels register `led_clear_all` only.
    Usb,
    /// Serial devices register `led_clear_range` as the clear-all function.
    Serial,
}

/// What one run of a script leaves: its `Message` global, when it is a
/// string, and the LED bytes.
#[derive(Clone, Debug)]
pub struct LuaTick {
    pub message: Option<String>,
    pub leds: Vec<u8>,
}

/// Serial devices also get `led_clear_range`.
pub fn registers_clear_range(mode: LuaLedMode) -> (r: bool)
    ensures
        r == (mode == LuaLedMode::Serial),
{
    match mode {
        LuaLedMode::Serial => true,
        LuaLedMode::Usb => false,
    }
}

/// The number of LEDs a script may paint: `total`, or 0 when it is not in 1..=i32::MAX.
pub open spec fn led_limit_spec(total: i64) -> nat {
    if total <= 0 || total > 0x7fff_ffff { 0 } else { total as nat }
}

pub fn led_limit(total: i64) -> (r: usize)
    ensures
        r == led_limit_spec(total),
{
    if total <= 0 || total > 0x7fff_ffff {
        return 0;
    }
    total as usize
}

/// The tick a script sees: the frame's own, or the wall clock when the frame has none.
pub fn script_mtick(frame_mtick: u64, wall_ms: u64) -> (r: u64)
    ensures
        r == (if frame_mtick == 0 { wall_ms } else { frame_mtick }),
{
    if frame_mtick == 0 { wall_ms } else { frame_mtick }
}

/// One channel of a named colour (`RED`, `GREEN`, `BLUE`, `YELLOW`,
/// `ORANGE`); any other number is black.
pub open spec fn named_channel(color: i32, rgb: int) -> u8 {
    if color == 1 {
        if rgb == 0 { 255 } else { 0 }
    } else if color == 2 {
        if rgb == 1 { 255 } else { 0 }
    } else if color == 3 {
        if rgb == 2 { 255 } else { 0 }
    } else if color == 4 {
        if rgb == 0 || rgb == 1 { 255 } else { 0 }
    } else if color == 5 {
        if rgb == 0 { 255 } else if rgb == 1 { 165 } else { 0 }
    } else {
        0
    }
}

fn channel(color: i32, rgb: usize) -> (r: u8)
    requires
        rgb < 3,
    ensures
        r == named_channel(color, rgb as int),
{
    if color == 1 {
        if rgb == RGB_RED { LED_FULL } else { 0 }
    } else if color == 2 {
        if rgb == RGB_GREEN { LED_FULL } else { 0 }
    } else if color == 3 {
        if rgb == RGB_BLUE { LED_FULL } else { 0 }
    } else if color == 4 {
        if rgb == RGB_RED || rgb == RGB_GREEN { LED_FULL } else { 0 }
    } else if color == 5 {
        if rgb == RGB_RED { LED_FULL } else if rgb == RGB_GREEN { LED_ORANGE_GREEN } else { 0 }
    } else {
        0
    }
}

/// The red, green and blue bytes of a named colour.
pub fn named_rgb(color: i32) -> (r: [u8; 3])
    ensures
        r@ == seq![named_channel(color, 0), named_channel(color, 1), named_channel(color, 2)],
{
    let r = [channel(color, 0), channel(color, 1), channel(color, 2)];
    assert(r@ =~= seq![named_channel(color, 0), named_channel(color, 1), named_channel(color, 2)]);
    r
}

/// The red, green and blue bytes of a colour packed as `0xRRGGBB`
/// (bits 16..24, 8..16 and 0..8).
pub fn packed_rgb(color: i32) -> (r: [u8; 3])
    ensures
        r@ == seq![((color >> 16) & 0xff) as u8, ((color >> 8) & 0xff) as u8, (color & 0xff) as u8],
{
    let r = [((color >> 16) & 0xff) as u8, ((color >> 8) & 0xff) as u8, (color & 0xff) as u8];
    assert(r@ =~= seq![((color >> 16) & 0xff) as u8, ((color >> 8) & 0xff) as u8, (color & 0xff) as u8]);
    r
}

/// LED `led` (counted from 0) has all three bytes in a buffer of `len` bytes.
pub open spec fn led_fits(led: int, len: int) -> bool {
    0 <= led && led * 3 + 2 < len
}

/// The buffer after the LEDs `lo..hi` (counted from 0) that fit in it are
/// set to `rgb`; every other byte unchanged.
pub open spec fn painted(old: Seq<u8>, new: Seq<u8>, lo: int, hi: int, rgb: Seq<u8>) -> bool {
    &&& new.len() == old.len()
    &&& forall|k: int| 0 <= k < old.len() ==> #[trigger] new[k] == (
        if lo <= k / 3 < hi && led_fits(k / 3, old.len() as int) { rgb[k % 3] } else { old[k] })
}

/// An all-zero buffer for `total` LEDs (none when `total` is out of range).
pub fn blank_leds(total: i64) -> (r: Vec<u8>)
    ensures
        r@.len() == led_limit_spec(total) * 3,
        forall|k: int| 0 <= k < r@.len() ==> r@[k] == 0,
{
    let count = led_limit(total);
    let mut v: Vec<u8> = Vec::new();
    let mut i: usize = 0;
    while i < count
        invariant
            count == led_limit_spec(total),
            count <= 0x7fff_ffff,
            i <= count,
            v@.len() == i * 3,
            forall|k: int| 0 <= k < v@.len() ==> v@[k] == 0,
        decreases count - i,
    {
        v.push(0);
        v.push(0);
        v.push(0);
        i += 1;
    }
    v
}

/// Sets LED `index` to `rgb` when all its bytes are in the buffer.
pub fn write_led(buf: &mut Vec<u8>, index: usize, rgb: [u8; 3])
    ensures
        painted(old(buf)@, final(buf)@, index as int, index + 1, rgb@),
{
    let len = buf.len();
    if index >= len / 3 {
        assert forall|k: int| 0 <= k < len implies !(index <= #[trigger] (k / 3) < index + 1 && led_fits(k / 3, len as int)) by {
        }
        return;
    }
    let base = index * 3;
    buf.set(base, rgb[0]);
    buf.set(base + 1, rgb[1]);
    buf.set(base + 2, rgb[2]);
    assert forall|k: int| 0 <= k < len implies #[trigger] buf@[k] == (
        if index <= k / 3 < index + 1 && led_fits(k / 3, len as int) { rgb@[k % 3] } else { old(buf)@[k] }) by {
        if k / 3 == index as int {
            assert(k == base || k == base + 1 || k == base + 2);
        } else {
            assert(k != base && k != base + 1 && k != base + 2);
        }
    }
}

/// `set_led_to_color` and `set_led_to_rgb_color`: LED `led` (counted from 1)
/// is painted when it is among the first `count`.
pub fn paint_one(buf: &mut Vec<u8>, count: usize, led: i32, rgb: [u8; 3])
    ensures
        if 1 <= led <= count {
            painted(old(buf)@, final(buf)@, led - 1, led as int, rgb@)
        } else {
            final(buf)@ == old(buf)@
        },
{
    let index: i64 = led as i64 - 1;
    if index < 0 || index as u64 >= count as u64 {
        return;
    }
    write_led(buf, index as usize, rgb);
}

/// The first LED of a range, counted from 0.
pub open spec fn range_lo(start: i32) -> int {
    start - 1
}

/// One past the last LED of a range, counted from 0, cut to `count`.
pub open spec fn range_hi(end: i32, count: usize) -> int {
    if end > count { count as int } else { end as int }
}

/// `set_led_range_to_color` and `set_led_range_to_rgb_color`: LEDs `start`
/// to `end` (counted from 1, both included, `end` cut to `count`) are
/// painted, when `start` is at least 1 and the range is not empty.
pub fn paint_range(buf: &mut Vec<u8>, count: usize, start: i32, end: i32, rgb: [u8; 3])
    requires
        count <= 0x7fff_ffff,
    ensures
        if range_lo(start) >= 0 && range_hi(end, count) > range_lo(start) {
            painted(old(buf)@, final(buf)@, range_lo(start), range_hi(end, count), rgb@)
        } else {
            final(buf)@ == old(buf)@
        },
{
    let lo: i64 = start as i64 - 1;
    let hi: i64 = if end as i64 > count as i64 { count as i64 } else { end as i64 };
    if lo < 0 || hi <= lo {
        return;
    }
    let ghost start_buf = buf@;
    let mut i: i64 = lo;
    while i < hi
        invariant
            lo <= i <= hi,
            0 <= lo,
            hi <= 0x7fff_ffff,
            painted(start_buf, buf@, lo as int, i as int, rgb@),
        decreases hi - i,
    {
        let ghost before = buf@;
        write_led(buf, i as usize, rgb);
        assert forall|k: int| 0 <= k < start_buf.len() implies #[trigger] buf@[k] == (
            if lo <= k / 3 < i + 1 && led_fits(k / 3, start_buf.len() as int) { rgb@[k % 3] } else { start_buf[k] }) by {
            assert(buf@[k] == (if i <= k / 3 < i + 1 && led_fits(k / 3, before.len() as int) { rgb@[k % 3] } else { before[k] }));
            assert(before[k] == (if lo <= k / 3 < i && led_fits(k / 3, start_buf.len() as int) { rgb@[k % 3] } else { start_buf[k] }));
        }
        i += 1;
    }
}

/// `led_clear_all` (and `led_clear_range` on serial devices): the first
/// `count` LEDs that fit in the buffer are set to black.
pub fn clear_count(buf: &mut Vec<u8>, count: usize)
    ensures
        painted(old(buf)@, final(buf)@, 0, count as int, seq![0u8, 0u8, 0u8]),
{
    let ghost start_buf = buf@;
    let fit = buf.len() / 3;
    let n = if count < fit { count } else { fit };
    let mut i: usize = 0;
    while i < n
        invariant
            i <= n,
            n <= count,
            n == (if count < start_buf.len() / 3 { count as int } else { (start_buf.len() / 3) as int }),
            painted(start_buf, buf@, 0, i as int, seq![0u8, 0u8, 0u8]),
        decreases n - i,
    {
        let ghost before = buf@;
        write_led(buf, i, [0u8, 0u8, 0u8]);
        assert([0u8, 0u8, 0u8]@ =~= seq![0u8, 0u8, 0u8]);
        assert forall|k: int| 0 <= k < start_buf.len() implies #[trigger] buf@[k] == (
            if 0 <= k / 3 < i + 1 && led_fits(k / 3, start_buf.len() as int) { seq![0u8, 0u8, 0u8][k % 3] } else { start_buf[k] }) by {
            assert(buf@[k] == (if i <= k / 3 < i + 1 && led_fits(k / 3, before.len() as int) { seq![0u8, 0u8, 0u8][k % 3] } else { before[k] }));
        }
        i += 1;
    }
    assert forall|k: int| 0 <= k < start_buf.len() implies #[trigger] buf@[k] == (
        if 0 <= k / 3 < count && led_fits(k / 3, start_buf.len() as int) { seq![0u8, 0u8, 0u8][k % 3] } else { start_buf[k] }) by {
        if n <= k / 3 < count {
            assert(!led_fits(k / 3, start_buf.len() as int));
        }
    }
}

} // verus!
