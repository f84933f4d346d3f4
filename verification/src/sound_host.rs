//! Sound devices: which effects read a tyre, the Pulse stream node names, and
//! the volume, channel count and channel mask a device entry asks for.
use vstd::prelude::*;
use vstd::string::StringSliceAdditionalSpecFns;
use crate::names::{
    effects, find_value, name_for, spec_effects, spec_tyres, tyre_or_all_four, tyres, EFFECT_ABS, EFFECT_ENGINE,
    EFFECT_GEAR, EFFECT_SUSPENSION, EFFECT_TYRE_LOCK, EFFECT_TYRE_SLIP, TYRE_FRONT_LEFT, TYRE_ALL_FOUR, spec_lookup,
};
use crate::games::{VIBRATION_ABS, VIBRATION_ENGINE, VIBRATION_GEAR, VIBRATION_LOCK, VIBRATION_SLIP, VIBRATION_SUSPENSION};
use crate::text::{push_str, string_of};

verus! {

pub const CHANNEL_MIN: i64 = 1;
pub const CHANNEL_MAX: i64 = 8;
pub const VOLUME_MIN: i64 = 0;
pub const VOLUME_UNITY: i64 = 100;
pub const SOUND_PAN_ALL: i64 = -1;
pub const SOUND_AMPLITUDE_UNITY: i64 = 100;
pub const SOUND_MOTOR_DEFAULT: i64 = 1;
pub const NODE_EFFECT_FALLBACK: &'static str = "Engine";
pub const NODE_PREFIX: &'static str = "cargopit";
pub const NODE_SEPARATOR: &'static str = ".";
pub const NODE_NAME_MAX: usize = 64;

/// Tyre slip, tyre lock, ABS and suspension read a tyre.
pub open spec fn spec_effect_uses_tyre(effect: i32) -> bool {
    effect == EFFECT_TYRE_SLIP || effect == EFFECT_TYRE_LOCK || effect == EFFECT_ABS || effect == EFFECT_SUSPENSION
}

/// The effect reads a tyre.
pub fn effect_uses_tyre(effect: i32) -> (r: bool)
    ensures
        r == spec_effect_uses_tyre(effect),
{
    effect == EFFECT_TYRE_SLIP || effect == EFFECT_TYRE_LOCK || effect == EFFECT_ABS || effect == EFFECT_SUSPENSION
}

/// The effect's name, or the engine's for an unknown effect.
pub open spec fn spec_effect_name(effect: i32) -> Option<&'static str> {
    match find_value(spec_effects(), effect, 0) {
        Some(n) => Some(n),
        None => find_value(spec_effects(), EFFECT_ENGINE, 0),
    }
}

/// The effect's name, the engine's for an unknown effect.
pub fn effect_label(effect: i32) -> (r: &'static str)
    ensures
        r == (match spec_effect_name(effect) {
            Some(n) => n,
            None => NODE_EFFECT_FALLBACK,
        }),
{
    let table = effects();
    match name_for(table.as_slice(), effect) {
        Some(n) => n,
        None => match name_for(table.as_slice(), EFFECT_ENGINE) {
            Some(n) => n,
            None => NODE_EFFECT_FALLBACK,
        },
    }
}

/// The tyre's name, for effects that read a tyre.
pub open spec fn spec_tyre_label(effect: i32, tyre: i32) -> Option<&'static str> {
    if !spec_effect_uses_tyre(effect) { None } else { find_value(spec_tyres(), tyre, 0) }
}

/// The tyre's name, for effects that read a tyre.
pub fn tyre_label(effect: i32, tyre: i32) -> (r: Option<&'static str>)
    ensures
        r == spec_tyre_label(effect, tyre),
{
    if !effect_uses_tyre(effect) {
        return None;
    }
    let table = tyres();
    name_for(table.as_slice(), tyre)
}

/// The phrase that names an effect in the init log.
pub fn vibration_phrase(effect: i32) -> (r: Option<&'static str>)
    ensures
        r == (if effect == EFFECT_ENGINE {
            Some(VIBRATION_ENGINE)
        } else if effect == EFFECT_GEAR {
            Some(VIBRATION_GEAR)
        } else if effect == EFFECT_TYRE_SLIP {
            Some(VIBRATION_SLIP)
        } else if effect == EFFECT_TYRE_LOCK {
            Some(VIBRATION_LOCK)
        } else if effect == EFFECT_ABS {
            Some(VIBRATION_ABS)
        } else if effect == EFFECT_SUSPENSION {
            Some(VIBRATION_SUSPENSION)
        } else {
            None
        }),
{
    if effect == EFFECT_ENGINE {
        Some(VIBRATION_ENGINE)
    } else if effect == EFFECT_GEAR {
        Some(VIBRATION_GEAR)
    } else if effect == EFFECT_TYRE_SLIP {
        Some(VIBRATION_SLIP)
    } else if effect == EFFECT_TYRE_LOCK {
        Some(VIBRATION_LOCK)
    } else if effect == EFFECT_ABS {
        Some(VIBRATION_ABS)
    } else if effect == EFFECT_SUSPENSION {
        Some(VIBRATION_SUSPENSION)
    } else {
        None
    }
}

/// `cargopit.<effect>` and, for effects that read a tyre, `.<tyre>`.
pub open spec fn node_text(effect: i32, tyre: i32) -> Option<Seq<char>> {
    match spec_effect_name(effect) {
        None => None,
        Some(e) => match spec_tyre_label(effect, tyre) {
            Some(t) => Some(NODE_PREFIX@ + NODE_SEPARATOR@ + e@ + NODE_SEPARATOR@ + t@),
            None => Some(NODE_PREFIX@ + NODE_SEPARATOR@ + e@),
        },
    }
}

/// The Pulse node name of a sound device's stream; none when it would take
/// 64 bytes or more.
pub fn stream_node_name(effect: i32, tyre: i32) -> (r: Option<String>)
    ensures
        match node_text(effect, tyre) {
            None => r is None,
            Some(t) => if vstd::utf8::encode_utf8(t).len() >= NODE_NAME_MAX { r is None } else { r matches Some(s) && s@ == t },
        },
{
    let table = effects();
    let effect_name = match name_for(table.as_slice(), effect) {
        Some(n) => n,
        None => match name_for(table.as_slice(), EFFECT_ENGINE) {
            Some(n) => n,
            None => return None,
        },
    };
    let mut name = string_of(NODE_PREFIX);
    push_str(&mut name, NODE_SEPARATOR);
    push_str(&mut name, effect_name);
    match tyre_label(effect, tyre) {
        Some(tyre_name) => {
            push_str(&mut name, NODE_SEPARATOR);
            push_str(&mut name, tyre_name);
        },
        None => {},
    }
    assert(node_text(effect, tyre) == Some(name@));
    let text = name.as_str();
    let len = text.as_bytes().len();
    assert(len == vstd::utf8::encode_utf8(name@).len());
    if len >= NODE_NAME_MAX {
        return None;
    }
    Some(name)
}

/// Every one of `channels` channels, when that is 1 to 31.
pub open spec fn spec_channel_mask_all(channels: i64) -> u32 {
    if channels <= 0 || channels >= 32 { 0 } else { (vstd::arithmetic::power2::pow2(channels as nat) - 1) as u32 }
}

/// The mask of every channel.
pub fn channel_mask_all(channels: i64) -> (r: u32)
    ensures
        r == spec_channel_mask_all(channels),
{
    if channels <= 0 || channels >= 32 {
        return 0;
    }
    let count = channels as u32;
    proof {
        vstd::bits::lemma_u32_pow2_no_overflow(count as nat);
        vstd::bits::lemma_u32_shl_is_mul(1, count);
    }
    (1u32 << count) - 1
}

/// A configured mask, limited to the device's channels; all of them when
/// that leaves none or the mask is not a `u32`.
pub open spec fn spec_clipped_mask(mask: i64, all: u32) -> u32 {
    let bits = (if 0 <= mask <= u32::MAX { mask as u32 } else { 0u32 }) & all;
    if bits == 0 { all } else { bits }
}

pub fn clipped_mask(mask: i64, all: u32) -> (r: u32)
    ensures
        r == spec_clipped_mask(mask, all),
{
    let m: u32 = if 0 <= mask && mask <= u32::MAX as i64 { mask as u32 } else { 0 };
    let bits = m & all;
    if bits == 0 {
        return all;
    }
    bits
}

/// The one channel a pan selects, or all of them for a pan of -1 or out of range.
pub open spec fn spec_pan_mask(pan: i64, channels: i64, all: u32) -> u32 {
    if pan == SOUND_PAN_ALL || pan < 0 || pan >= channels || pan >= 32 {
        all
    } else {
        vstd::arithmetic::power2::pow2(pan as nat) as u32
    }
}

pub fn pan_mask(pan: i64, channels: i64, all: u32) -> (r: u32)
    requires
        channels <= CHANNEL_MAX,
    ensures
        r == spec_pan_mask(pan, channels, all),
{
    if pan == SOUND_PAN_ALL || pan < 0 || pan >= channels || pan >= 32 {
        return all;
    }
    let shift = pan as u32;
    proof {
        vstd::bits::lemma_u32_pow2_no_overflow(shift as nat);
        vstd::bits::lemma_u32_shl_is_mul(1, shift);
    }
    1u32 << shift
}

/// A count as `u32`: zero for none or fewer, `u32::MAX` past it.
pub fn u32_from_i64(value: i64) -> (r: u32)
    ensures
        r == (if value <= 0 { 0 } else if value > u32::MAX { u32::MAX } else { value as u32 }),
{
    if value <= 0 {
        return 0;
    }
    if value > u32::MAX as i64 {
        return u32::MAX;
    }
    value as u32
}

/// `value` held to `min..=max`.
pub fn clamp_i64(value: i64, min: i64, max: i64) -> (r: i64)
    ensures
        r == (if value < min { min } else if value > max { max } else { value }),
{
    if value < min {
        return min;
    }
    if value > max {
        return max;
    }
    value
}

/// The stream volume: `streamVolume`, else `volume`, else unity, held to 0..=100.
pub fn configured_volume(stream_volume: Option<i64>, volume: Option<i64>) -> (r: i64)
    ensures
        r == (match (match stream_volume {
            Some(v) => Some(v),
            None => volume,
        }) {
            Some(v) => if v < VOLUME_MIN { VOLUME_MIN } else if v > VOLUME_UNITY { VOLUME_UNITY } else { v },
            None => VOLUME_UNITY,
        }),
        VOLUME_MIN <= r <= VOLUME_UNITY,
{
    let raw = match stream_volume {
        Some(v) => v,
        None => match volume {
            Some(v) => v,
            None => VOLUME_UNITY,
        },
    };
    clamp_i64(raw, VOLUME_MIN, VOLUME_UNITY)
}

/// The channel count: the configured one, else one, held to 1..=8.
pub fn configured_channels(channels: Option<i64>) -> (r: i64)
    ensures
        r == (match channels {
            Some(v) => if v < CHANNEL_MIN { CHANNEL_MIN } else if v > CHANNEL_MAX { CHANNEL_MAX } else { v },
            None => CHANNEL_MIN,
        }),
        CHANNEL_MIN <= r <= CHANNEL_MAX,
{
    let raw = match channels {
        Some(v) => v,
        None => CHANNEL_MIN,
    };
    clamp_i64(raw, CHANNEL_MIN, CHANNEL_MAX)
}

/// The channel mask: a configured mask clipped to the channels, else the
/// channel a pan selects, else every channel.
pub fn channel_mask(mask: Option<i64>, pan: Option<i64>, channels: i64) -> (r: u32)
    requires
        CHANNEL_MIN <= channels <= CHANNEL_MAX,
    ensures
        r == (match mask {
            Some(m) => spec_clipped_mask(m, spec_channel_mask_all(channels)),
            None => match pan {
                Some(p) => spec_pan_mask(p, channels, spec_channel_mask_all(channels)),
                None => spec_channel_mask_all(channels),
            },
        }),
{
    let all = channel_mask_all(channels);
    if let Some(m) = mask {
        return clipped_mask(m, all);
    }
    match pan {
        Some(p) => pan_mask(p, channels, all),
        None => all,
    }
}

/// The tyre a sound device reads: the configured name (unknown names meaning
/// all four) for effects that read a tyre, else the front left.
pub fn configured_tyre(effect: i32, tyre_name: Option<&str>) -> (r: i32)
    ensures
        !spec_effect_uses_tyre(effect) ==> r == TYRE_FRONT_LEFT,
        spec_effect_uses_tyre(effect) && tyre_name is None ==> r == TYRE_FRONT_LEFT,
        spec_effect_uses_tyre(effect) && tyre_name is Some ==> r == (match spec_lookup(spec_tyres(), tyre_name.unwrap()) {
            Some(v) => v,
            None => TYRE_ALL_FOUR,
        }),
{
    if !effect_uses_tyre(effect) {
        return TYRE_FRONT_LEFT;
    }
    match tyre_name {
        None => TYRE_FRONT_LEFT,
        Some(name) => tyre_or_all_four(name),
    }
}

/// A channel mask never holds a channel the device does not have.
pub proof fn channel_mask_stays_within_the_channels(mask: i64, channels: i64)
    requires
        CHANNEL_MIN <= channels <= CHANNEL_MAX,
    ensures
        spec_clipped_mask(mask, spec_channel_mask_all(channels)) & !spec_channel_mask_all(channels) == 0,
{
    let all = spec_channel_mask_all(channels);
    let m: u32 = if 0 <= mask <= u32::MAX { mask as u32 } else { 0u32 };
    assert((m & all) & !all == 0) by (bit_vector);
    assert(all & !all == 0) by (bit_vector);
}

} // verus!
