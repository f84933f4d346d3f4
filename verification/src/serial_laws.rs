//! A strip that answers the LED-count query with its count in decimal, as
//! the sketches print it, is read back as that count.
use vstd::prelude::*;
use crate::serial::{
    byte_stuff, moza_decoded, moza_frame, simled_rgb_byte, spec_simled_rgb, stuff_from, wire_checksum, MOZA_START,
    bytes_value, c_string, c_string_end, digit_run, is_c_space, skip_c_space, skip_crlf, spec_parse_simled_count,
    SimLedCount,
};

verus! {

/// The decimal ASCII digits of `n`, most significant first.
pub open spec fn dec_bytes(n: nat) -> Seq<u8>
    decreases n,
{
    if n < 10 {
        seq![(0x30 + n) as u8]
    } else {
        dec_bytes(n / 10).push((0x30 + n % 10) as u8)
    }
}

/// Bytes that are all CR or LF.
pub open spec fn line_end(e: Seq<u8>) -> bool {
    forall|i: int| 0 <= i < e.len() ==> #[trigger] e[i] == 0x0d || e[i] == 0x0a
}

proof fn lemma_dec_bytes_digits(n: nat)
    ensures
        dec_bytes(n).len() >= 1,
        forall|i: int| 0 <= i < dec_bytes(n).len() ==> 0x30 <= #[trigger] dec_bytes(n)[i] <= 0x39,
        bytes_value(dec_bytes(n), 0, dec_bytes(n).len() as int) == n,
    decreases n,
{
    let t = dec_bytes(n);
    if n >= 10 {
        let p = dec_bytes(n / 10);
        lemma_dec_bytes_digits(n / 10);
        assert(t == p.push((0x30 + n % 10) as u8));
        lemma_bytes_value_same(t, p, 0, p.len() as int);
        assert(t[p.len() as int] - 0x30 == n % 10);
        assert(bytes_value(t, 0, t.len() as int) == bytes_value(t, 0, p.len() as int) * 10 + (t[p.len() as int] - 0x30));
        assert((n / 10) * 10 + n % 10 == n);
    } else {
        assert(bytes_value(t, 0, 1) == bytes_value(t, 0, 0) * 10 + (t[0] - 0x30));
    }
}

proof fn lemma_bytes_value_same(t1: Seq<u8>, t2: Seq<u8>, from: int, to: int)
    requires
        0 <= from <= to <= t1.len(),
        to <= t2.len(),
        forall|k: int| from <= k < to ==> t1[k] == t2[k],
    ensures
        bytes_value(t1, from, to) == bytes_value(t2, from, to),
    decreases to - from,
{
    if to > from {
        lemma_bytes_value_same(t1, t2, from, to - 1);
    }
}

proof fn lemma_c_string_end_no_nul(t: Seq<u8>, i: int)
    requires
        0 <= i <= t.len(),
        forall|k: int| i <= k < t.len() ==> #[trigger] t[k] != 0,
    ensures
        c_string_end(t, i) == t.len(),
    decreases t.len() - i,
{
    if i < t.len() {
        lemma_c_string_end_no_nul(t, i + 1);
    }
}

proof fn lemma_digit_run_over(t: Seq<u8>, i: int, j: int)
    requires
        0 <= i <= j <= t.len(),
        forall|k: int| i <= k < j ==> 0x30 <= #[trigger] t[k] <= 0x39,
        j == t.len() || !(0x30 <= t[j] <= 0x39),
    ensures
        digit_run(t, i) == j,
    decreases j - i,
{
    if i < j {
        lemma_digit_run_over(t, i + 1, j);
    }
}

proof fn lemma_skip_crlf_to_end(t: Seq<u8>, i: int)
    requires
        0 <= i <= t.len(),
        forall|k: int| i <= k < t.len() ==> #[trigger] t[k] == 0x0d || t[k] == 0x0a,
    ensures
        skip_crlf(t, i) == t.len(),
    decreases t.len() - i,
{
    if i < t.len() {
        lemma_skip_crlf_to_end(t, i + 1);
    }
}

/// A count in decimal followed by nothing but CR and LF reads back as that
/// count, for every count the strip can hold.
pub proof fn simled_count_reply_reads_back(n: nat, end: Seq<u8>)
    requires
        n <= i32::MAX,
        line_end(end),
    ensures
        spec_parse_simled_count(dec_bytes(n) + end) == SimLedCount::Count(n as i32),
{
    let d = dec_bytes(n);
    let r = d + end;
    lemma_dec_bytes_digits(n);
    assert forall|k: int| 0 <= k < r.len() implies #[trigger] r[k] != 0 by {
        if k < d.len() {
            assert(0x30 <= d[k] <= 0x39);
        } else {
            assert(end[k - d.len()] == 0x0d || end[k - d.len()] == 0x0a);
        }
    }
    lemma_c_string_end_no_nul(r, 0);
    let t = c_string(r);
    assert(t =~= r);
    assert(!is_c_space(t[0]));
    assert(skip_c_space(t, 0) == 0);
    lemma_digit_run_over(t, 0, d.len() as int);
    lemma_skip_crlf_to_end(t, d.len() as int);
    lemma_bytes_value_same(t, d, 0, d.len() as int);
}


/// Reads stuffed bytes back: a pair of frame starts stands for one; a lone
/// frame start cannot be read.
pub open spec fn unstuff(s: Seq<u8>) -> Option<Seq<u8>>
    decreases s.len(),
{
    if s.len() == 0 {
        Some(Seq::empty())
    } else if s[0] == MOZA_START {
        if s.len() >= 2 && s[1] == MOZA_START {
            match unstuff(s.skip(2)) {
                Some(t) => Some(seq![MOZA_START] + t),
                None => None,
            }
        } else {
            None
        }
    } else {
        match unstuff(s.skip(1)) {
            Some(t) => Some(seq![s[0]] + t),
            None => None,
        }
    }
}

proof fn lemma_unstuff_one(b: u8, t: Seq<u8>, u: Seq<u8>)
    requires
        unstuff(t) == Some(u),
    ensures
        unstuff((if b == MOZA_START { seq![b, b] } else { seq![b] }) + t) == Some(seq![b] + u),
{
    let w = (if b == MOZA_START { seq![b, b] } else { seq![b] }) + t;
    if b == MOZA_START {
        assert(w.skip(2) =~= t);
    } else {
        assert(w.skip(1) =~= t);
    }
}

proof fn lemma_stuff_reads_back(frame: Seq<u8>, i: int, out: Seq<u8>)
    requires
        0 <= i <= frame.len(),
    ensures
        stuff_from(frame, i, out) matches Some(r) ==> r.len() >= out.len() && r.subrange(0, out.len() as int) == out
            && unstuff(r.skip(out.len() as int)) == Some(frame.subrange(i, frame.len() as int)),
    decreases frame.len() - i,
{
    if i < frame.len() && out.len() + 1 < crate::serial::MOZA_MAX_FRAME {
        let b = frame[i];
        let e = if b == MOZA_START { seq![b, b] } else { seq![b] };
        let next = out + e;
        assert(next =~= (if b == MOZA_START { out.push(b).push(b) } else { out.push(b) }));
        lemma_stuff_reads_back(frame, i + 1, next);
        if let Some(r) = stuff_from(frame, i + 1, next) {
            let u = frame.subrange(i + 1, frame.len() as int);
            let t = r.skip(next.len() as int);
            lemma_unstuff_one(b, t, u);
            assert(r.subrange(0, next.len() as int) == next);
            assert forall|j: int| 0 <= j < r.len() - out.len() implies #[trigger] r.skip(out.len() as int)[j] == (e + t)[j] by {
                if j < e.len() {
                    assert(r[out.len() + j] == r.subrange(0, next.len() as int)[out.len() + j]);
                } else {
                    assert(t[j - e.len()] == r[next.len() + j - e.len()]);
                }
            }
            assert(r.skip(out.len() as int) =~= e + t);
            assert(seq![b] + u =~= frame.subrange(i, frame.len() as int));
            assert(r.subrange(0, out.len() as int) =~= next.subrange(0, out.len() as int));
        }
    } else if i >= frame.len() {
        assert(frame.subrange(i, frame.len() as int) =~= Seq::<u8>::empty());
        assert(out.skip(out.len() as int) =~= Seq::<u8>::empty());
        assert(out.subrange(0, out.len() as int) =~= out);
    }
}

/// Byte stuffing can be undone: the wire frame keeps the first two bytes,
/// every frame start past them stands in a pair, and reading the pairs back
/// gives the rest of the frame exactly.
pub proof fn stuffed_frames_read_back(frame: Seq<u8>)
    ensures
        byte_stuff(frame) matches Some(w) ==> w.len() >= 2 && w.subrange(0, 2) == frame.subrange(0, 2)
            && unstuff(w.skip(2)) == Some(frame.skip(2)),
{
    if frame.len() >= 2 {
        lemma_stuff_reads_back(frame, 2, frame.subrange(0, 2));
        assert(frame.subrange(2, frame.len() as int) =~= frame.skip(2));
    }
}

/// What goes on the wire for a command reads back as the decoded command
/// followed by its checksum.
pub proof fn moza_frames_read_back(cmd: Seq<u8>, payload: Seq<u8>)
    ensures
        moza_frame(cmd, payload) matches Some(w) ==> ({
            let d = moza_decoded(cmd, payload).push(wire_checksum(moza_decoded(cmd, payload)));
            &&& w.subrange(0, 2) == d.subrange(0, 2)
            &&& unstuff(w.skip(2)) == Some(d.skip(2))
        }),
{
    let d = moza_decoded(cmd, payload).push(wire_checksum(moza_decoded(cmd, payload)));
    stuffed_frames_read_back(d);
}

/// Green, yellow and red as colour bytes.
pub open spec fn rgb3(r: u8, g: u8, b: u8) -> Seq<u8> {
    seq![r, g, b]
}

/// The strip's colour scale: LEDs outside the span or past the lit count are
/// dark; lit LEDs of the span's lower half are green, the last LED of the
/// span red, and the lit LEDs between them yellow.
pub proof fn simled_colour_scale(lit: int, total: int, avail: int, start: int, led: int)
    requires
        0 <= led < total,
        1 <= avail,
    ensures
        ({
            let rgb = spec_simled_rgb(lit, total, avail, start);
            let idx = led - (start - 1);
            let c = rgb.subrange(3 * led, 3 * led + 3);
            &&& idx < 0 || idx >= lit ==> c == rgb3(0, 0, 0)
            &&& 0 <= idx < lit && idx == avail - 1 ==> c == rgb3(0xff, 0, 0)
            &&& 0 <= idx < lit && idx < avail / 2 && idx != avail - 1 ==> c == rgb3(0, 0xff, 0)
            &&& 0 <= idx < lit && avail / 2 <= idx < avail - 1 ==> c == rgb3(0xff, 0xff, 0)
        }),
{
    let rgb = spec_simled_rgb(lit, total, avail, start);
    let c = rgb.subrange(3 * led, 3 * led + 3);
    assert((3 * led) / 3 == led && (3 * led) % 3 == 0 && (3 * led + 1) / 3 == led && (3 * led + 1) % 3 == 1
        && (3 * led + 2) / 3 == led && (3 * led + 2) % 3 == 2) by (nonlinear_arith)
        requires
            0 <= led,
    ;
    assert(c[0] == simled_rgb_byte(lit, avail, start, 3 * led));
    assert(c[1] == simled_rgb_byte(lit, avail, start, 3 * led + 1));
    assert(c[2] == simled_rgb_byte(lit, avail, start, 3 * led + 2));
    assert(c =~= seq![c[0], c[1], c[2]]);
}

} // verus!
