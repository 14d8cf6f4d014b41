use vstd::prelude::*;

verus! {

/// The number of interleaved samples that make up one frame. A channel count
/// of zero is read as mono.
pub open spec fn frame_width(channels: u16) -> int {
    if channels <= 1 {
        1
    } else {
        channels as int
    }
}

/// Division of `a` by a positive `d`, truncated toward zero.
pub open spec fn trunc_div(a: int, d: int) -> int {
    if a >= 0 {
        a / d
    } else {
        -((-a) / d)
    }
}

pub open spec fn clamp16(x: int) -> int {
    if x < -32768 {
        -32768
    } else if x > 32767 {
        32767
    } else {
        x
    }
}

/// The signed level of an unsigned sample: its offset from the midpoint.
pub open spec fn level_u16(x: u16) -> int {
    x as int - 32768
}

/// Sum of the first `k` samples that start at index `start`.
pub open spec fn sum_i16(data: Seq<i16>, start: int, k: int) -> int
    decreases k,
{
    if k <= 0 {
        0
    } else {
        sum_i16(data, start, k - 1) + data[start + k - 1] as int
    }
}

/// Sum of the levels of the first `k` samples that start at index `start`.
pub open spec fn sum_u16(data: Seq<u16>, start: int, k: int) -> int
    decreases k,
{
    if k <= 0 {
        0
    } else {
        sum_u16(data, start, k - 1) + level_u16(data[start + k - 1])
    }
}

/// The mono sample for a frame of `w` channels whose levels sum to `sum`.
pub open spec fn mix(sum: int, w: int) -> int {
    clamp16(trunc_div(sum, w))
}

/// Mono sample `i` of a signed 16-bit buffer with `channels` channels.
pub open spec fn mono_i16(data: Seq<i16>, channels: u16, i: int) -> int {
    let w = frame_width(channels);
    mix(sum_i16(data, i * w, w), w)
}

/// Mono sample `i` of an unsigned 16-bit buffer with `channels` channels.
pub open spec fn mono_u16(data: Seq<u16>, channels: u16, i: int) -> int {
    let w = frame_width(channels);
    mix(sum_u16(data, i * w, w), w)
}

proof fn lemma_frame_in_bounds(i: int, w: int, n: int)
    requires
        0 <= i < n / w,
        w >= 1,
        n >= 0,
    ensures
        0 <= i * w,
        i * w + w <= n,
{
    assert(0 <= i * w) by (nonlinear_arith)
        requires
            0 <= i,
            w >= 1,
    ;
    assert(i * w + w <= n) by (nonlinear_arith)
        requires
            0 <= i < n / w,
            w >= 1,
            n >= 0,
    ;
}

proof fn lemma_trunc_div_bounds(s: int, w: int)
    requires
        w >= 1,
        -32768 * w <= s <= 32767 * w,
    ensures
        -32768 <= trunc_div(s, w) <= 32767,
{
    if s >= 0 {
        assert(s / w <= 32767) by (nonlinear_arith)
            requires
                w >= 1,
                0 <= s <= 32767 * w,
        ;
        assert(s / w >= 0) by (nonlinear_arith)
            requires
                w >= 1,
                0 <= s,
        ;
    } else {
        assert((-s) / w <= 32768) by (nonlinear_arith)
            requires
                w >= 1,
                0 < -s <= 32768 * w,
        ;
        assert((-s) / w >= 0) by (nonlinear_arith)
            requires
                w >= 1,
                0 < -s,
        ;
    }
}

fn clamp_level(x: i64) -> (r: i16)
    ensures
        r as int == clamp16(x as int),
{
    if x < -32768 {
        -32768
    } else if x > 32767 {
        32767
    } else {
        x as i16
    }
}

fn trunc_div_exec(a: i64, d: i64) -> (r: i64)
    requires
        d >= 1,
        a > i64::MIN,
    ensures
        r as int == trunc_div(a as int, d as int),
{
    if a >= 0 {
        a / d
    } else {
        let q = (-a) / d;
        proof {
            let na: int = -(a as int);
            let di: int = d as int;
            assert(0 <= na / di <= na) by (nonlinear_arith)
                requires
                    di >= 1,
                    na > 0,
            ;
        }
        -q
    }
}

/// Converts an interleaved signed 16-bit buffer to mono: the samples of each
/// frame are summed, divided by the channel count with truncation toward
/// zero, and clamped to the 16-bit range. Trailing samples that do not fill
/// a frame are dropped.
pub fn downmix_i16(data: &Vec<i16>, channels: u16) -> (out: Vec<i16>)
    ensures
        out@.len() == (data@.len() as int) / frame_width(channels),
        forall|i: int|
            0 <= i < out@.len() ==> #[trigger] out@[i] as int == mono_i16(data@, channels, i),
{
    let w: usize = if channels <= 1 {
        1
    } else {
        channels as usize
    };
    let n: usize = data.len();
    let n_frames: usize = n / w;
    let mut out: Vec<i16> = Vec::with_capacity(n_frames);
    let mut i: usize = 0;
    while i < n_frames
        invariant
            w as int == frame_width(channels),
            1 <= w <= 65535,
            n == data@.len(),
            n_frames as int == (data@.len() as int) / (w as int),
            i <= n_frames,
            out@.len() == i,
            forall|k: int| 0 <= k < i ==> #[trigger] out@[k] as int == mono_i16(data@, channels, k),
        decreases n_frames - i,
    {
        proof {
            lemma_frame_in_bounds(i as int, w as int, data@.len() as int);
        }
        assert(i * w + w <= data@.len());
        let start: usize = i * w;
        let mut acc: i64 = 0;
        let mut j: usize = 0;
        while j < w
            invariant
                1 <= w <= 65535,
                start as int == i * w,
                n == data@.len(),
                start + w <= data@.len(),
                j <= w,
                acc as int == sum_i16(data@, start as int, j as int),
                -32768 * j <= acc <= 32767 * j,
            decreases w - j,
        {
            let x: i64 = data[start + j] as i64;
            assert(-32768 * j - 32768 <= acc + x <= 32767 * j + 32767);
            acc = acc + x;
            j = j + 1;
        }
        proof {
            lemma_trunc_div_bounds(acc as int, w as int);
        }
        let q = trunc_div_exec(acc, w as i64);
        out.push(clamp_level(q));
        i = i + 1;
    }
    out
}

/// Converts an interleaved unsigned 16-bit buffer to mono: each sample is
/// taken as its offset from 32768, the offsets of each frame are summed,
/// divided by the channel count with truncation toward zero, and clamped to
/// the 16-bit range. Trailing samples that do not fill a frame are dropped.
pub fn downmix_u16(data: &Vec<u16>, channels: u16) -> (out: Vec<i16>)
    ensures
        out@.len() == (data@.len() as int) / frame_width(channels),
        forall|i: int|
            0 <= i < out@.len() ==> #[trigger] out@[i] as int == mono_u16(data@, channels, i),
{
    let w: usize = if channels <= 1 {
        1
    } else {
        channels as usize
    };
    let n: usize = data.len();
    let n_frames: usize = n / w;
    let mut out: Vec<i16> = Vec::with_capacity(n_frames);
    let mut i: usize = 0;
    while i < n_frames
        invariant
            w as int == frame_width(channels),
            1 <= w <= 65535,
            n == data@.len(),
            n_frames as int == (data@.len() as int) / (w as int),
            i <= n_frames,
            out@.len() == i,
            forall|k: int| 0 <= k < i ==> #[trigger] out@[k] as int == mono_u16(data@, channels, k),
        decreases n_frames - i,
    {
        proof {
            lemma_frame_in_bounds(i as int, w as int, data@.len() as int);
        }
        assert(i * w + w <= data@.len());
        let start: usize = i * w;
        let mut acc: i64 = 0;
        let mut j: usize = 0;
        while j < w
            invariant
                1 <= w <= 65535,
                start as int == i * w,
                n == data@.len(),
                start + w <= data@.len(),
                j <= w,
                acc as int == sum_u16(data@, start as int, j as int),
                -32768 * j <= acc <= 32767 * j,
            decreases w - j,
        {
            let x: i64 = data[start + j] as i64 - 32768;
            assert(-32768 * j - 32768 <= acc + x <= 32767 * j + 32767);
            acc = acc + x;
            j = j + 1;
        }
        proof {
            lemma_trunc_div_bounds(acc as int, w as int);
        }
        let q = trunc_div_exec(acc, w as i64);
        out.push(clamp_level(q));
        i = i + 1;
    }
    out
}

proof fn lemma_sum_uniform_i16(data: Seq<i16>, start: int, k: int, v: i16)
    requires
        0 <= k,
        0 <= start,
        start + k <= data.len(),
        forall|j: int| 0 <= j < k ==> #[trigger] data[start + j] == v,
    ensures
        sum_i16(data, start, k) == k * (v as int),
    decreases k,
{
    if k == 0 {
        assert(k * (v as int) == 0);
    } else {
        lemma_sum_uniform_i16(data, start, k - 1, v);
        assert(data[start + (k - 1)] == v);
        assert(sum_i16(data, start, k) == sum_i16(data, start, k - 1) + v as int);
        assert(k * (v as int) == (k - 1) * (v as int) + v as int) by (nonlinear_arith);
    }
}

proof fn lemma_sum_uniform_u16(data: Seq<u16>, start: int, k: int, v: u16)
    requires
        0 <= k,
        0 <= start,
        start + k <= data.len(),
        forall|j: int| 0 <= j < k ==> #[trigger] data[start + j] == v,
    ensures
        sum_u16(data, start, k) == k * level_u16(v),
    decreases k,
{
    if k == 0 {
        assert(k * level_u16(v) == 0);
    } else {
        lemma_sum_uniform_u16(data, start, k - 1, v);
        assert(data[start + (k - 1)] == v);
        assert(sum_u16(data, start, k) == sum_u16(data, start, k - 1) + level_u16(v));
        assert(k * level_u16(v) == (k - 1) * level_u16(v) + level_u16(v)) by (nonlinear_arith);
    }
}

proof fn lemma_trunc_div_multiple(w: int, x: int)
    requires
        w >= 1,
    ensures
        trunc_div(w * x, w) == x,
{
    if x >= 0 {
        assert(w * x >= 0) by (nonlinear_arith)
            requires
                w >= 1,
                x >= 0,
        ;
        assert((w * x) / w == x) by (nonlinear_arith)
            requires
                w >= 1,
        ;
    } else {
        assert(w * x < 0) by (nonlinear_arith)
            requires
                w >= 1,
                x < 0,
        ;
        assert(-(w * x) == w * (-x)) by (nonlinear_arith);
        assert((w * (-x)) / w == -x) by (nonlinear_arith)
            requires
                w >= 1,
        ;
    }
}

proof fn lemma_sum_bounds_i16(data: Seq<i16>, start: int, k: int)
    requires
        0 <= k,
        0 <= start,
        start + k <= data.len(),
    ensures
        -32768 * k <= sum_i16(data, start, k) <= 32767 * k,
    decreases k,
{
    if k > 0 {
        lemma_sum_bounds_i16(data, start, k - 1);
        let x = data[start + k - 1];
        assert(sum_i16(data, start, k) == sum_i16(data, start, k - 1) + x as int);
        assert(-32768 <= x as int <= 32767);
        assert(-32768 * k == -32768 * (k - 1) - 32768 && 32767 * k == 32767 * (k - 1) + 32767);
    }
}

proof fn lemma_sum_bounds_u16(data: Seq<u16>, start: int, k: int)
    requires
        0 <= k,
        0 <= start,
        start + k <= data.len(),
    ensures
        -32768 * k <= sum_u16(data, start, k) <= 32767 * k,
    decreases k,
{
    if k > 0 {
        lemma_sum_bounds_u16(data, start, k - 1);
        let x = data[start + k - 1];
        assert(sum_u16(data, start, k) == sum_u16(data, start, k - 1) + level_u16(x));
        assert(-32768 <= level_u16(x) <= 32767);
        assert(-32768 * k == -32768 * (k - 1) - 32768 && 32767 * k == 32767 * (k - 1) + 32767);
    }
}

/// A frame whose channels all carry the same signed sample `v` mixes down to
/// exactly `v`, for every channel count.
pub proof fn lemma_uniform_frame_i16(data: Seq<i16>, channels: u16, i: int, v: i16)
    requires
        0 <= i < (data.len() as int) / frame_width(channels),
        forall|j: int|
            0 <= j < frame_width(channels) ==> #[trigger] data[i * frame_width(channels) + j]
                == v,
    ensures
        mono_i16(data, channels, i) == v as int,
{
    let w = frame_width(channels);
    lemma_frame_in_bounds(i, w, data.len() as int);
    lemma_sum_uniform_i16(data, i * w, w, v);
    lemma_trunc_div_multiple(w, v as int);
}

/// A frame whose channels all carry the same unsigned sample `v` mixes down
/// to exactly `v - 32768`, for every channel count.
pub proof fn lemma_uniform_frame_u16(data: Seq<u16>, channels: u16, i: int, v: u16)
    requires
        0 <= i < (data.len() as int) / frame_width(channels),
        forall|j: int|
            0 <= j < frame_width(channels) ==> #[trigger] data[i * frame_width(channels) + j]
                == v,
    ensures
        mono_u16(data, channels, i) == v as int - 32768,
{
    let w = frame_width(channels);
    lemma_frame_in_bounds(i, w, data.len() as int);
    lemma_sum_uniform_u16(data, i * w, w, v);
    lemma_trunc_div_multiple(w, level_u16(v));
}

/// The truncated average of every signed frame already lies in the 16-bit
/// range, so the clamp never alters it.
pub proof fn lemma_mix_in_range_i16(data: Seq<i16>, channels: u16, i: int)
    requires
        0 <= i < (data.len() as int) / frame_width(channels),
    ensures
        -32768 <= trunc_div(
            sum_i16(data, i * frame_width(channels), frame_width(channels)),
            frame_width(channels),
        ) <= 32767,
        mono_i16(data, channels, i) == trunc_div(
            sum_i16(data, i * frame_width(channels), frame_width(channels)),
            frame_width(channels),
        ),
{
    let w = frame_width(channels);
    lemma_frame_in_bounds(i, w, data.len() as int);
    lemma_sum_bounds_i16(data, i * w, w);
    lemma_trunc_div_bounds(sum_i16(data, i * w, w), w);
}

/// The truncated average of every unsigned frame already lies in the 16-bit
/// range, so the clamp never alters it.
pub proof fn lemma_mix_in_range_u16(data: Seq<u16>, channels: u16, i: int)
    requires
        0 <= i < (data.len() as int) / frame_width(channels),
    ensures
        -32768 <= trunc_div(
            sum_u16(data, i * frame_width(channels), frame_width(channels)),
            frame_width(channels),
        ) <= 32767,
        mono_u16(data, channels, i) == trunc_div(
            sum_u16(data, i * frame_width(channels), frame_width(channels)),
            frame_width(channels),
        ),
{
    let w = frame_width(channels);
    lemma_frame_in_bounds(i, w, data.len() as int);
    lemma_sum_bounds_u16(data, i * w, w);
    lemma_trunc_div_bounds(sum_u16(data, i * w, w), w);
}

} // verus!
