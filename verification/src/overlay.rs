//! The cursor overlay: where the cursor image is drawn on the source
//! video, as two keyframe tables thinned out to a bounded size.

use vstd::prelude::*;
use crate::cursor::CursorSample;
use crate::fixed::{ceil_div, clamp_spec, UNIT};
use crate::keyframes::{increasing, interpolate, interpolation_text, Keyframe, KeyframeTable};
use crate::pan::Axis;
use crate::timeline::TIME_LIMIT;

verus! {

/// The most keyframes that one overlay track may hold.
pub const MAX_OVERLAY_KEYFRAMES: usize = 100;

/// The stride that thins `len` samples out to at most `max`: one where
/// they are few enough, else `len / max` rounded up.
pub open spec fn sample_stride(len: int, max: int) -> int {
    if len <= max {
        1
    } else {
        ceil_div(len, max)
    }
}

/// How many samples are left of `len` when every `stride`-th is taken,
/// the first among them.
pub open spec fn sampled_count(len: int, stride: int) -> int {
    ceil_div(len, stride)
}

/// Thinning out keeps the count within the maximum and the ends within
/// reach: the first sample is taken, and the last one taken lies less
/// than one stride before the end of the log.
pub proof fn law_subsample_bound(len: int, max: int)
    requires
        0 <= len,
        0 < max,
    ensures
        sample_stride(len, max) >= 1,
        0 <= sampled_count(len, sample_stride(len, max)) <= max,
        len > 0 ==> sampled_count(len, sample_stride(len, max)) >= 1,
        len > 0 ==> len - sample_stride(len, max) <= (sampled_count(
            len,
            sample_stride(len, max),
        ) - 1) * sample_stride(len, max) < len,
{
    let stride = sample_stride(len, max);
    if len > max {
        crate::fixed::lemma_quotient_bounds(len + max - 1, max);
        // stride * max >= len
        assert(max * stride == stride * max) by (nonlinear_arith);
        if stride < 1 {
            assert(max * stride <= 0) by (nonlinear_arith)
                requires
                    stride <= 0,
                    max > 0,
            ;
        }
    }
    assert(stride >= 1);
    let count = sampled_count(len, stride);
    crate::fixed::lemma_quotient_bounds(len + stride - 1, stride);
    assert(stride * count == count * stride) by (nonlinear_arith);
    // count * stride >= len, and (count - 1) * stride < len
    assert((count - 1) * stride == count * stride - stride) by (nonlinear_arith);
    if count > max {
        assert((count - 1) * stride >= max * stride) by (nonlinear_arith)
            requires
                count - 1 >= max,
                stride >= 1,
        ;
        if len > max {
            assert(max * stride == stride * max) by (nonlinear_arith);
        } else {
            assert(max * stride == max) by (nonlinear_arith)
                requires
                    stride == 1,
            ;
        }
    }
    if len > 0 && count < 1 {
        assert(count * stride <= 0) by (nonlinear_arith)
            requires
                count <= 0,
                stride >= 1,
        ;
    }
}

/// Every `stride`-th keyframe of `frames`, the first among them.
pub open spec fn thinned(frames: Seq<Keyframe>, stride: int) -> Seq<Keyframe> {
    Seq::new(
        sampled_count(frames.len() as int, stride) as nat,
        |i: int| frames[i * stride],
    )
}

/// A table thinned out to at most `max` keyframes still spans the log: it
/// is in order, its value at the first logged time is the first logged
/// value, and its value at the last logged time is the value logged less
/// than one stride before the end.
pub proof fn law_thinned_spans_the_log(frames: Seq<Keyframe>, max: int)
    requires
        increasing(frames),
        frames.len() > 0,
        0 < max,
    ensures
        ({
            let stride = sample_stride(frames.len() as int, max);
            let thin = thinned(frames, stride);
            let last = (thin.len() - 1) * stride;
            &&& 1 <= thin.len() <= max
            &&& increasing(thin)
            &&& interpolate(thin, frames[0].t as int) == frames[0].v
            &&& frames.len() - stride <= last < frames.len()
            &&& interpolate(thin, frames.last().t as int) == frames[last].v
        }),
{
    let len = frames.len() as int;
    let stride = sample_stride(len, max);
    law_subsample_bound(len, max);
    let thin = thinned(frames, stride);
    let count = thin.len() as int;
    assert forall|i: int| 0 <= i < count implies 0 <= #[trigger] (i * stride) < len by {
        assert(0 <= i * stride <= (count - 1) * stride) by (nonlinear_arith)
            requires
                0 <= i <= count - 1,
                stride >= 1,
        ;
    }
    assert forall|i: int, j: int| 0 <= i < j < thin.len() implies thin[i].t < thin[j].t by {
        assert(i * stride < j * stride) by (nonlinear_arith)
            requires
                0 <= i < j,
                stride >= 1,
        ;
        assert(0 <= i * stride);
        assert(j * stride < len);
    }
    assert(0 * stride == 0) by (nonlinear_arith);
    assert(thin[0] == frames[0]);
    crate::keyframes::law_value_at_keyframe(thin, 0);
    let last = (count - 1) * stride;
    assert(thin[count - 1] == frames[last]);
    crate::keyframes::law_constant_outside(thin, frames.last().t as int);
    if last < len - 1 {
        assert(frames[last].t < frames[len - 1].t);
    }
}

/// The stride that thins `len` samples out to at most `max`.
pub fn stride_within(len: usize, max: usize) -> (stride: usize)
    requires
        max > 0,
    ensures
        stride == sample_stride(len as int, max as int),
        stride >= 1,
{
    proof {
        law_subsample_bound(len as int, max as int);
    }
    if len <= max {
        1
    } else {
        // len > max >= 1, so the quotient of len - 1 is the rounded-up quotient less one
        proof {
            crate::fixed::lemma_quotient_bounds(len as int - 1, max as int);
            let q = (len as int - 1) / (max as int);
            assert(max * q == q * max) by (nonlinear_arith);
            assert((q + 1) * max == q * max + max) by (nonlinear_arith);
            crate::fixed::lemma_floor_quotient(len as int + max as int - 1, max as int, q + 1);
        }
        (len - 1) / max + 1
    }
}

/// What the overlay of one axis works from.
#[derive(Clone, Copy, Debug, PartialEq, Eq, Structural)]
pub struct OverlaySetup {
    /// Every `stride`-th sample is looked at.
    pub stride: usize,
    /// The video's extent along the axis, in pixels.
    pub extent: i32,
    /// The side of the cursor image, in pixels.
    pub size: i32,
    /// The start of the trim window, in microseconds of source time.
    pub trim_start: i64,
    pub axis: Axis,
}

/// The time of a sample on the trimmed timeline, in microseconds.
pub open spec fn overlay_time(sample: CursorSample, trim_start: int) -> int {
    sample.timestamp_ms * 1000 - trim_start
}

/// Where the cursor image's corner goes for a cursor at `coord`: the
/// cursor's pixel less half the image, kept within the video.
pub open spec fn overlay_value(coord: int, extent: int, size: int) -> int {
    clamp_spec(coord * extent - (size * UNIT) / 2, 0, (extent - size) * UNIT)
}

/// The coordinate of a sample along an axis.
pub open spec fn coordinate(sample: CursorSample, axis: Axis) -> int {
    match axis {
        Axis::Horizontal => sample.x as int,
        Axis::Vertical => sample.y as int,
    }
}

/// The keyframes that the first `n` samples looked at leave: one for each
/// that lies on the trimmed timeline, later than the one before it.
pub open spec fn overlay_frames(log: Seq<CursorSample>, setup: OverlaySetup, n: int) -> Seq<
    Keyframe,
>
    decreases n,
{
    if n <= 0 {
        Seq::<Keyframe>::empty()
    } else {
        let prev = overlay_frames(log, setup, n - 1);
        let sample = log[(n - 1) * setup.stride];
        let t = overlay_time(sample, setup.trim_start as int);
        if 0 <= t <= TIME_LIMIT && (prev.len() == 0 || prev.last().t < t) {
            prev.push(
                Keyframe {
                    t: t as i64,
                    v: overlay_value(
                        coordinate(sample, setup.axis),
                        setup.extent as int,
                        setup.size as int,
                    ) as i64,
                },
            )
        } else {
            prev
        }
    }
}

/// The overlay track of a log along an axis.
pub open spec fn overlay_track_spec(
    log: Seq<CursorSample>,
    size: i32,
    extent: i32,
    trim_start: i64,
    axis: Axis,
) -> Seq<Keyframe> {
    let stride = sample_stride(log.len() as int, MAX_OVERLAY_KEYFRAMES as int);
    let setup = OverlaySetup { stride: stride as usize, extent, size, trim_start, axis };
    overlay_frames(log, setup, sampled_count(log.len() as int, stride))
}

/// The keyframe that a sample on the trimmed timeline leaves.
pub open spec fn overlay_keyframe(sample: CursorSample, setup: OverlaySetup) -> Keyframe {
    Keyframe {
        t: overlay_time(sample, setup.trim_start as int) as i64,
        v: overlay_value(coordinate(sample, setup.axis), setup.extent as int, setup.size as int)
            as i64,
    }
}

/// Whether a log is in order of time and lies on the trimmed timeline
/// that begins at `trim_start`.
pub open spec fn on_timeline(log: Seq<CursorSample>, trim_start: int) -> bool {
    &&& forall|i: int, j: int|
        0 <= i <= j < log.len() ==> log[i].timestamp_ms <= log[j].timestamp_ms
    &&& forall|i: int|
        0 <= i < log.len() ==> 0 <= #[trigger] overlay_time(log[i], trim_start) <= TIME_LIMIT
}

/// Whether the keyframes `frames` end with the keyframe of a sample of
/// `log` that was taken at the same time as the sample at index `at`, and
/// not after it in the log.
pub open spec fn ends_at(
    frames: Seq<Keyframe>,
    log: Seq<CursorSample>,
    setup: OverlaySetup,
    at: int,
) -> bool {
    exists|j: int|
        0 <= j <= at && log[j].timestamp_ms == log[at].timestamp_ms && frames.last()
            == #[trigger] overlay_keyframe(log[j], setup)
}

/// Of a log on the timeline the keyframes begin with the first sample's,
/// are in order, and end with that of a sample taken at the time of the
/// last sample looked at.
pub proof fn lemma_overlay_frames_of_ordered_log(
    log: Seq<CursorSample>,
    setup: OverlaySetup,
    n: int,
)
    requires
        on_timeline(log, setup.trim_start as int),
        setup.stride >= 1,
        1 <= n,
        (n - 1) * setup.stride < log.len(),
    ensures
        overlay_frames(log, setup, n).len() >= 1,
        overlay_frames(log, setup, n)[0] == overlay_keyframe(log[0], setup),
        increasing(overlay_frames(log, setup, n)),
        ends_at(overlay_frames(log, setup, n), log, setup, (n - 1) * setup.stride),
    decreases n,
{
    let stride = setup.stride as int;
    let at = (n - 1) * stride;
    let now = overlay_frames(log, setup, n);
    let sample = log[at];
    let t = overlay_time(sample, setup.trim_start as int);
    assert(0 <= at) by (nonlinear_arith)
        requires
            at == (n - 1) * stride,
            n >= 1,
            stride >= 1,
    ;
    assert(0 <= t <= TIME_LIMIT);
    if n == 1 {
        assert(overlay_frames(log, setup, 0).len() == 0);
        assert(at == 0) by (nonlinear_arith)
            requires
                at == (n - 1) * stride,
                n == 1,
        ;
        assert(now.last() == overlay_keyframe(log[0], setup));
    } else {
        let before = (n - 2) * stride;
        assert(0 <= before < at) by (nonlinear_arith)
            requires
                before == (n - 2) * stride,
                at == (n - 1) * stride,
                n >= 2,
                stride >= 1,
        ;
        lemma_overlay_frames_of_ordered_log(log, setup, n - 1);
        let prev = overlay_frames(log, setup, n - 1);
        let j = choose|j: int|
            0 <= j <= before && log[j].timestamp_ms == log[before].timestamp_ms && prev.last()
                == #[trigger] overlay_keyframe(log[j], setup);
        assert(0 <= overlay_time(log[j], setup.trim_start as int) <= TIME_LIMIT);
        assert(log[before].timestamp_ms <= log[at].timestamp_ms);
        if prev.last().t < t {
            assert(now.last() == overlay_keyframe(log[at], setup));
            assert forall|a: int, b: int| 0 <= a < b < now.len() implies now[a].t < now[b].t by {
                if b < prev.len() {
                    assert(prev[a].t < prev[b].t);
                } else if a < prev.len() - 1 {
                    assert(prev[a].t < prev[prev.len() - 1].t);
                }
            }
        } else {
            assert(now == prev);
            assert(log[j].timestamp_ms == log[at].timestamp_ms);
            assert(now.last() == overlay_keyframe(log[j], setup));
        }
    }
}

/// The overlay track of a dense log still spans the log. Of a log in
/// order of time on the timeline the track holds at most
/// `MAX_OVERLAY_KEYFRAMES` keyframes; its value at the first logged time
/// is the first logged position; and its value at the last logged time is
/// a position logged at the time of the last sample looked at, which lies
/// less than one stride before the end of the log.
pub proof fn law_overlay_spans_the_log(
    log: Seq<CursorSample>,
    size: i32,
    extent: i32,
    trim_start: i64,
    axis: Axis,
)
    requires
        log.len() > 0,
        log.len() <= usize::MAX,
        on_timeline(log, trim_start as int),
    ensures
        ({
            let stride = sample_stride(log.len() as int, MAX_OVERLAY_KEYFRAMES as int);
            let setup = OverlaySetup { stride: stride as usize, extent, size, trim_start, axis };
            let track = overlay_track_spec(log, size, extent, trim_start, axis);
            let last = (sampled_count(log.len() as int, stride) - 1) * stride;
            &&& 1 <= track.len() <= MAX_OVERLAY_KEYFRAMES
            &&& increasing(track)
            &&& track[0] == overlay_keyframe(log[0], setup)
            &&& interpolate(track, overlay_time(log[0], trim_start as int)) == overlay_keyframe(
                log[0],
                setup,
            ).v
            &&& log.len() - stride <= last < log.len()
            &&& ends_at(track, log, setup, last)
            &&& interpolate(track, overlay_time(log.last(), trim_start as int))
                == track.last().v
        }),
{
    let len = log.len() as int;
    let stride = sample_stride(len, MAX_OVERLAY_KEYFRAMES as int);
    law_subsample_bound(len, MAX_OVERLAY_KEYFRAMES as int);
    // the stride is at most the length of the log
    assert(stride <= len) by {
        if len > MAX_OVERLAY_KEYFRAMES {
            crate::fixed::lemma_quotient_bounds(len + 100 - 1, 100);
        }
    }
    let setup = OverlaySetup { stride: stride as usize, extent, size, trim_start, axis };
    let count = sampled_count(len, stride);
    let last = (count - 1) * stride;
    lemma_overlay_frames_of_ordered_log(log, setup, count);
    lemma_overlay_frames_len(log, setup, count);
    let track = overlay_track_spec(log, size, extent, trim_start, axis);
    assert(0 <= overlay_time(log[0], trim_start as int) <= TIME_LIMIT);
    assert(0 <= overlay_time(log[len - 1], trim_start as int) <= TIME_LIMIT);
    crate::keyframes::law_value_at_keyframe(track, 0);
    let j = choose|j: int|
        0 <= j <= last && log[j].timestamp_ms == log[last].timestamp_ms && track.last()
            == #[trigger] overlay_keyframe(log[j], setup);
    assert(0 <= overlay_time(log[j], trim_start as int) <= TIME_LIMIT);
    assert(log[last].timestamp_ms <= log[len - 1].timestamp_ms);
    crate::keyframes::law_constant_outside(track, overlay_time(log.last(), trim_start as int));
}

/// The frames of `n` samples are at most `n`.
pub proof fn lemma_overlay_frames_len(log: Seq<CursorSample>, setup: OverlaySetup, n: int)
    requires
        0 <= n,
    ensures
        overlay_frames(log, setup, n).len() <= n,
    decreases n,
{
    if n > 0 {
        lemma_overlay_frames_len(log, setup, n - 1);
    }
}

fn overlay_point(coord: i64, extent: i32, size: i32) -> (v: i64)
    ensures
        v == overlay_value(coord as int, extent as int, size as int),
{
    proof {
        assert(-0x8000_0000_0000_0000 * 0x8000_0000 <= coord * extent <= 0x8000_0000_0000_0000
            * 0x8000_0000) by (nonlinear_arith)
            requires
                -0x8000_0000_0000_0000 <= coord < 0x8000_0000_0000_0000,
                -0x8000_0000 <= extent < 0x8000_0000,
        ;
    }
    let product: i128 = (coord as i128) * (extent as i128);
    let half: i128 = crate::fixed::floor_div((size as i128) * 1_000_000, 2);
    let raw: i128 = product - half;
    let hi: i128 = ((extent as i128) - (size as i128)) * 1_000_000;
    let raised: i128 = if raw < 0 {
        0
    } else {
        raw
    };
    if raised > hi {
        hi as i64
    } else {
        raised as i64
    }
}

/// The overlay track of a log along an axis: the corner of a cursor image
/// of side `size` on a video of the given extent, at no more than
/// `MAX_OVERLAY_KEYFRAMES` moments of the trimmed timeline.
pub fn overlay_track(
    log: &Vec<CursorSample>,
    size: i32,
    extent: i32,
    trim_start: i64,
    axis: Axis,
) -> (table: KeyframeTable)
    ensures
        table@ == overlay_track_spec(log@, size, extent, trim_start, axis),
        table.wf(),
        table@.len() <= MAX_OVERLAY_KEYFRAMES,
{
    let len: usize = log.len();
    let stride: usize = stride_within(len, MAX_OVERLAY_KEYFRAMES);
    let ghost setup = OverlaySetup { stride, extent, size, trim_start, axis };
    proof {
        law_subsample_bound(len as int, MAX_OVERLAY_KEYFRAMES as int);
    }
    let count: usize = if len == 0 {
        0
    } else {
        proof {
            crate::fixed::lemma_quotient_bounds(len as int - 1, stride as int);
            let q = (len as int - 1) / (stride as int);
            assert(stride * q == q * stride) by (nonlinear_arith);
            assert((q + 1) * stride == q * stride + stride) by (nonlinear_arith);
            crate::fixed::lemma_floor_quotient(len as int + stride as int - 1, stride as int, q + 1);
        }
        (len - 1) / stride + 1
    };
    proof {
        if len == 0 {
            crate::fixed::lemma_floor_quotient(stride as int - 1, stride as int, 0);
        }
        lemma_overlay_frames_len(log@, setup, count as int);
    }
    let mut table = KeyframeTable::new();
    let mut n: usize = 0;
    while n < count
        invariant
            stride >= 1,
            len == log@.len(),
            0 <= n <= count,
            count == sampled_count(len as int, stride as int),
            len > 0 ==> (count - 1) * stride < len,
            len == 0 ==> count == 0,
            setup == (OverlaySetup { stride, extent, size, trim_start, axis }),
            table.wf(),
            table@ == overlay_frames(log@, setup, n as int),
        decreases count - n,
    {
        proof {
            assert(0 <= n * stride <= (count - 1) * stride) by (nonlinear_arith)
                requires
                    0 <= n <= count - 1,
                    stride >= 1,
            ;
        }
        let sample: CursorSample = log[n * stride];
        let t: i128 = (sample.timestamp_ms as i128) * 1000 - (trim_start as i128);
        if 0 <= t && t <= TIME_LIMIT as i128 {
            let coord: i64 = match axis {
                Axis::Horizontal => sample.x,
                Axis::Vertical => sample.y,
            };
            table.push(Keyframe { t: t as i64, v: overlay_point(coord, extent, size) });
        }
        n += 1;
    }
    table
}

/// The path of the cursor image as the filter engine takes it: each
/// backslash a slash, each colon escaped by a backslash.
pub open spec fn escaped_path(path: Seq<char>) -> Seq<char>
    decreases path.len(),
{
    if path.len() == 0 {
        Seq::<char>::empty()
    } else {
        escaped_path(path.drop_last()) + escaped_char(path.last())
    }
}

/// What one character of a path becomes.
pub open spec fn escaped_char(c: char) -> Seq<char> {
    if c == '\\' {
        "/"@
    } else if c == ':' {
        "\\:"@
    } else {
        seq![c]
    }
}

/// The filter that draws the cursor image onto the source video.
pub open spec fn overlay_filter_text(path: Seq<char>, x: Seq<Keyframe>, y: Seq<Keyframe>) -> Seq<
    char,
> {
    "movie='"@ + escaped_path(path) + "'[cur];[0:v][cur]overlay=x='"@ + interpolation_text(x)
        + "':y='"@ + interpolation_text(y) + "':eval=frame:format=auto[vcur]"@
}

} // verus!
