//! The cursor trajectory log and the lookup of the cursor's position at a
//! given time.

use vstd::prelude::*;
use crate::fixed::{lerp, lerp_spec};

verus! {

/// Where the cursor was at one moment of the recording: milliseconds since
/// the recording began, and the position in fixed-point frame coordinates.
#[derive(Clone, Copy, Debug, PartialEq, Eq, Structural)]
pub struct CursorSample {
    pub timestamp_ms: u64,
    pub x: i64,
    pub y: i64,
}

/// The first index from `from` on whose sample is not earlier than `time`;
/// the length of the log if there is none.
pub open spec fn first_at_or_after(log: Seq<CursorSample>, from: int, time: int) -> int
    decreases log.len() - from,
{
    if from < 0 || from >= log.len() {
        log.len() as int
    } else if log[from].timestamp_ms >= time {
        from
    } else {
        first_at_or_after(log, from + 1, time)
    }
}

/// The cursor's position at `time`: that of the first sample if none is
/// earlier, that of the last if all are earlier, and otherwise on the line
/// between the last earlier sample and the one that follows it.
pub open spec fn cursor_position(log: Seq<CursorSample>, time: int) -> Option<(int, int)> {
    if log.len() == 0 {
        None
    } else {
        let idx = first_at_or_after(log, 0, time);
        if idx == 0 {
            Some((log[0].x as int, log[0].y as int))
        } else if idx >= log.len() {
            Some((log.last().x as int, log.last().y as int))
        } else {
            let before = log[idx - 1];
            let after = log[idx];
            let num = time - before.timestamp_ms;
            let den = after.timestamp_ms - before.timestamp_ms;
            Some(
                (
                    lerp_spec(before.x as int, after.x as int, num, den),
                    lerp_spec(before.y as int, after.y as int, num, den),
                ),
            )
        }
    }
}

/// What the first index found says of the log: every sample before it is
/// earlier than `time`, and the sample at it, if any, is not.
pub proof fn lemma_first_at_or_after(log: Seq<CursorSample>, from: int, time: int)
    requires
        0 <= from <= log.len(),
    ensures
        from <= first_at_or_after(log, from, time) <= log.len(),
        forall|i: int|
            from <= i < first_at_or_after(log, from, time) ==> (#[trigger] log[i]).timestamp_ms
                < time,
        first_at_or_after(log, from, time) < log.len() ==> log[first_at_or_after(
            log,
            from,
            time,
        )].timestamp_ms >= time,
    decreases log.len() - from,
{
    if from < log.len() && log[from].timestamp_ms < time {
        lemma_first_at_or_after(log, from + 1, time);
    }
}

/// In a log in strictly increasing order of time, the cursor's position
/// at the time of a sample is that sample's position.
pub proof fn law_position_at_sample(log: Seq<CursorSample>, k: int)
    requires
        forall|i: int, j: int|
            0 <= i < j < log.len() ==> log[i].timestamp_ms < log[j].timestamp_ms,
        0 <= k < log.len(),
    ensures
        cursor_position(log, log[k].timestamp_ms as int) == Some(
            (log[k].x as int, log[k].y as int),
        ),
{
    let time = log[k].timestamp_ms as int;
    lemma_first_at_or_after(log, 0, time);
    let idx = first_at_or_after(log, 0, time);
    if idx < k {
        assert(log[idx].timestamp_ms < log[k].timestamp_ms);
    }
    if idx > k {
        assert(log[k].timestamp_ms < time);
    }
    assert(idx == k);
    if k > 0 {
        let den = log[k].timestamp_ms - log[k - 1].timestamp_ms;
        let dx = log[k].x - log[k - 1].x;
        let dy = log[k].y - log[k - 1].y;
        crate::fixed::lemma_floor_quotient(dx * den, den, dx);
        crate::fixed::lemma_floor_quotient(dy * den, den, dy);
    }
}

/// The index of the first sample that is not earlier than `time`.
pub fn find_at_or_after(log: &Vec<CursorSample>, time: u64) -> (idx: usize)
    ensures
        idx == first_at_or_after(log@, 0, time as int),
        idx <= log@.len(),
{
    let mut i: usize = 0;
    while i < log.len() && log[i].timestamp_ms < time
        invariant
            i <= log.len(),
            first_at_or_after(log@, 0, time as int) == first_at_or_after(
                log@,
                i as int,
                time as int,
            ),
        decreases log.len() - i,
    {
        i += 1;
    }
    i
}

/// The cursor's position at `time`, or nothing for an empty log.
pub fn cursor_at(log: &Vec<CursorSample>, time: u64) -> (at: Option<(i64, i64)>)
    ensures
        match at {
            Some(p) => cursor_position(log@, time as int) == Some((p.0 as int, p.1 as int)),
            None => cursor_position(log@, time as int).is_none(),
        },
        at.is_some() == (log@.len() > 0),
{
    let n: usize = log.len();
    if n == 0 {
        return None;
    }
    let idx: usize = find_at_or_after(log, time);
    if idx == 0 {
        return Some((log[0].x, log[0].y));
    }
    if idx >= n {
        return Some((log[n - 1].x, log[n - 1].y));
    }
    proof {
        lemma_first_at_or_after(log@, 0, time as int);
    }
    let before = log[idx - 1];
    let after = log[idx];
    let num: u64 = time - before.timestamp_ms;
    let den: u64 = after.timestamp_ms - before.timestamp_ms;
    Some((lerp(before.x, after.x, num, den), lerp(before.y, after.y, num, den)))
}

} // verus!
