//! Gestures out of raw pointer events: a triple click within time and
//! place becomes a click event unless one was accepted too recently, and
//! pointer moves become cursor samples no closer than a minimum interval.

use vstd::prelude::*;
use crate::coords::{normalize_spec, CaptureTarget};
use crate::cursor::CursorSample;
use crate::fixed::UNIT;

verus! {

/// The most time from the first to the third click of a triple, in
/// milliseconds.
pub const TRIPLE_WINDOW_MS: u64 = 800;

/// The most time from the second to the third click of a triple.
pub const LAST_GAP_MS: u64 = 400;

/// How far apart, in fixed-point frame coordinates, two clicks of a triple
/// may lie.
pub const CLICK_RADIUS: i64 = 50_000;

/// The time after an accepted gesture during which no other is accepted.
pub const COOLDOWN_MS: u64 = 3000;

/// The least time between two cursor samples.
pub const SAMPLE_INTERVAL_MS: u64 = 50;

/// A press of the left button: milliseconds since the recording began, and
/// the place in fixed-point frame coordinates.
#[derive(Clone, Copy, Debug, PartialEq, Eq, Structural)]
pub struct Click {
    pub timestamp_ms: u64,
    pub x: i64,
    pub y: i64,
}

/// The kinds of gesture that are logged.
#[derive(Clone, Copy, Debug, PartialEq, Eq, Structural)]
pub enum Gesture {
    TripleClick,
}

/// An accepted gesture: when and where its last click fell.
#[derive(Clone, Copy, Debug, PartialEq, Eq, Structural)]
pub struct ClickEvent {
    pub timestamp_ms: u64,
    pub x: i64,
    pub y: i64,
    pub gesture: Gesture,
}

/// Whether two clicks lie within `CLICK_RADIUS` of each other.
pub open spec fn near(a: Click, b: Click) -> bool {
    (a.x - b.x) * (a.x - b.x) + (a.y - b.y) * (a.y - b.y) <= CLICK_RADIUS * CLICK_RADIUS
}

/// Whether three clicks, in the order given, make a triple click: in
/// order of time, the last within `TRIPLE_WINDOW_MS` of the first and
/// within `LAST_GAP_MS` of the second, and each near each other.
pub open spec fn qualifies(first: Click, second: Click, third: Click) -> bool {
    &&& first.timestamp_ms <= second.timestamp_ms <= third.timestamp_ms
    &&& third.timestamp_ms - first.timestamp_ms <= TRIPLE_WINDOW_MS
    &&& third.timestamp_ms - second.timestamp_ms <= LAST_GAP_MS
    &&& near(first, second)
    &&& near(second, third)
    &&& near(first, third)
}

/// Whether the cooldown since the last accepted gesture is over at `now`.
pub open spec fn cooled(last_trigger: Option<u64>, now: u64) -> bool {
    match last_trigger {
        None => true,
        Some(last) => now > last && now - last > COOLDOWN_MS,
    }
}

/// Whether a cursor sample is due at `now`.
pub open spec fn sample_due(last_sample: Option<u64>, now: u64) -> bool {
    match last_sample {
        None => true,
        Some(last) => now >= last && now - last >= SAMPLE_INTERVAL_MS,
    }
}

/// What the detector knows.
pub struct DetectorState {
    /// Whether a recording is running.
    pub active: bool,
    /// The clicks, at most two, that a third could complete to a triple.
    pub history: Seq<Click>,
    /// When the last gesture was accepted.
    pub last_trigger: Option<u64>,
    /// When the last cursor sample was taken.
    pub last_sample: Option<u64>,
    /// The accepted gestures, in order.
    pub clicks: Seq<ClickEvent>,
    /// The cursor samples, in order.
    pub samples: Seq<CursorSample>,
}

/// The history with a click added and the oldest of three dropped.
pub open spec fn remembered(history: Seq<Click>, click: Click) -> Seq<Click> {
    if history.len() < 2 {
        history.push(click)
    } else {
        seq![history[history.len() - 1], click]
    }
}

/// The state after a click at a place of the frame. A click that
/// completes a triple after the cooldown is logged, restarts the cooldown
/// and clears the history; any other click is remembered.
pub open spec fn after_click(s: DetectorState, click: Click) -> DetectorState {
    if !s.active {
        s
    } else if s.history.len() == 2 && qualifies(s.history[0], s.history[1], click) && cooled(
        s.last_trigger,
        click.timestamp_ms,
    ) {
        DetectorState {
            history: Seq::<Click>::empty(),
            last_trigger: Some(click.timestamp_ms),
            clicks: s.clicks.push(
                ClickEvent {
                    timestamp_ms: click.timestamp_ms,
                    x: click.x,
                    y: click.y,
                    gesture: Gesture::TripleClick,
                },
            ),
            ..s
        }
    } else {
        DetectorState { history: remembered(s.history, click), ..s }
    }
}

/// The state after the pointer moved to a place of the frame: a sample is
/// logged if one is due.
pub open spec fn after_move(s: DetectorState, sample: CursorSample) -> DetectorState {
    if s.active && sample_due(s.last_sample, sample.timestamp_ms) {
        DetectorState {
            last_sample: Some(sample.timestamp_ms),
            samples: s.samples.push(sample),
            ..s
        }
    } else {
        s
    }
}

/// Whether the logs are in order: gestures more than the cooldown apart
/// and the last at the time of the last trigger, samples at least the
/// sampling interval apart and the last at the time of the last sample.
pub open spec fn ordered(s: DetectorState) -> bool {
    &&& forall|i: int, j: int|
        0 <= i < j < s.clicks.len() ==> s.clicks[i].timestamp_ms + COOLDOWN_MS
            < s.clicks[j].timestamp_ms
    &&& s.clicks.len() > 0 ==> s.last_trigger == Some(s.clicks.last().timestamp_ms)
    &&& s.clicks.len() == 0 ==> s.last_trigger.is_none()
    &&& forall|i: int, j: int|
        0 <= i < j < s.samples.len() ==> s.samples[i].timestamp_ms + SAMPLE_INTERVAL_MS
            <= s.samples[j].timestamp_ms
    &&& s.samples.len() > 0 ==> s.last_sample == Some(s.samples.last().timestamp_ms)
    &&& s.samples.len() == 0 ==> s.last_sample.is_none()
}

/// The logs stay in order of time whatever click or move comes next: two
/// gestures are always more than the cooldown apart, two samples always
/// at least the sampling interval.
pub proof fn law_logs_stay_ordered(s: DetectorState, click: Click, sample: CursorSample)
    requires
        ordered(s),
    ensures
        ordered(after_click(s, click)),
        ordered(after_move(s, sample)),
{
    let c = after_click(s, click);
    if c.clicks.len() > s.clicks.len() {
        assert forall|i: int, j: int| 0 <= i < j < c.clicks.len() implies c.clicks[i].timestamp_ms
            + COOLDOWN_MS < c.clicks[j].timestamp_ms by {
            if j == s.clicks.len() && s.clicks.len() > 0 {
                if i < s.clicks.len() - 1 {
                    assert(s.clicks[i].timestamp_ms + COOLDOWN_MS < s.clicks[s.clicks.len()
                        - 1].timestamp_ms);
                }
            }
        }
    }
    let m = after_move(s, sample);
    if m.samples.len() > s.samples.len() {
        assert forall|i: int, j: int| 0 <= i < j < m.samples.len() implies m.samples[i].timestamp_ms
            + SAMPLE_INTERVAL_MS <= m.samples[j].timestamp_ms by {
            if j == s.samples.len() && s.samples.len() > 0 {
                if i < s.samples.len() - 1 {
                    assert(s.samples[i].timestamp_ms + SAMPLE_INTERVAL_MS <= s.samples[
                        s.samples.len() - 1].timestamp_ms);
                }
            }
        }
    }
}

/// Within the cooldown after an accepted gesture no click is logged.
pub proof fn law_cooldown(s: DetectorState, click: Click)
    requires
        s.last_trigger.is_some(),
        click.timestamp_ms <= s.last_trigger.unwrap() + COOLDOWN_MS,
    ensures
        after_click(s, click).clicks == s.clicks,
        after_click(s, click).last_trigger == s.last_trigger,
{
}

/// An accepted gesture clears the history, so that the next one takes
/// three fresh clicks: the two clicks after it are never logged.
pub proof fn law_fresh_clicks(s: DetectorState, c1: Click, c2: Click, c3: Click)
    requires
        after_click(s, c1).clicks.len() == s.clicks.len() + 1,
    ensures
        after_click(after_click(s, c1), c2).clicks == after_click(s, c1).clicks,
        after_click(after_click(after_click(s, c1), c2), c3).clicks == after_click(s, c1).clicks,
{
    let s1 = after_click(s, c1);
    assert(s1.history.len() == 0);
    let s2 = after_click(s1, c2);
    assert(s2.history.len() == 1);
}

/// Cursor samples are at least `SAMPLE_INTERVAL_MS` apart: a move sooner
/// than that after a sample leaves the log as it is.
pub proof fn law_sampling_interval(s: DetectorState, sample: CursorSample)
    requires
        s.last_sample.is_some(),
        sample.timestamp_ms < s.last_sample.unwrap() + SAMPLE_INTERVAL_MS,
    ensures
        after_move(s, sample) == s,
{
}

/// The detector of one capture target.
pub struct GestureDetector {
    target: CaptureTarget,
    active: bool,
    history: Vec<Click>,
    last_trigger: Option<u64>,
    last_sample: Option<u64>,
    clicks: Vec<ClickEvent>,
    samples: Vec<CursorSample>,
}

impl View for GestureDetector {
    type V = DetectorState;

    closed spec fn view(&self) -> DetectorState {
        DetectorState {
            active: self.active,
            history: self.history@,
            last_trigger: self.last_trigger,
            last_sample: self.last_sample,
            clicks: self.clicks@,
            samples: self.samples@,
        }
    }
}

/// Whether a click lies in the frame.
pub open spec fn in_frame(c: Click) -> bool {
    0 <= c.x <= UNIT && 0 <= c.y <= UNIT
}

impl GestureDetector {
    /// The capture target.
    pub closed spec fn target(&self) -> CaptureTarget {
        self.target
    }

    /// Well-formedness: the target is well formed, the history holds at
    /// most two clicks, each in the frame, and the logs are in order.
    pub open spec fn wf(&self) -> bool {
        &&& self.target().wf()
        &&& self@.history.len() <= 2
        &&& forall|i: int| 0 <= i < self@.history.len() ==> in_frame(#[trigger] self@.history[i])
        &&& ordered(self@)
    }

    /// A detector for `target` with empty logs, not yet recording.
    pub fn new(target: CaptureTarget) -> (detector: GestureDetector)
        requires
            target.wf(),
        ensures
            detector.wf(),
            detector.target() == target,
            detector@ == (DetectorState {
                active: false,
                history: Seq::<Click>::empty(),
                last_trigger: None,
                last_sample: None,
                clicks: Seq::<ClickEvent>::empty(),
                samples: Seq::<CursorSample>::empty(),
            }),
    {
        GestureDetector {
            target,
            active: false,
            history: Vec::new(),
            last_trigger: None,
            last_sample: None,
            clicks: Vec::new(),
            samples: Vec::new(),
        }
    }

    /// Begins a recording: the logs and all memory of earlier clicks are
    /// cleared.
    pub fn begin(&mut self)
        requires
            old(self).wf(),
        ensures
            final(self).wf(),
            final(self).target() == old(self).target(),
            final(self)@ == (DetectorState {
                active: true,
                history: Seq::<Click>::empty(),
                last_trigger: None,
                last_sample: None,
                clicks: Seq::<ClickEvent>::empty(),
                samples: Seq::<CursorSample>::empty(),
            }),
    {
        self.active = true;
        self.history = Vec::new();
        self.last_trigger = None;
        self.last_sample = None;
        self.clicks = Vec::new();
        self.samples = Vec::new();
    }

    /// Ends the recording: the logs stay as they are and further events
    /// change nothing.
    pub fn end(&mut self)
        requires
            old(self).wf(),
        ensures
            final(self).wf(),
            final(self).target() == old(self).target(),
            final(self)@ == (DetectorState { active: false, ..old(self)@ }),
    {
        self.active = false;
    }

    /// The accepted gestures so far.
    pub fn clicks(&self) -> (log: &Vec<ClickEvent>)
        ensures
            log@ == self@.clicks,
    {
        &self.clicks
    }

    /// The cursor samples so far.
    pub fn samples(&self) -> (log: &Vec<CursorSample>)
        ensures
            log@ == self@.samples,
    {
        &self.samples
    }

    /// Takes a press of the left button at a raw place of the screen, and
    /// says whether it was logged as a gesture. A press outside the target
    /// changes nothing.
    pub fn on_press(&mut self, timestamp_ms: u64, raw_x: i32, raw_y: i32) -> (logged: bool)
        requires
            old(self).wf(),
        ensures
            final(self).wf(),
            final(self).target() == old(self).target(),
            final(self)@ == match normalize_spec(
                raw_x as int,
                raw_y as int,
                old(self).target().bounds_spec(),
            ) {
                Some(p) => after_click(
                    old(self)@,
                    Click { timestamp_ms, x: p.0 as i64, y: p.1 as i64 },
                ),
                None => old(self)@,
            },
            logged == (final(self)@.clicks.len() == old(self)@.clicks.len() + 1),
    {
        let click: Click = match self.target.normalize(raw_x, raw_y) {
            Some(p) => Click { timestamp_ms, x: p.0, y: p.1 },
            None => {
                return false;
            },
        };
        proof {
            law_logs_stay_ordered(self@, click, CursorSample { timestamp_ms, x: 0, y: 0 });
        }
        if !self.active {
            return false;
        }
        let n: usize = self.history.len();
        if n == 2 {
            let first: Click = self.history[0];
            let second: Click = self.history[1];
            if is_triple(first, second, click) && is_cooled(self.last_trigger, timestamp_ms) {
                self.history = Vec::new();
                self.last_trigger = Some(timestamp_ms);
                self.clicks.push(
                    ClickEvent {
                        timestamp_ms,
                        x: click.x,
                        y: click.y,
                        gesture: Gesture::TripleClick,
                    },
                );
                return true;
            }
            let mut kept: Vec<Click> = Vec::new();
            kept.push(second);
            kept.push(click);
            proof {
                assert(kept@ =~= remembered(self.history@, click));
            }
            self.history = kept;
            false
        } else {
            self.history.push(click);
            false
        }
    }

    /// Takes a move of the pointer to a raw place of the screen, and says
    /// whether a cursor sample was logged. A move outside the target
    /// changes nothing.
    pub fn on_move(&mut self, timestamp_ms: u64, raw_x: i32, raw_y: i32) -> (logged: bool)
        requires
            old(self).wf(),
        ensures
            final(self).wf(),
            final(self).target() == old(self).target(),
            final(self)@ == match normalize_spec(
                raw_x as int,
                raw_y as int,
                old(self).target().bounds_spec(),
            ) {
                Some(p) => after_move(
                    old(self)@,
                    CursorSample { timestamp_ms, x: p.0 as i64, y: p.1 as i64 },
                ),
                None => old(self)@,
            },
            logged == (final(self)@.samples.len() == old(self)@.samples.len() + 1),
    {
        let sample: CursorSample = match self.target.normalize(raw_x, raw_y) {
            Some(p) => CursorSample { timestamp_ms, x: p.0, y: p.1 },
            None => {
                return false;
            },
        };
        proof {
            law_logs_stay_ordered(self@, Click { timestamp_ms, x: 0, y: 0 }, sample);
        }
        let due: bool = match self.last_sample {
            None => true,
            Some(last) => timestamp_ms >= last && timestamp_ms - last >= SAMPLE_INTERVAL_MS,
        };
        if self.active && due {
            self.last_sample = Some(timestamp_ms);
            self.samples.push(sample);
            true
        } else {
            false
        }
    }
}

fn is_near(a: Click, b: Click) -> (r: bool)
    requires
        in_frame(a),
        in_frame(b),
    ensures
        r == near(a, b),
{
    let dx: i64 = a.x - b.x;
    let dy: i64 = a.y - b.y;
    proof {
        assert(0 <= dx * dx <= 1_000_000 * 1_000_000) by (nonlinear_arith)
            requires
                -1_000_000 <= dx <= 1_000_000,
        ;
        assert(0 <= dy * dy <= 1_000_000 * 1_000_000) by (nonlinear_arith)
            requires
                -1_000_000 <= dy <= 1_000_000,
        ;
    }
    dx * dx + dy * dy <= CLICK_RADIUS * CLICK_RADIUS
}

fn is_triple(first: Click, second: Click, third: Click) -> (r: bool)
    requires
        in_frame(first),
        in_frame(second),
        in_frame(third),
    ensures
        r == qualifies(first, second, third),
{
    first.timestamp_ms <= second.timestamp_ms && second.timestamp_ms <= third.timestamp_ms
        && third.timestamp_ms - first.timestamp_ms <= TRIPLE_WINDOW_MS && third.timestamp_ms
        - second.timestamp_ms <= LAST_GAP_MS && is_near(first, second) && is_near(second, third)
        && is_near(first, third)
}

fn is_cooled(last_trigger: Option<u64>, now: u64) -> (r: bool)
    ensures
        r == cooled(last_trigger, now),
{
    match last_trigger {
        None => true,
        Some(last) => now > last && now - last > COOLDOWN_MS,
    }
}

} // verus!
