//! Constant-rate output from frames that arrive at any rate: after each
//! arrival as many copies of the latest frame are due as bring the frames
//! sent up to the number that the elapsed time calls for. A frame counts
//! as sent once its write has been reported.

use vstd::prelude::*;
use crate::fixed::ceil_div;
use crate::frame::{packed_rows, rows_fit, FrameBuffer};

verus! {

/// The highest frame rate: a million frames a second, in millihertz.
pub const MAX_MILLIHERTZ: u32 = 1_000_000_000;

/// The frame rate used where none is given: thirty frames a second.
pub const DEFAULT_MILLIHERTZ: u32 = 30_000;

/// The number of frames due once `elapsed` microseconds have passed at a
/// rate of `millihertz` frames per thousand seconds: the elapsed time
/// times the rate, rounded up, and the first frame in any case.
pub open spec fn frames_due(elapsed: int, millihertz: int) -> int {
    let whole = ceil_div(elapsed * millihertz, 1_000_000_000);
    if whole < 1 {
        1
    } else {
        whole
    }
}

/// The number of frames due never falls as time passes.
pub proof fn lemma_frames_due_monotone(e1: int, e2: int, millihertz: int)
    requires
        0 <= e1 <= e2,
        0 <= millihertz,
    ensures
        frames_due(e1, millihertz) <= frames_due(e2, millihertz),
{
    assert(e1 * millihertz <= e2 * millihertz) by (nonlinear_arith)
        requires
            e1 <= e2,
            0 <= millihertz,
    ;
    crate::fixed::lemma_quotient_monotone(
        e1 * millihertz + 1_000_000_000 - 1,
        e2 * millihertz + 1_000_000_000 - 1,
        1_000_000_000,
    );
}

/// Once any time has passed, the frames due are the elapsed time times the
/// rate, rounded up.
pub proof fn law_frames_due_is_ceiling(elapsed: int, millihertz: int)
    requires
        elapsed > 0,
        millihertz > 0,
    ensures
        frames_due(elapsed, millihertz) == ceil_div(elapsed * millihertz, 1_000_000_000),
        (frames_due(elapsed, millihertz) - 1) * 1_000_000_000 < elapsed * millihertz
            <= frames_due(elapsed, millihertz) * 1_000_000_000,
{
    let product = elapsed * millihertz;
    assert(product >= 1) by (nonlinear_arith)
        requires
            elapsed >= 1,
            millihertz >= 1,
            product == elapsed * millihertz,
    ;
    let n = product + 1_000_000_000 - 1;
    crate::fixed::lemma_quotient_bounds(n, 1_000_000_000);
}

/// The frames due after `elapsed` microseconds at `millihertz`.
pub fn due_after(elapsed: u64, millihertz: u32) -> (due: u64)
    requires
        1 <= millihertz <= MAX_MILLIHERTZ,
    ensures
        due == frames_due(elapsed as int, millihertz as int),
        due >= 1,
{
    proof {
        assert(0 <= elapsed * millihertz <= elapsed * 1_000_000_000) by (nonlinear_arith)
            requires
                0 <= elapsed,
                0 <= millihertz <= 1_000_000_000,
        ;
    }
    let product: u128 = (elapsed as u128) * (millihertz as u128);
    let whole: u128 = (product + 999_999_999) / 1_000_000_000;
    if whole < 1 {
        1
    } else {
        whole as u64
    }
}

/// The clock of one recording: when it began, how much time the latest
/// frame showed to have passed, and how many frames have been sent, that
/// is, written to the sink and reported as such.
pub struct PacingClock {
    millihertz: u32,
    start: Option<u64>,
    elapsed: u64,
    frames_written: u64,
}

impl PacingClock {
    /// The rate in millihertz.
    pub closed spec fn rate(&self) -> int {
        self.millihertz as int
    }

    /// Whether the first frame has arrived.
    pub closed spec fn started(&self) -> bool {
        self.start.is_some()
    }

    /// When the first frame arrived, in microseconds of the caller's clock.
    pub closed spec fn start_spec(&self) -> int {
        self.start.unwrap() as int
    }

    /// The most time that any frame so far showed to have passed, in
    /// microseconds.
    pub closed spec fn elapsed_spec(&self) -> int {
        self.elapsed as int
    }

    /// How many frames have been sent.
    pub closed spec fn written_spec(&self) -> int {
        self.frames_written as int
    }

    /// How many frames are due: none before the first frame, and since
    /// then as many as the time that has passed calls for.
    pub open spec fn due_spec(&self) -> int {
        if self.started() {
            frames_due(self.elapsed_spec(), self.rate())
        } else {
            0
        }
    }

    /// How many frames are due and not yet sent.
    pub open spec fn pending_spec(&self) -> int {
        self.due_spec() - self.written_spec()
    }

    /// Well-formedness: the rate is in range, nothing has passed before
    /// the first frame, and no more frames are sent than are due.
    pub open spec fn wf(&self) -> bool {
        &&& 1 <= self.rate() <= MAX_MILLIHERTZ
        &&& !self.started() ==> self.elapsed_spec() == 0
        &&& 0 <= self.written_spec() <= self.due_spec()
    }

    /// A clock that has not started, at `millihertz` frames per thousand
    /// seconds; a rate out of range is replaced by the default.
    pub fn new(millihertz: u32) -> (clock: PacingClock)
        ensures
            clock.wf(),
            !clock.started(),
            clock.written_spec() == 0,
            clock.rate() == if 1 <= millihertz <= MAX_MILLIHERTZ {
                millihertz
            } else {
                DEFAULT_MILLIHERTZ
            },
    {
        let rate: u32 = if 1 <= millihertz && millihertz <= MAX_MILLIHERTZ {
            millihertz
        } else {
            DEFAULT_MILLIHERTZ
        };
        PacingClock { millihertz: rate, start: None, elapsed: 0, frames_written: 0 }
    }

    /// How many frames have been sent.
    pub fn frames_written(&self) -> (n: u64)
        ensures
            n == self.written_spec(),
    {
        self.frames_written
    }

    /// When the first frame arrived, if it has.
    pub fn start(&self) -> (at: Option<u64>)
        ensures
            at.is_some() == self.started(),
            at.is_some() ==> at.unwrap() == self.start_spec(),
    {
        self.start
    }

    /// The time that `now` shows to have passed: nothing before the clock
    /// has started or where `now` lies before its start.
    pub open spec fn shown(&self, now: int) -> int {
        if self.started() && now > self.start_spec() {
            now - self.start_spec()
        } else {
            0
        }
    }

    /// Takes note of a frame that arrived at `now` and says how many
    /// copies of the latest frame are to be sent: as many as are due and
    /// not yet sent. The first frame starts the clock and is due at once.
    /// Nothing counts as sent until `record_written` is told so.
    pub fn advance(&mut self, now: u64) -> (copies: u64)
        requires
            old(self).wf(),
        ensures
            final(self).wf(),
            final(self).started(),
            final(self).rate() == old(self).rate(),
            final(self).start_spec() == if old(self).started() {
                old(self).start_spec()
            } else {
                now as int
            },
            final(self).elapsed_spec() == if old(self).shown(now as int) > old(
                self,
            ).elapsed_spec() {
                old(self).shown(now as int)
            } else {
                old(self).elapsed_spec()
            },
            final(self).written_spec() == old(self).written_spec(),
            copies == final(self).pending_spec(),
    {
        let shown: u64 = match self.start {
            Some(start) => if now > start {
                now - start
            } else {
                0
            },
            None => {
                self.start = Some(now);
                0
            },
        };
        if shown > self.elapsed {
            proof {
                lemma_frames_due_monotone(
                    self.elapsed as int,
                    shown as int,
                    self.millihertz as int,
                );
            }
            self.elapsed = shown;
        }
        let due: u64 = due_after(self.elapsed, self.millihertz);
        due - self.frames_written
    }

    /// How many frames are due and not yet sent.
    pub fn pending(&self) -> (n: u64)
        requires
            self.wf(),
        ensures
            n == self.pending_spec(),
    {
        match self.start {
            Some(_) => due_after(self.elapsed, self.millihertz) - self.frames_written,
            None => 0,
        }
    }

    /// Counts `n` frames as sent, and says whether it did: it does not
    /// where `n` is more than the frames that are due and not yet sent,
    /// and then nothing changes.
    pub fn record_written(&mut self, n: u64) -> (counted: bool)
        requires
            old(self).wf(),
        ensures
            final(self).wf(),
            counted == (n <= old(self).pending_spec()),
            final(self).written_spec() == if counted {
                old(self).written_spec() + n
            } else {
                old(self).written_spec()
            },
            final(self).rate() == old(self).rate(),
            final(self).started() == old(self).started(),
            final(self).started() ==> final(self).start_spec() == old(self).start_spec(),
            final(self).elapsed_spec() == old(self).elapsed_spec(),
    {
        let due: u64 = match self.start {
            Some(_) => due_after(self.elapsed, self.millihertz),
            None => 0,
        };
        if n <= due - self.frames_written {
            self.frames_written = self.frames_written + n;
            true
        } else {
            false
        }
    }
}

/// Frames sent never decrease, and once the copies that a frame called
/// for are sent, a frame that arrived later than every frame before it
/// leaves the frames sent at the elapsed time times the rate, rounded up.
pub proof fn law_pacing(before: PacingClock, after: PacingClock, now: int)
    requires
        before.wf(),
        before.started(),
        after.rate() == before.rate(),
        after.elapsed_spec() == if before.shown(now) > before.elapsed_spec() {
            before.shown(now)
        } else {
            before.elapsed_spec()
        },
        after.written_spec() == frames_due(after.elapsed_spec(), after.rate()),
    ensures
        after.written_spec() >= before.written_spec(),
        now - before.start_spec() >= before.elapsed_spec() && now > before.start_spec()
            ==> after.written_spec() == ceil_div(
            (now - before.start_spec()) * before.rate(),
            1_000_000_000,
        ),
{
    lemma_frames_due_monotone(before.elapsed_spec(), after.elapsed_spec(), before.rate());
    if now - before.start_spec() >= before.elapsed_spec() && now > before.start_spec() {
        law_frames_due_is_ceiling(now - before.start_spec(), before.rate());
    }
}

/// The most time that any of the first `n` arrivals showed to have passed
/// since the first of them.
pub open spec fn elapsed_after(arrivals: Seq<u64>, n: int) -> int
    decreases n,
{
    if n <= 1 {
        0
    } else {
        let before = elapsed_after(arrivals, n - 1);
        let shown = arrivals[n - 1] - arrivals[0];
        if shown > before {
            shown
        } else {
            before
        }
    }
}

/// How many frames have been sent after the first `n` arrivals.
pub open spec fn written_after(arrivals: Seq<u64>, millihertz: int, n: int) -> int {
    if n <= 0 {
        0
    } else {
        frames_due(elapsed_after(arrivals, n), millihertz)
    }
}

/// Whatever the arrival times, the frames sent never decrease from one
/// arrival to the next; and where no arrival is earlier than the one
/// before it, the frames sent after each are the frames due at its time:
/// the time since the first arrival times the rate, rounded up, once any
/// time has passed.
pub proof fn law_pacing_over_arrivals(arrivals: Seq<u64>, millihertz: int, n: int)
    requires
        0 < millihertz,
        0 < n <= arrivals.len(),
    ensures
        written_after(arrivals, millihertz, n - 1) <= written_after(arrivals, millihertz, n),
        0 <= elapsed_after(arrivals, n),
        (forall|i: int, j: int| 0 <= i <= j < n ==> arrivals[i] <= arrivals[j]) ==> {
            &&& elapsed_after(arrivals, n) == arrivals[n - 1] - arrivals[0]
            &&& written_after(arrivals, millihertz, n) == frames_due(
                arrivals[n - 1] - arrivals[0],
                millihertz,
            )
            &&& arrivals[n - 1] > arrivals[0] ==> written_after(arrivals, millihertz, n)
                == ceil_div((arrivals[n - 1] - arrivals[0]) * millihertz, 1_000_000_000)
        },
    decreases n,
{
    if n > 1 {
        law_pacing_over_arrivals(arrivals, millihertz, n - 1);
        lemma_frames_due_monotone(
            elapsed_after(arrivals, n - 1),
            elapsed_after(arrivals, n),
            millihertz,
        );
        if forall|i: int, j: int| 0 <= i <= j < n ==> arrivals[i] <= arrivals[j] {
            assert(arrivals[0] <= arrivals[n - 2] <= arrivals[n - 1]);
            if arrivals[n - 1] > arrivals[0] {
                law_frames_due_is_ceiling(arrivals[n - 1] - arrivals[0], millihertz);
            }
        }
    }
}

/// How many frames a clock at `millihertz` sends for a run of arrivals
/// when every copy that is due is sent.
pub fn frames_for(arrivals: &Vec<u64>, millihertz: u32) -> (written: u64)
    requires
        1 <= millihertz <= MAX_MILLIHERTZ,
    ensures
        written == written_after(arrivals@, millihertz as int, arrivals@.len() as int),
{
    let mut clock = PacingClock::new(millihertz);
    let mut i: usize = 0;
    while i < arrivals.len()
        invariant
            i <= arrivals.len(),
            clock.wf(),
            clock.rate() == millihertz,
            clock.started() == (i > 0),
            i > 0 ==> clock.start_spec() == arrivals@[0],
            clock.elapsed_spec() == elapsed_after(arrivals@, i as int),
            clock.written_spec() == written_after(arrivals@, millihertz as int, i as int),
        decreases arrivals.len() - i,
    {
        let copies: u64 = clock.advance(arrivals[i]);
        clock.record_written(copies);
        i += 1;
    }
    clock.frames_written()
}

/// The time of an event in milliseconds since the recording began, or
/// nothing for an event before that.
pub open spec fn session_ms(start: int, now: int) -> Option<int> {
    if now >= start {
        Some((now - start) / 1000)
    } else {
        None
    }
}

/// The time of an event at `now` in milliseconds since the recording
/// began at `start`, both in microseconds of one clock.
pub fn session_millis(start: u64, now: u64) -> (ms: Option<u64>)
    ensures
        match ms {
            Some(t) => session_ms(start as int, now as int) == Some(t as int),
            None => session_ms(start as int, now as int).is_none(),
        },
{
    if now >= start {
        Some((now - start) / 1000)
    } else {
        None
    }
}

/// What the pacer asks of its caller after a captured frame.
#[derive(Clone, Copy, Debug, PartialEq, Eq, Structural)]
pub struct Emission {
    /// How many copies of the buffer are to be sent.
    pub copies: u64,
    /// Whether the buffer took the captured frame; a frame that does not
    /// hold the buffer's rows leaves the buffer as it was.
    pub refreshed: bool,
}

/// The pacer of one recording: the tight buffer with the latest frame and
/// the clock that says how often to send it.
pub struct CapturePacer {
    buffer: FrameBuffer,
    clock: PacingClock,
    stopped: bool,
}

impl CapturePacer {
    /// The latest frame.
    pub closed spec fn frame(&self) -> Seq<u8> {
        self.buffer@
    }

    /// The clock.
    pub closed spec fn clock(&self) -> PacingClock {
        self.clock
    }

    /// The width of the output in pixels.
    pub closed spec fn width_spec(&self) -> int {
        self.buffer.width_spec()
    }

    /// The height of the output in pixels.
    pub closed spec fn height_spec(&self) -> int {
        self.buffer.height_spec()
    }

    /// Whether the session has been stopped.
    pub closed spec fn stopped(&self) -> bool {
        self.stopped
    }

    /// Well-formedness: the frame holds four bytes for each pixel, and the
    /// clock is well formed.
    pub open spec fn wf(&self) -> bool {
        &&& self.frame().len() == self.width_spec() * self.height_spec() * 4
        &&& self.clock().wf()
    }

    /// A pacer for a target of `width` by `height` pixels, each made even,
    /// at `millihertz` or, where that is out of range, at the default
    /// rate; its frame is black and its clock has not started. Nothing
    /// where the frame does not fit the machine.
    pub fn new(width: u32, height: u32, millihertz: u32) -> (made: Option<CapturePacer>)
        ensures
            made.is_some() == (crate::frame::even_floor(width as int) * crate::frame::even_floor(
                height as int,
            ) * 4 <= usize::MAX),
            match made {
                Some(pacer) => {
                    &&& pacer.wf()
                    &&& !pacer.stopped()
                    &&& pacer.width_spec() == crate::frame::even_floor(width as int)
                    &&& pacer.height_spec() == crate::frame::even_floor(height as int)
                    &&& forall|i: int| 0 <= i < pacer.frame().len() ==> pacer.frame()[i] == 0
                    &&& !pacer.clock().started()
                    &&& pacer.clock().written_spec() == 0
                    &&& pacer.clock().rate() == if 1 <= millihertz <= MAX_MILLIHERTZ {
                        millihertz
                    } else {
                        DEFAULT_MILLIHERTZ
                    }
                },
                None => true,
            },
    {
        let even_width: u32 = crate::frame::even_dimension(width);
        let even_height: u32 = crate::frame::even_dimension(height);
        match FrameBuffer::new(even_width, even_height) {
            Some(buffer) => Some(
                CapturePacer { buffer, clock: PacingClock::new(millihertz), stopped: false },
            ),
            None => None,
        }
    }

    /// The width of the output in pixels.
    pub fn width(&self) -> (w: u32)
        ensures
            w == self.width_spec(),
    {
        self.buffer.width()
    }

    /// The height of the output in pixels.
    pub fn height(&self) -> (h: u32)
        ensures
            h == self.height_spec(),
    {
        self.buffer.height()
    }

    /// The bytes of the latest frame.
    pub fn bytes(&self) -> (b: &[u8])
        ensures
            b@ == self.frame(),
    {
        self.buffer.bytes()
    }

    /// How many frames have been sent.
    pub fn frames_written(&self) -> (n: u64)
        ensures
            n == self.clock().written_spec(),
    {
        self.clock.frames_written()
    }

    /// When the recording began: the arrival of the first frame.
    pub fn recording_start(&self) -> (at: Option<u64>)
        ensures
            at.is_some() == self.clock().started(),
            at.is_some() ==> at.unwrap() == self.clock().start_spec(),
    {
        self.clock.start()
    }

    /// Whether the session has been stopped.
    pub fn is_stopped(&self) -> (s: bool)
        ensures
            s == self.stopped(),
    {
        self.stopped
    }

    /// Stops the session, as after a failed write: from then on nothing is
    /// taken in and nothing is due. What was counted as sent stays so.
    pub fn stop(&mut self)
        requires
            old(self).wf(),
        ensures
            final(self).wf(),
            final(self).stopped(),
            final(self).frame() == old(self).frame(),
            final(self).clock() == old(self).clock(),
            final(self).width_spec() == old(self).width_spec(),
            final(self).height_spec() == old(self).height_spec(),
    {
        self.stopped = true;
    }

    /// Takes in a frame captured at `now`: the buffer takes the frame's
    /// rows without their padding, if the source holds them, and the clock
    /// says how many copies of the buffer are to be sent. No copy counts
    /// as sent until `record_written` is told so. A stopped pacer takes
    /// nothing and asks for nothing.
    pub fn capture(&mut self, src: &[u8], pitch: usize, now: u64) -> (emission: Emission)
        requires
            old(self).wf(),
        ensures
            final(self).wf(),
            final(self).stopped() == old(self).stopped(),
            final(self).width_spec() == old(self).width_spec(),
            final(self).height_spec() == old(self).height_spec(),
            final(self).clock().written_spec() == old(self).clock().written_spec(),
            old(self).stopped() ==> emission == (Emission { copies: 0, refreshed: false })
                && final(self).frame() == old(self).frame() && final(self).clock() == old(
                self,
            ).clock(),
            !old(self).stopped() ==> {
                &&& emission.refreshed == rows_fit(
                    src@.len() as int,
                    pitch as int,
                    old(self).width_spec() * 4,
                    old(self).height_spec(),
                )
                &&& final(self).frame() == if emission.refreshed {
                    packed_rows(
                        src@,
                        pitch as int,
                        old(self).width_spec() * 4,
                        old(self).height_spec(),
                    )
                } else {
                    old(self).frame()
                }
                &&& final(self).clock().started()
                &&& final(self).clock().rate() == old(self).clock().rate()
                &&& final(self).clock().start_spec() == if old(self).clock().started() {
                    old(self).clock().start_spec()
                } else {
                    now as int
                }
                &&& final(self).clock().elapsed_spec() == if old(self).clock().shown(now as int)
                    > old(self).clock().elapsed_spec() {
                    old(self).clock().shown(now as int)
                } else {
                    old(self).clock().elapsed_spec()
                }
                &&& emission.copies == final(self).clock().pending_spec()
            },
    {
        if self.stopped {
            return Emission { copies: 0, refreshed: false };
        }
        let refreshed: bool = self.buffer.load(src, pitch).is_ok();
        let copies: u64 = self.clock.advance(now);
        Emission { copies, refreshed }
    }

    /// Counts `n` copies as sent, and says whether it did: it does not
    /// where `n` is more than the copies that are due and not yet sent,
    /// and then nothing changes.
    pub fn record_written(&mut self, n: u64) -> (counted: bool)
        requires
            old(self).wf(),
        ensures
            final(self).wf(),
            counted == (n <= old(self).clock().pending_spec()),
            final(self).clock().written_spec() == if counted {
                old(self).clock().written_spec() + n
            } else {
                old(self).clock().written_spec()
            },
            final(self).clock().rate() == old(self).clock().rate(),
            final(self).clock().started() == old(self).clock().started(),
            final(self).clock().started() ==> final(self).clock().start_spec() == old(
                self,
            ).clock().start_spec(),
            final(self).clock().elapsed_spec() == old(self).clock().elapsed_spec(),
            final(self).frame() == old(self).frame(),
            final(self).stopped() == old(self).stopped(),
            final(self).width_spec() == old(self).width_spec(),
            final(self).height_spec() == old(self).height_spec(),
    {
        self.clock.record_written(n)
    }
}

} // verus!
