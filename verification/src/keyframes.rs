//! Keyframe tables: a function of time given by `(time, value)` samples,
//! linear between neighbours and constant before the first and after the
//! last, together with its evaluator and its text for the filter engine.

use vstd::prelude::*;
use crate::fixed::{lerp, lerp_spec};
use crate::text::{places_text, push_difference, push_places};

verus! {

/// One sample: at time `t` (microseconds) the function has value `v`
/// (fixed-point).
#[derive(Clone, Copy, Debug, PartialEq, Eq, Structural)]
pub struct Keyframe {
    pub t: i64,
    pub v: i64,
}

/// Times strictly increase along the sequence.
pub open spec fn increasing(s: Seq<Keyframe>) -> bool {
    forall|i: int, j: int| 0 <= i < j < s.len() ==> s[i].t < s[j].t
}

/// The value on the segment from `a` to `b` at time `t`.
pub open spec fn segment_value(a: Keyframe, b: Keyframe, t: int) -> int {
    lerp_spec(a.v as int, b.v as int, t - a.t, b.t - a.t)
}

/// The value at `t`, looking at the segments from index `i` on; `t` is not
/// before keyframe `i`.
pub open spec fn interpolate_from(s: Seq<Keyframe>, i: int, t: int) -> int
    decreases s.len() - i,
{
    if i < 0 || i >= s.len() {
        0
    } else if i + 1 == s.len() {
        s[i].v as int
    } else if t < s[i + 1].t {
        segment_value(s[i], s[i + 1], t)
    } else {
        interpolate_from(s, i + 1, t)
    }
}

/// The function that the table stands for: zero for an empty table, the
/// first value before the first keyframe, the last value from the last
/// keyframe on, and linear in between.
pub open spec fn interpolate(s: Seq<Keyframe>, t: int) -> int {
    if s.len() == 0 {
        0
    } else if t < s[0].t {
        s[0].v as int
    } else {
        interpolate_from(s, 0, t)
    }
}

/// The sequence that `KeyframeTable::push` builds from `samples` taken in
/// order: each sample is kept if its time is later than the last one kept.
pub open spec fn ascending(samples: Seq<Keyframe>) -> Seq<Keyframe>
    decreases samples.len(),
{
    if samples.len() == 0 {
        Seq::<Keyframe>::empty()
    } else {
        let head = ascending(samples.drop_last());
        if head.len() == 0 || head.last().t < samples.last().t {
            head.push(samples.last())
        } else {
            head
        }
    }
}

/// The text of a value: two fractional digits.
pub open spec fn value_text(v: int) -> Seq<char> {
    places_text(v, 2)
}

/// The text of a time, and of the difference of two values or of two
/// times: four fractional digits.
pub open spec fn time_text(t: int) -> Seq<char> {
    places_text(t, 4)
}

/// The text of one segment: its start value plus the rise scaled by the
/// fraction of the segment that has passed.
#[verifier::opaque]
pub open spec fn segment_text(a: Keyframe, b: Keyframe) -> Seq<char> {
    value_text(a.v as int) + "+"@ + time_text(b.v - a.v) + "*min(1,max(0,(t-"@ + time_text(
        a.t as int,
    ) + ")/"@ + time_text(b.t - a.t) + "))"@
}

/// The opening of the conditional for the segment from `a` to `b`: taken
/// while `t` is before the segment's end.
#[verifier::opaque]
pub open spec fn head_text(a: Keyframe, b: Keyframe) -> Seq<char> {
    "if(lt(t,"@ + time_text(b.t as int) + "),"@ + segment_text(a, b) + ","@
}

/// The opening of the conditional for segment `i` of `s`.
pub open spec fn segment_head(s: Seq<Keyframe>, i: int) -> Seq<char> {
    head_text(s[i], s[i + 1])
}

/// The heads of the first `n` segments, in order.
pub open spec fn heads_text(s: Seq<Keyframe>, n: nat) -> Seq<char>
    decreases n,
{
    if n == 0 {
        Seq::<char>::empty()
    } else {
        heads_text(s, (n - 1) as nat) + segment_head(s, n - 1)
    }
}

/// `n` closing brackets.
pub open spec fn closers_text(n: nat) -> Seq<char>
    decreases n,
{
    if n == 0 {
        Seq::<char>::empty()
    } else {
        closers_text((n - 1) as nat) + ")"@
    }
}

/// The table as one nested conditional over `t`: `0` for an empty table,
/// the bare value for a single keyframe, else the first value before the
/// first keyframe, each segment in turn, and the last value after them.
pub open spec fn interpolation_text(s: Seq<Keyframe>) -> Seq<char> {
    if s.len() == 0 {
        "0"@
    } else if s.len() == 1 {
        value_text(s[0].v as int)
    } else {
        "if(lt(t,"@ + time_text(s[0].t as int) + "),"@ + value_text(s[0].v as int) + ","@
            + heads_text(s, (s.len() - 1) as nat) + value_text(s.last().v as int) + closers_text(
            s.len() as nat,
        )
    }
}

/// At a keyframe's own time the function has that keyframe's value.
pub proof fn law_value_at_keyframe(s: Seq<Keyframe>, k: int)
    requires
        increasing(s),
        0 <= k < s.len(),
    ensures
        interpolate(s, s[k].t as int) == s[k].v,
{
    lemma_from_reaches(s, 0, k, s[k].t as int);
    lemma_from_at_start(s, k);
}

/// Before the first keyframe the function is the first value, and from the
/// last keyframe on it is the last value.
pub proof fn law_constant_outside(s: Seq<Keyframe>, t: int)
    requires
        increasing(s),
        s.len() > 0,
    ensures
        t <= s[0].t ==> interpolate(s, t) == s[0].v,
        t >= s.last().t ==> interpolate(s, t) == s.last().v,
{
    if t == s[0].t {
        law_value_at_keyframe(s, 0);
    }
    if t >= s.last().t {
        lemma_from_reaches(s, 0, s.len() - 1, t);
    }
}

/// Where every keyframe's value lies in `[lo, hi]`, so does the function at
/// every time.
pub proof fn law_values_stay_within(s: Seq<Keyframe>, lo: int, hi: int, t: int)
    requires
        increasing(s),
        s.len() > 0,
        forall|i: int| 0 <= i < s.len() ==> lo <= #[trigger] s[i].v <= hi,
    ensures
        lo <= interpolate(s, t) <= hi,
{
    if t >= s[0].t {
        lemma_from_within(s, 0, lo, hi, t);
    }
}

proof fn lemma_from_at_start(s: Seq<Keyframe>, k: int)
    requires
        increasing(s),
        0 <= k < s.len(),
    ensures
        interpolate_from(s, k, s[k].t as int) == s[k].v,
{
    if k + 1 < s.len() {
        let den = s[k + 1].t - s[k].t;
        assert(((s[k + 1].v - s[k].v) * 0) / den == 0) by (nonlinear_arith)
            requires
                den > 0,
        ;
    }
}

proof fn lemma_from_reaches(s: Seq<Keyframe>, i: int, k: int, t: int)
    requires
        increasing(s),
        0 <= i <= k < s.len(),
        t >= s[k].t,
    ensures
        interpolate_from(s, i, t) == interpolate_from(s, k, t),
    decreases k - i,
{
    if i < k {
        lemma_from_reaches(s, i + 1, k, t);
    }
}

proof fn lemma_segment_within(a: Keyframe, b: Keyframe, lo: int, hi: int, t: int)
    requires
        a.t <= t < b.t,
        lo <= a.v <= hi,
        lo <= b.v <= hi,
    ensures
        lo <= segment_value(a, b, t) <= hi,
{
    let num = t - a.t;
    let den = b.t - a.t;
    let dv = b.v - a.v;
    if dv >= 0 {
        assert(0 <= dv * num <= dv * den) by (nonlinear_arith)
            requires
                0 <= num <= den,
                dv >= 0,
        ;
        crate::fixed::lemma_quotient_bounds(dv * num, den);
        crate::fixed::lemma_quotient_monotone(dv * num, dv * den, den);
        crate::fixed::lemma_floor_quotient(dv * den, den, dv);
    } else {
        assert(dv * den <= dv * num <= 0) by (nonlinear_arith)
            requires
                0 <= num <= den,
                dv < 0,
        ;
        crate::fixed::lemma_quotient_monotone(dv * den, dv * num, den);
        crate::fixed::lemma_quotient_monotone(dv * num, 0, den);
        crate::fixed::lemma_floor_quotient(dv * den, den, dv);
        crate::fixed::lemma_floor_quotient(0, den, 0);
    }
}

proof fn lemma_from_within(s: Seq<Keyframe>, i: int, lo: int, hi: int, t: int)
    requires
        increasing(s),
        0 <= i < s.len(),
        t >= s[i].t,
        forall|j: int| 0 <= j < s.len() ==> lo <= #[trigger] s[j].v <= hi,
    ensures
        lo <= interpolate_from(s, i, t) <= hi,
    decreases s.len() - i,
{
    if i + 1 == s.len() {
    } else if t < s[i + 1].t {
        lemma_segment_within(s[i], s[i + 1], lo, hi, t);
    } else {
        lemma_from_within(s, i + 1, lo, hi, t);
    }
}

/// What `ascending` keeps is in strictly increasing order of time, and no
/// longer than what it was given.
pub proof fn lemma_ascending(samples: Seq<Keyframe>)
    ensures
        increasing(ascending(samples)),
        ascending(samples).len() <= samples.len(),
        forall|i: int|
            0 <= i < ascending(samples).len() ==> samples.contains(
                #[trigger] ascending(samples)[i],
            ),
        samples.len() > 0 ==> ascending(samples).len() > 0 && ascending(samples)[0]
            == samples[0],
    decreases samples.len(),
{
    if samples.len() > 0 {
        let front = samples.drop_last();
        lemma_ascending(front);
        let head = ascending(front);
        assert forall|i: int| 0 <= i < ascending(samples).len() implies samples.contains(
            #[trigger] ascending(samples)[i],
        ) by {
            if i < head.len() {
                assert(front.contains(head[i]));
                let j = choose|j: int| 0 <= j < front.len() && front[j] == head[i];
                assert(samples[j] == head[i]);
            } else {
                assert(samples[samples.len() - 1] == ascending(samples)[i]);
            }
        }
        if front.len() > 0 {
            assert(front[0] == samples[0]);
        }
    }
}

/// A table of keyframes in strictly increasing order of time.
pub struct KeyframeTable {
    frames: Vec<Keyframe>,
}

impl View for KeyframeTable {
    type V = Seq<Keyframe>;

    closed spec fn view(&self) -> Seq<Keyframe> {
        self.frames@
    }
}

impl KeyframeTable {
    /// Well-formedness: the keyframes are in strictly increasing order of
    /// time. Every constructor establishes it and every method keeps it.
    pub open spec fn wf(&self) -> bool {
        increasing(self@)
    }

    /// An empty table.
    pub fn new() -> (table: KeyframeTable)
        ensures
            table@ == Seq::<Keyframe>::empty(),
            table.wf(),
    {
        KeyframeTable { frames: Vec::new() }
    }

    /// The number of keyframes.
    pub fn len(&self) -> (n: usize)
        ensures
            n == self@.len(),
    {
        self.frames.len()
    }

    /// The keyframe at index `i`, if there is one.
    pub fn get(&self, i: usize) -> (k: Option<Keyframe>)
        ensures
            k == if i < self@.len() {
                Some(self@[i as int])
            } else {
                None
            },
    {
        if i < self.frames.len() {
            Some(self.frames[i])
        } else {
            None
        }
    }

    /// Appends `k` if its time is later than the last keyframe's, and says
    /// whether it did.
    pub fn push(&mut self, k: Keyframe) -> (kept: bool)
        requires
            old(self).wf(),
        ensures
            kept == (old(self)@.len() == 0 || old(self)@.last().t < k.t),
            final(self)@ == if kept {
                old(self)@.push(k)
            } else {
                old(self)@
            },
            final(self).wf(),
    {
        let n = self.frames.len();
        if n == 0 || self.frames[n - 1].t < k.t {
            self.frames.push(k);
            true
        } else {
            false
        }
    }

    /// The table of the samples that are later than all kept before them.
    pub fn from_samples(samples: &Vec<Keyframe>) -> (table: KeyframeTable)
        ensures
            table@ == ascending(samples@),
            table.wf(),
    {
        let mut table = KeyframeTable::new();
        let mut i: usize = 0;
        while i < samples.len()
            invariant
                i <= samples.len(),
                table.wf(),
                table@ == ascending(samples@.take(i as int)),
            decreases samples.len() - i,
        {
            proof {
                assert(samples@.take(i as int + 1).drop_last() =~= samples@.take(i as int));
            }
            table.push(samples[i]);
            i += 1;
        }
        proof {
            assert(samples@.take(i as int) =~= samples@);
            lemma_ascending(samples@);
        }
        table
    }

    /// The value of the table's function at time `t`.
    pub fn value_at(&self, t: i64) -> (v: i64)
        requires
            self.wf(),
        ensures
            v == interpolate(self@, t as int),
    {
        let n = self.frames.len();
        if n == 0 {
            return 0;
        }
        if t < self.frames[0].t {
            return self.frames[0].v;
        }
        let mut i: usize = 0;
        while i + 1 < n && t >= self.frames[i + 1].t
            invariant
                n == self.frames@.len(),
                i < n,
                increasing(self.frames@),
                self.frames@[i as int].t <= t,
                interpolate(self@, t as int) == interpolate_from(self@, i as int, t as int),
            decreases n - i,
        {
            i += 1;
        }
        if i + 1 == n {
            self.frames[i].v
        } else {
            let a = self.frames[i];
            let b = self.frames[i + 1];
            let num: u64 = (t as i128 - a.t as i128) as u64;
            let den: u64 = (b.t as i128 - a.t as i128) as u64;
            lerp(a.v, b.v, num, den)
        }
    }

    /// The table as expression text over the variable `t`.
    pub fn render(&self) -> (text: String)
        ensures
            text@ == interpolation_text(self@),
    {
        let n = self.frames.len();
        if n == 0 {
            return String::from_str("0");
        }
        let mut out = String::new();
        if n == 1 {
            push_places(&mut out, self.frames[0].v, 2);
            proof {
                assert(out@ =~= value_text(self@[0].v as int));
            }
            return out;
        }
        out.append("if(lt(t,");
        push_places(&mut out, self.frames[0].t, 4);
        out.append("),");
        push_places(&mut out, self.frames[0].v, 2);
        out.append(",");
        let ghost prefix = out@;
        proof {
            assert(prefix =~= "if(lt(t,"@ + time_text(self@[0].t as int) + "),"@ + value_text(
                self@[0].v as int,
            ) + ","@);
        }
        let mut i: usize = 0;
        while i + 1 < n
            invariant
                n == self.frames@.len(),
                n >= 2,
                i + 1 <= n,
                out@ == prefix + heads_text(self@, i as nat),
            decreases n - i,
        {
            let a = self.frames[i];
            let b = self.frames[i + 1];
            push_head(&mut out, a, b);
            proof {
                assert(out@ =~= prefix + (heads_text(self@, i as nat) + segment_head(
                    self@,
                    i as int,
                )));
            }
            i += 1;
        }
        push_places(&mut out, self.frames[n - 1].v, 2);
        let ghost body = out@;
        let mut closed: usize = 0;
        while closed < n
            invariant
                closed <= n,
                out@ == body + closers_text(closed as nat),
            decreases n - closed,
        {
            out.append(")");
            proof {
                assert(out@ =~= body + (closers_text(closed as nat) + ")"@));
            }
            closed += 1;
        }
        proof {
            assert(out@ =~= interpolation_text(self@));
        }
        out
    }
}

fn push_segment(out: &mut String, a: Keyframe, b: Keyframe)
    ensures
        final(out)@ == old(out)@ + segment_text(a, b),
{
    push_places(out, a.v, 2);
    out.append("+");
    push_difference(out, b.v, a.v, 4);
    out.append("*min(1,max(0,(t-");
    push_places(out, a.t, 4);
    out.append(")/");
    push_difference(out, b.t, a.t, 4);
    out.append("))");
    proof {
        reveal(segment_text);
        assert(out@ =~= old(out)@ + segment_text(a, b));
    }
}

fn push_head(out: &mut String, a: Keyframe, b: Keyframe)
    ensures
        final(out)@ == old(out)@ + head_text(a, b),
{
    out.append("if(lt(t,");
    push_places(out, b.t, 4);
    out.append("),");
    push_segment(out, a, b);
    out.append(",");
    proof {
        reveal(head_text);
        assert(out@ =~= old(out)@ + head_text(a, b));
    }
}

} // verus!
