//! The text of one zoom effect for the filter engine: its scale over time,
//! the conditional that confines it to its window, and the canvas offset that
//! centres its pan target.

use vstd::prelude::*;
use crate::fixed::UNIT;
use crate::text::{plain_text, int_text, push_plain, push_int};
use crate::timeline::{Trim, ZoomEffect};

verus! {

/// The scale while easing in: one plus the smoothstep share of the rise.
#[verifier::opaque]
pub open spec fn ramp_up_text(fx: ZoomEffect, trim: Trim) -> Seq<char> {
    let ease = plain_text(fx.easing.duration_spec());
    let since = "(t-"@ + plain_text(fx.ramp_start(trim)) + ")/"@ + ease;
    "1+"@ + plain_text(fx.scale - UNIT) + "*pow("@ + since + ",2)*(3-2*"@ + since + ")"@
}

/// The scale while easing out: the mirror image of easing in.
#[verifier::opaque]
pub open spec fn ramp_down_text(fx: ZoomEffect, trim: Trim) -> Seq<char> {
    let ease = plain_text(fx.easing.duration_spec());
    let until = "("@ + plain_text(fx.ramp_end(trim)) + "-t)/"@ + ease;
    "1+"@ + plain_text(fx.scale - UNIT) + "*pow("@ + until + ",2)*(3-2*"@ + until + ")"@
}

/// The opening of a conditional that holds inside the effect's window.
#[verifier::opaque]
pub open spec fn window_text(fx: ZoomEffect, trim: Trim) -> Seq<char> {
    "if(between(t,"@ + plain_text(fx.ramp_start(trim)) + ","@ + plain_text(fx.ramp_end(trim))
        + "),"@
}

/// The effect's scale as a function of `t`: one outside its window.
#[verifier::opaque]
pub open spec fn zoom_text(fx: ZoomEffect, trim: Trim) -> Seq<char> {
    window_text(fx, trim) + "if(lt(t,"@ + plain_text(fx.hold_start(trim)) + "),"@ + ramp_up_text(
        fx,
        trim,
    ) + ",if(lt(t,"@ + plain_text(fx.hold_end(trim)) + "),"@ + plain_text(fx.scale as int) + ","@
        + ramp_down_text(fx, trim) + ")),1)"@
}

/// `inner` inside the effect's window and nothing outside.
#[verifier::opaque]
pub open spec fn confined_text(fx: ZoomEffect, trim: Trim, inner: Seq<char>) -> Seq<char> {
    window_text(fx, trim) + inner + ",0)"@
}

/// How far the scaled video is moved along an axis to centre the pan
/// target: half less the target, times the extent, the base scale and the
/// effect's scale.
#[verifier::opaque]
pub open spec fn shift_text(fx: ZoomEffect, trim: Trim, pan: Seq<char>, extent: int, base: int)
    -> Seq<char> {
    "(0.5-("@ + pan + "))*"@ + int_text(extent) + "*"@ + plain_text(base) + "*("@ + zoom_text(
        fx,
        trim,
    ) + ")"@
}

fn push_since(out: &mut String, origin: i64, ease: i64)
    ensures
        final(out)@ == old(out)@ + ("(t-"@ + plain_text(origin as int) + ")/"@ + plain_text(
            ease as int,
        )),
{
    out.append("(t-");
    push_plain(out, origin);
    out.append(")/");
    push_plain(out, ease);
    proof {
        assert(out@ =~= old(out)@ + ("(t-"@ + plain_text(origin as int) + ")/"@ + plain_text(
            ease as int,
        )));
    }
}

fn push_until(out: &mut String, end: i64, ease: i64)
    ensures
        final(out)@ == old(out)@ + ("("@ + plain_text(end as int) + "-t)/"@ + plain_text(
            ease as int,
        )),
{
    out.append("(");
    push_plain(out, end);
    out.append("-t)/");
    push_plain(out, ease);
    proof {
        assert(out@ =~= old(out)@ + ("("@ + plain_text(end as int) + "-t)/"@ + plain_text(
            ease as int,
        )));
    }
}

fn push_ramp_up(out: &mut String, fx: &ZoomEffect, trim: &Trim)
    requires
        fx.valid(),
        trim.valid(),
    ensures
        final(out)@ == old(out)@ + ramp_up_text(*fx, *trim),
{
    let ease: i64 = fx.easing.duration();
    let origin: i64 = fx.start_time - trim.start - ease;
    out.append("1+");
    push_plain(out, fx.scale - UNIT);
    out.append("*pow(");
    push_since(out, origin, ease);
    out.append(",2)*(3-2*");
    push_since(out, origin, ease);
    out.append(")");
    proof {
        reveal(ramp_up_text);
        assert(out@ =~= old(out)@ + ramp_up_text(*fx, *trim));
    }
}

fn push_ramp_down(out: &mut String, fx: &ZoomEffect, trim: &Trim)
    requires
        fx.valid(),
        trim.valid(),
    ensures
        final(out)@ == old(out)@ + ramp_down_text(*fx, *trim),
{
    let ease: i64 = fx.easing.duration();
    let end: i64 = fx.end_time - trim.start;
    out.append("1+");
    push_plain(out, fx.scale - UNIT);
    out.append("*pow(");
    push_until(out, end, ease);
    out.append(",2)*(3-2*");
    push_until(out, end, ease);
    out.append(")");
    proof {
        reveal(ramp_down_text);
        assert(out@ =~= old(out)@ + ramp_down_text(*fx, *trim));
    }
}

fn push_window(out: &mut String, fx: &ZoomEffect, trim: &Trim)
    requires
        fx.valid(),
        trim.valid(),
    ensures
        final(out)@ == old(out)@ + window_text(*fx, *trim),
{
    let ease: i64 = fx.easing.duration();
    out.append("if(between(t,");
    push_plain(out, fx.start_time - trim.start - ease);
    out.append(",");
    push_plain(out, fx.end_time - trim.start);
    out.append("),");
    proof {
        reveal(window_text);
        assert(out@ =~= old(out)@ + window_text(*fx, *trim));
    }
}

/// Appends the effect's scale as a function of `t`.
pub fn push_zoom(out: &mut String, fx: &ZoomEffect, trim: &Trim)
    requires
        fx.valid(),
        trim.valid(),
    ensures
        final(out)@ == old(out)@ + zoom_text(*fx, *trim),
{
    let ease: i64 = fx.easing.duration();
    push_window(out, fx, trim);
    out.append("if(lt(t,");
    push_plain(out, fx.start_time - trim.start);
    out.append("),");
    push_ramp_up(out, fx, trim);
    let ghost half = out@;
    proof {
        assert(half =~= old(out)@ + (window_text(*fx, *trim) + "if(lt(t,"@ + plain_text(
            fx.hold_start(*trim),
        ) + "),"@ + ramp_up_text(*fx, *trim)));
    }
    out.append(",if(lt(t,");
    push_plain(out, fx.end_time - trim.start - ease);
    out.append("),");
    push_plain(out, fx.scale);
    out.append(",");
    push_ramp_down(out, fx, trim);
    out.append(")),1)");
    proof {
        reveal(zoom_text);
        assert(out@ =~= old(out)@ + zoom_text(*fx, *trim));
    }
}

/// The effect's scale as a function of `t`.
pub fn zoom_expression(fx: &ZoomEffect, trim: &Trim) -> (text: String)
    requires
        fx.valid(),
        trim.valid(),
    ensures
        text@ == zoom_text(*fx, *trim),
{
    let mut out = String::new();
    push_zoom(&mut out, fx, trim);
    proof {
        assert(out@ =~= zoom_text(*fx, *trim));
    }
    out
}

/// Appends `inner` confined to the effect's window.
pub fn push_confined(out: &mut String, fx: &ZoomEffect, trim: &Trim, inner: &str)
    requires
        fx.valid(),
        trim.valid(),
    ensures
        final(out)@ == old(out)@ + confined_text(*fx, *trim, inner@),
{
    push_window(out, fx, trim);
    out.append(inner);
    out.append(",0)");
    proof {
        reveal(confined_text);
        assert(out@ =~= old(out)@ + confined_text(*fx, *trim, inner@));
    }
}

/// Appends the shift that centres the pan target `pan` along an axis of
/// `extent` pixels at base scale `base`.
pub fn push_shift(
    out: &mut String,
    fx: &ZoomEffect,
    trim: &Trim,
    pan: &str,
    extent: i32,
    base: i64,
)
    requires
        fx.valid(),
        trim.valid(),
    ensures
        final(out)@ == old(out)@ + shift_text(*fx, *trim, pan@, extent as int, base as int),
{
    out.append("(0.5-(");
    out.append(pan);
    out.append("))*");
    push_int(out, extent as i64);
    out.append("*");
    push_plain(out, base);
    out.append("*(");
    push_zoom(out, fx, trim);
    out.append(")");
    proof {
        reveal(shift_text);
        assert(out@ =~= old(out)@ + shift_text(*fx, *trim, pan@, extent as int, base as int));
    }
}

} // verus!
