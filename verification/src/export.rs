//! The filter graph of an export: the cursor drawn onto the source, the
//! source scaled by base scale and zoom onto a background canvas, shifted
//! to centre each effect's pan target, and scaled to the target
//! resolution.

use vstd::prelude::*;
use crate::cursor::CursorSample;
use crate::fixed::UNIT;
use crate::keyframes::{interpolation_text, KeyframeTable};
use crate::overlay::{escaped_path, overlay_filter_text, overlay_track, overlay_track_spec};
use crate::pan::{pan_expression, pan_text, pan_track, pan_track_spec, Axis};
use crate::text::{plain_text, int_text, push_plain, push_int};
use crate::timeline::{Trim, ZoomEffect};
use crate::zoomtext::{confined_text, push_confined, push_shift, shift_text, zoom_text};

verus! {

/// The share of the canvas that the video takes at no zoom: one less
/// twice the padding, which is given in percent of the canvas.
pub open spec fn base_scale_spec(padding: int) -> int {
    UNIT - padding / 50
}

/// The base scale for a padding given in fixed-point percent.
pub fn base_scale(padding: i64) -> (base: i64)
    ensures
        base == base_scale_spec(padding as int),
{
    let share: i128 = crate::fixed::floor_div(padding as i128, 50);
    (UNIT as i128 - share) as i64
}

/// How far, in fixed-point pixels, the scaled video is moved along an
/// axis of `extent` pixels to bring the point `pan` to the middle of the
/// canvas: half less the point, times the extent, the base scale and the
/// zoom, rounded down.
pub open spec fn shift_spec(pan: int, extent: int, base: int, zoom: int) -> int {
    ((500_000 - pan) * extent * base * zoom) / 1_000_000_000_000
}

/// The points, base scales and zooms that a shift is computed for: a
/// point of the frame, a base scale of at most a thousand either way, and
/// a zoom of at most a million.
pub open spec fn shiftable(pan: int, base: int, zoom: int) -> bool {
    &&& 0 <= pan <= UNIT
    &&& -1_000_000_000 <= base <= 1_000_000_000
    &&& 0 <= zoom <= 1_000_000_000_000
}

/// The shift that centres `pan` at the given base scale and zoom, or
/// nothing for values that no shift is computed for.
pub fn pan_shift(pan: i64, extent: i32, base: i64, zoom: i64) -> (shift: Option<i128>)
    ensures
        shift == if shiftable(pan as int, base as int, zoom as int) {
            Some(shift_spec(pan as int, extent as int, base as int, zoom as int) as i128)
        } else {
            None
        },
{
    if pan < 0 || pan > UNIT || base < -1_000_000_000 || base > 1_000_000_000 || zoom < 0 || zoom
        > 1_000_000_000_000 {
        return None;
    }
    let off: i128 = 500_000 - pan as i128;
    proof {
        assert(-500_000 * 0x8000_0000 <= off * extent <= 500_000 * 0x8000_0000)
            by (nonlinear_arith)
            requires
                -500_000 <= off <= 500_000,
                -0x8000_0000 <= extent < 0x8000_0000,
        ;
    }
    let across: i128 = off * (extent as i128);
    proof {
        assert(-1_073_741_824_000_000 * 1_000_000_000 <= across * base <= 1_073_741_824_000_000
            * 1_000_000_000) by (nonlinear_arith)
            requires
                -1_073_741_824_000_000 <= across <= 1_073_741_824_000_000,
                -1_000_000_000 <= base <= 1_000_000_000,
        ;
    }
    let scaled: i128 = across * (base as i128);
    proof {
        assert(-1_073_741_824_000_000_000_000_000 * 1_000_000_000_000 <= scaled * zoom
            <= 1_073_741_824_000_000_000_000_000 * 1_000_000_000_000) by (nonlinear_arith)
            requires
                -1_073_741_824_000_000_000_000_000 <= scaled
                    <= 1_073_741_824_000_000_000_000_000,
                0 <= zoom <= 1_000_000_000_000,
        ;
    }
    let product: i128 = scaled * (zoom as i128);
    Some(crate::fixed::floor_div(product, 1_000_000_000_000))
}

/// How many of the first `n` effects take part in the export.
pub open spec fn kept_count(effects: Seq<ZoomEffect>, trim: Trim, n: int) -> int
    decreases n,
{
    if n <= 0 {
        0
    } else {
        kept_count(effects, trim, n - 1) + if effects[n - 1].kept(trim) {
            1int
        } else {
            0int
        }
    }
}

/// The plus sign that joins a part to the parts before it, if there are
/// any.
pub open spec fn joiner(parts_before: int) -> Seq<char> {
    if parts_before > 0 {
        "+"@
    } else {
        Seq::<char>::empty()
    }
}

/// The confined scales of the kept effects among the first `n`, joined by
/// plus signs.
pub open spec fn scale_parts(effects: Seq<ZoomEffect>, trim: Trim, n: int) -> Seq<char>
    decreases n,
{
    if n <= 0 {
        Seq::<char>::empty()
    } else {
        let prev = scale_parts(effects, trim, n - 1);
        let fx = effects[n - 1];
        if fx.kept(trim) {
            prev + joiner(kept_count(effects, trim, n - 1)) + confined_text(
                fx,
                trim,
                zoom_text(fx, trim),
            )
        } else {
            prev
        }
    }
}

/// The scale of the whole timeline: the sum of the kept effects' confined
/// scales, and at least one.
pub open spec fn scale_sum_text(effects: Seq<ZoomEffect>, trim: Trim) -> Seq<char> {
    if kept_count(effects, trim, effects.len() as int) == 0 {
        "1"@
    } else {
        "max(1,"@ + scale_parts(effects, trim, effects.len() as int) + ")"@
    }
}

/// The confined shifts of the kept effects among the first `n` along an
/// axis, joined by plus signs.
pub open spec fn shift_parts(
    effects: Seq<ZoomEffect>,
    trim: Trim,
    log: Seq<CursorSample>,
    extent: int,
    base: int,
    axis: Axis,
    n: int,
) -> Seq<char>
    decreases n,
{
    if n <= 0 {
        Seq::<char>::empty()
    } else {
        let prev = shift_parts(effects, trim, log, extent, base, axis, n - 1);
        let fx = effects[n - 1];
        if fx.kept(trim) {
            prev + joiner(kept_count(effects, trim, n - 1)) + confined_text(
                fx,
                trim,
                shift_text(
                    fx,
                    trim,
                    pan_text(pan_track_spec(fx, trim, log, axis)),
                    extent,
                    base,
                ),
            )
        } else {
            prev
        }
    }
}

/// The shift of the whole timeline along an axis: the sum of the kept
/// effects' confined shifts, or nothing.
pub open spec fn shift_sum_text(
    effects: Seq<ZoomEffect>,
    trim: Trim,
    log: Seq<CursorSample>,
    extent: int,
    base: int,
    axis: Axis,
) -> Seq<char> {
    if kept_count(effects, trim, effects.len() as int) == 0 {
        "0"@
    } else {
        shift_parts(effects, trim, log, extent, base, axis, effects.len() as int)
    }
}

/// The scale of the whole timeline as a function of `t`.
pub fn scale_sum_expression(effects: &Vec<ZoomEffect>, trim: &Trim) -> (text: String)
    requires
        trim.valid(),
    ensures
        text@ == scale_sum_text(effects@, *trim),
{
    let mut parts = String::new();
    let mut kept: usize = 0;
    let mut i: usize = 0;
    while i < effects.len()
        invariant
            i <= effects.len(),
            trim.valid(),
            kept <= i,
            kept == kept_count(effects@, *trim, i as int),
            parts@ == scale_parts(effects@, *trim, i as int),
        decreases effects.len() - i,
    {
        let fx: ZoomEffect = effects[i];
        if fx.is_kept(trim) {
            let ghost before = parts@;
            if kept > 0 {
                parts.append("+");
            }
            let zoom: String = crate::zoomtext::zoom_expression(&fx, trim);
            push_confined(&mut parts, &fx, trim, zoom.as_str());
            proof {
                assert(parts@ =~= before + joiner(kept as int) + confined_text(
                    fx,
                    *trim,
                    zoom_text(fx, *trim),
                ));
            }
            kept += 1;
        }
        i += 1;
    }
    if kept == 0 {
        String::from_str("1")
    } else {
        let mut out = String::from_str("max(1,");
        out.append(parts.as_str());
        out.append(")");
        out
    }
}

/// The shift of the whole timeline along an axis of `extent` pixels as a
/// function of `t`, each effect's pan following the cursor log.
pub fn shift_sum_expression(
    effects: &Vec<ZoomEffect>,
    trim: &Trim,
    log: &Vec<CursorSample>,
    extent: i32,
    base: i64,
    axis: Axis,
) -> (text: String)
    requires
        trim.valid(),
    ensures
        text@ == shift_sum_text(effects@, *trim, log@, extent as int, base as int, axis),
{
    let mut parts = String::new();
    let mut kept: usize = 0;
    let mut i: usize = 0;
    while i < effects.len()
        invariant
            i <= effects.len(),
            trim.valid(),
            kept <= i,
            kept == kept_count(effects@, *trim, i as int),
            parts@ == shift_parts(
                effects@,
                *trim,
                log@,
                extent as int,
                base as int,
                axis,
                i as int,
            ),
        decreases effects.len() - i,
    {
        let fx: ZoomEffect = effects[i];
        if fx.is_kept(trim) {
            let ghost before = parts@;
            if kept > 0 {
                parts.append("+");
            }
            let pan: String = pan_expression(&pan_track(&fx, trim, log, axis));
            let mut shift = String::new();
            push_shift(&mut shift, &fx, trim, pan.as_str(), extent, base);
            proof {
                assert(shift@ =~= shift_text(fx, *trim, pan@, extent as int, base as int));
            }
            push_confined(&mut parts, &fx, trim, shift.as_str());
            proof {
                assert(parts@ =~= before + joiner(kept as int) + confined_text(
                    fx,
                    *trim,
                    shift_text(
                        fx,
                        *trim,
                        pan_text(pan_track_spec(fx, *trim, log@, axis)),
                        extent as int,
                        base as int,
                    ),
                ));
            }
            kept += 1;
        }
        i += 1;
    }
    if kept == 0 {
        String::from_str("0")
    } else {
        parts
    }
}

/// The path of the cursor image as the filter engine takes it.
pub fn escape_filter_path(path: &str) -> (escaped: String)
    ensures
        escaped@ == escaped_path(path@),
{
    let n: usize = path.unicode_len();
    let mut out = String::new();
    let mut i: usize = 0;
    while i < n
        invariant
            i <= n,
            n == path@.len(),
            out@ == escaped_path(path@.take(i as int)),
        decreases n - i,
    {
        let c: char = path.get_char(i);
        proof {
            assert(path@.take(i as int + 1).drop_last() =~= path@.take(i as int));
        }
        if c == '\\' {
            out.append("/");
        } else if c == ':' {
            out.append("\\:");
        } else {
            out.append(path.substring_char(i, i + 1));
            proof {
                assert(path@.subrange(i as int, i + 1) =~= seq![c]);
            }
        }
        i += 1;
    }
    proof {
        assert(path@.take(n as int) =~= path@);
    }
    out
}

/// The filter that draws the cursor image at `path` onto the source video
/// along the two tracks.
pub fn overlay_filter(path: &str, x: &KeyframeTable, y: &KeyframeTable) -> (text: String)
    ensures
        text@ == overlay_filter_text(path@, x@, y@),
{
    let escaped: String = escape_filter_path(path);
    let x_text: String = x.render();
    let y_text: String = y.render();
    let mut out = String::from_str("movie='");
    out.append(escaped.as_str());
    out.append("'[cur];[0:v][cur]overlay=x='");
    out.append(x_text.as_str());
    out.append("':y='");
    out.append(y_text.as_str());
    out.append("':eval=frame:format=auto[vcur]");
    out
}

/// The cursor image that an export draws.
pub struct CursorImage {
    /// Where the image file lies.
    pub path: String,
    /// The side of the image, in pixels.
    pub size: i32,
}

/// What an export is made from.
pub struct ExportRequest {
    /// The part of the source that is exported.
    pub trim: Trim,
    /// The zoom effects, in source time.
    pub effects: Vec<ZoomEffect>,
    /// The cursor log of the recording.
    pub cursor_log: Vec<CursorSample>,
    /// The cursor image, where the cursor is to be drawn.
    pub cursor_image: Option<CursorImage>,
    /// The size of the source video, in pixels.
    pub width: i32,
    pub height: i32,
    /// The canvas colour, as hexadecimal digits.
    pub background: String,
    /// The padding around the video, in fixed-point percent of the canvas.
    pub padding: i64,
    /// The size of the output, in pixels.
    pub target_width: i32,
    pub target_height: i32,
}

/// The filter graph of an export and the label of its output.
pub struct FilterPlan {
    pub filter: String,
    pub output: String,
}

impl ExportRequest {
    /// The horizontal overlay track of the request's cursor image.
    pub open spec fn overlay_x(self) -> Seq<crate::keyframes::Keyframe> {
        overlay_track_spec(
            self.cursor_log@,
            self.cursor_image.unwrap().size,
            self.width,
            self.trim.start,
            Axis::Horizontal,
        )
    }

    /// The vertical overlay track of the request's cursor image.
    pub open spec fn overlay_y(self) -> Seq<crate::keyframes::Keyframe> {
        overlay_track_spec(
            self.cursor_log@,
            self.cursor_image.unwrap().size,
            self.height,
            self.trim.start,
            Axis::Vertical,
        )
    }

    /// Whether the cursor is drawn: there is an image, and the cursor was
    /// seen on the trimmed timeline.
    pub open spec fn draws_cursor(self) -> bool {
        self.cursor_image.is_some() && self.overlay_x().len() > 0
    }

    /// The filter that draws the cursor, with the semicolon that parts it
    /// from what follows; nothing where no cursor is drawn.
    pub open spec fn cursor_prefix(self) -> Seq<char> {
        if self.draws_cursor() {
            overlay_filter_text(self.cursor_image.unwrap().path@, self.overlay_x(), self.overlay_y())
                + ";"@
        } else {
            Seq::<char>::empty()
        }
    }

    /// The label of the video that is scaled onto the canvas.
    pub open spec fn video_input(self) -> Seq<char> {
        if self.draws_cursor() {
            "[vcur]"@
        } else {
            "[0:v]"@
        }
    }

    /// The filter that makes the background canvas.
    pub open spec fn canvas(self) -> Seq<char> {
        canvas_text(
            self.background@,
            self.width as int,
            self.height as int,
            self.trim.duration_spec(),
        )
    }

    /// The filters that scale the video and lay it onto the canvas.
    pub open spec fn placement(self) -> Seq<char> {
        let base = base_scale_spec(self.padding as int);
        if self.effects@.len() > 0 {
            zoomed_text(
                base,
                scale_sum_text(self.effects@, self.trim),
                self.width as int,
                self.height as int,
                shift_sum_text(
                    self.effects@,
                    self.trim,
                    self.cursor_log@,
                    self.width as int,
                    base,
                    Axis::Horizontal,
                ),
                shift_sum_text(
                    self.effects@,
                    self.trim,
                    self.cursor_log@,
                    self.height as int,
                    base,
                    Axis::Vertical,
                ),
            )
        } else {
            unzoomed_text(base, self.width as int, self.height as int)
        }
    }

    /// Whether the output is scaled to another size than the source's.
    pub open spec fn rescaled(self) -> bool {
        self.target_width != self.width || self.target_height != self.height
    }

    /// The whole filter graph.
    pub open spec fn filter_text(self) -> Seq<char> {
        let core = self.cursor_prefix() + self.canvas() + self.video_input() + self.placement();
        if self.rescaled() {
            core + rescale_text(self.target_width as int, self.target_height as int)
        } else {
            core
        }
    }

    /// The label of the graph's output.
    pub open spec fn output_text(self) -> Seq<char> {
        if self.rescaled() {
            "[scaled]"@
        } else {
            "[final]"@
        }
    }
}

/// The filter that makes a canvas of colour `background` and the given
/// size, lasting `duration` microseconds.
#[verifier::opaque]
pub open spec fn canvas_text(background: Seq<char>, width: int, height: int, duration: int) -> Seq<
    char,
> {
    "color=c=0x"@ + background + ":s="@ + int_text(width) + "x"@ + int_text(height) + ":d="@
        + plain_text(duration) + "[bg];"@
}

/// One side of the zoomed scale filter: the source's side times base
/// scale and zoom.
#[verifier::opaque]
pub open spec fn zoomed_side_text(side: Seq<char>, base: int, zoom: Seq<char>) -> Seq<char> {
    side + "*"@ + plain_text(base) + "*("@ + zoom + ")"@
}

/// One coordinate of the overlay on the canvas: centred, plus a shift.
#[verifier::opaque]
pub open spec fn centred_text(extent: int, side: Seq<char>, shift: Seq<char>) -> Seq<char> {
    "("@ + int_text(extent) + "-"@ + side + ")/2+("@ + shift + ")"@
}

/// The filters that scale the video by base scale and zoom and lay it
/// onto the canvas, shifted.
#[verifier::opaque]
pub open spec fn zoomed_text(
    base: int,
    zoom: Seq<char>,
    width: int,
    height: int,
    shift_x: Seq<char>,
    shift_y: Seq<char>,
) -> Seq<char> {
    "scale=w='"@ + zoomed_side_text("iw"@, base, zoom) + "':h='"@ + zoomed_side_text(
        "ih"@,
        base,
        zoom,
    ) + "':eval=frame:flags=lanczos[vid];[bg][vid]overlay=x='"@ + centred_text(
        width,
        "overlay_w"@,
        shift_x,
    ) + "':y='"@ + centred_text(height, "overlay_h"@, shift_y) + "':eval=frame[final]"@
}

/// The filters that scale the video by the base scale and lay it onto the
/// middle of the canvas.
#[verifier::opaque]
pub open spec fn unzoomed_text(base: int, width: int, height: int) -> Seq<char> {
    "scale=w='iw*"@ + plain_text(base) + "':h='ih*"@ + plain_text(base)
        + "':flags=lanczos[vid];[bg][vid]overlay=x='("@ + int_text(width)
        + "-overlay_w)/2':y='("@ + int_text(height) + "-overlay_h)/2'[final]"@
}

/// The filter that scales the output to the target size.
#[verifier::opaque]
pub open spec fn rescale_text(width: int, height: int) -> Seq<char> {
    ";[final]scale="@ + int_text(width) + ":"@ + int_text(height) + ":flags=lanczos[scaled]"@
}

fn push_canvas(out: &mut String, background: &str, width: i32, height: i32, duration: i64)
    ensures
        final(out)@ == old(out)@ + canvas_text(
            background@,
            width as int,
            height as int,
            duration as int,
        ),
{
    out.append("color=c=0x");
    out.append(background);
    out.append(":s=");
    push_int(out, width as i64);
    out.append("x");
    push_int(out, height as i64);
    out.append(":d=");
    push_plain(out, duration);
    out.append("[bg];");
    proof {
        reveal(canvas_text);
        assert(out@ =~= old(out)@ + canvas_text(
            background@,
            width as int,
            height as int,
            duration as int,
        ));
    }
}

fn push_zoomed_side(out: &mut String, side: &str, base: i64, zoom: &str)
    ensures
        final(out)@ == old(out)@ + zoomed_side_text(side@, base as int, zoom@),
{
    out.append(side);
    out.append("*");
    push_plain(out, base);
    out.append("*(");
    out.append(zoom);
    out.append(")");
    proof {
        reveal(zoomed_side_text);
        assert(out@ =~= old(out)@ + zoomed_side_text(side@, base as int, zoom@));
    }
}

fn push_centred(out: &mut String, extent: i32, side: &str, shift: &str)
    ensures
        final(out)@ == old(out)@ + centred_text(extent as int, side@, shift@),
{
    out.append("(");
    push_int(out, extent as i64);
    out.append("-");
    out.append(side);
    out.append(")/2+(");
    out.append(shift);
    out.append(")");
    proof {
        reveal(centred_text);
        assert(out@ =~= old(out)@ + centred_text(extent as int, side@, shift@));
    }
}

fn push_zoomed(
    out: &mut String,
    base: i64,
    zoom: &str,
    width: i32,
    height: i32,
    shift_x: &str,
    shift_y: &str,
)
    ensures
        final(out)@ == old(out)@ + zoomed_text(
            base as int,
            zoom@,
            width as int,
            height as int,
            shift_x@,
            shift_y@,
        ),
{
    out.append("scale=w='");
    push_zoomed_side(out, "iw", base, zoom);
    out.append("':h='");
    push_zoomed_side(out, "ih", base, zoom);
    out.append("':eval=frame:flags=lanczos[vid];[bg][vid]overlay=x='");
    push_centred(out, width, "overlay_w", shift_x);
    out.append("':y='");
    push_centred(out, height, "overlay_h", shift_y);
    out.append("':eval=frame[final]");
    proof {
        reveal(zoomed_text);
        assert(out@ =~= old(out)@ + zoomed_text(
            base as int,
            zoom@,
            width as int,
            height as int,
            shift_x@,
            shift_y@,
        ));
    }
}

fn push_unzoomed(out: &mut String, base: i64, width: i32, height: i32)
    ensures
        final(out)@ == old(out)@ + unzoomed_text(base as int, width as int, height as int),
{
    out.append("scale=w='iw*");
    push_plain(out, base);
    out.append("':h='ih*");
    push_plain(out, base);
    out.append("':flags=lanczos[vid];[bg][vid]overlay=x='(");
    push_int(out, width as i64);
    out.append("-overlay_w)/2':y='(");
    push_int(out, height as i64);
    out.append("-overlay_h)/2'[final]");
    proof {
        reveal(unzoomed_text);
        assert(out@ =~= old(out)@ + unzoomed_text(base as int, width as int, height as int));
    }
}

fn push_rescale(out: &mut String, width: i32, height: i32)
    ensures
        final(out)@ == old(out)@ + rescale_text(width as int, height as int),
{
    out.append(";[final]scale=");
    push_int(out, width as i64);
    out.append(":");
    push_int(out, height as i64);
    out.append(":flags=lanczos[scaled]");
    proof {
        reveal(rescale_text);
        assert(out@ =~= old(out)@ + rescale_text(width as int, height as int));
    }
}

fn push_cursor_prefix(out: &mut String, request: &ExportRequest) -> (drawn: bool)
    ensures
        drawn == request.draws_cursor(),
        final(out)@ == old(out)@ + request.cursor_prefix(),
{
    match &request.cursor_image {
        Some(image) => {
            let x: KeyframeTable = overlay_track(
                &request.cursor_log,
                image.size,
                request.width,
                request.trim.start,
                Axis::Horizontal,
            );
            if x.len() == 0 {
                proof {
                    assert(out@ =~= old(out)@ + Seq::<char>::empty());
                }
                return false;
            }
            let y: KeyframeTable = overlay_track(
                &request.cursor_log,
                image.size,
                request.height,
                request.trim.start,
                Axis::Vertical,
            );
            let filter: String = overlay_filter(image.path.as_str(), &x, &y);
            out.append(filter.as_str());
            out.append(";");
            proof {
                assert(out@ =~= old(out)@ + (filter@ + ";"@));
            }
            true
        },
        None => {
            proof {
                assert(out@ =~= old(out)@ + Seq::<char>::empty());
            }
            false
        },
    }
}

fn push_placement(out: &mut String, request: &ExportRequest)
    requires
        request.trim.valid(),
    ensures
        final(out)@ == old(out)@ + request.placement(),
{
    let base: i64 = base_scale(request.padding);
    if request.effects.len() > 0 {
        let zoom: String = scale_sum_expression(&request.effects, &request.trim);
        let shift_x: String = shift_sum_expression(
            &request.effects,
            &request.trim,
            &request.cursor_log,
            request.width,
            base,
            Axis::Horizontal,
        );
        let shift_y: String = shift_sum_expression(
            &request.effects,
            &request.trim,
            &request.cursor_log,
            request.height,
            base,
            Axis::Vertical,
        );
        push_zoomed(
            out,
            base,
            zoom.as_str(),
            request.width,
            request.height,
            shift_x.as_str(),
            shift_y.as_str(),
        );
    } else {
        push_unzoomed(out, base, request.width, request.height);
    }
}

/// Why no filter graph was made.
#[derive(Clone, Copy, Debug, PartialEq, Eq, Structural)]
pub enum ExportError {
    /// The trim window does not start at or after zero and end at or after
    /// its start, within `TIME_LIMIT`.
    InvalidTrim,
}

/// The filter graph of an export. Effects that are not valid or do not
/// touch the trimmed timeline are left out; a trim window that is not
/// valid is the one error.
pub fn compile_filter(request: &ExportRequest) -> (outcome: Result<FilterPlan, ExportError>)
    ensures
        outcome.is_ok() == request.trim.valid(),
        match outcome {
            Ok(plan) => plan.filter@ == request.filter_text() && plan.output@
                == request.output_text(),
            Err(e) => e == ExportError::InvalidTrim,
        },
{
    if !request.trim.is_valid() {
        return Err(ExportError::InvalidTrim);
    }
    let mut filter = String::new();
    let drawn: bool = push_cursor_prefix(&mut filter, request);
    push_canvas(
        &mut filter,
        request.background.as_str(),
        request.width,
        request.height,
        request.trim.duration(),
    );
    if drawn {
        filter.append("[vcur]");
    } else {
        filter.append("[0:v]");
    }
    push_placement(&mut filter, request);
    proof {
        assert(filter@ =~= request.cursor_prefix() + request.canvas() + request.video_input()
            + request.placement());
    }
    let rescaled: bool = request.target_width != request.width || request.target_height
        != request.height;
    if rescaled {
        push_rescale(&mut filter, request.target_width, request.target_height);
        Ok(FilterPlan { filter, output: String::from_str("[scaled]") })
    } else {
        Ok(FilterPlan { filter, output: String::from_str("[final]") })
    }
}

} // verus!
