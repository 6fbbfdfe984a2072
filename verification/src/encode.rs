//! The choice of encoder for an export: a hardware encoder where the
//! encoder program lists one, the software encoder otherwise and after a
//! failed hardware attempt, each with the parameters of its family.

use vstd::prelude::*;
use vstd::string::StringSliceAdditionalSpecFns;
use crate::text::str_eq;

verus! {

/// Whether `needle` occurs in `hay` as a run of bytes.
pub open spec fn occurs_in(hay: Seq<u8>, needle: Seq<u8>) -> bool {
    exists|i: int| occurs_at(hay, needle, i)
}

/// Whether `needle` occurs in `hay` at index `i`.
pub open spec fn occurs_at(hay: Seq<u8>, needle: Seq<u8>, i: int) -> bool {
    0 <= i && i + needle.len() <= hay.len() && hay.subrange(i, i + needle.len()) == needle
}

/// Whether `needle` occurs in `hay`.
pub fn contains_bytes(hay: &[u8], needle: &[u8]) -> (found: bool)
    ensures
        found == occurs_in(hay@, needle@),
{
    let n: usize = hay.len();
    let m: usize = needle.len();
    if m > n {
        return false;
    }
    let mut i: usize = 0;
    while i <= n - m
        invariant
            m <= n,
            n == hay@.len(),
            m == needle@.len(),
            i <= n - m + 1,
            forall|k: int| 0 <= k < i ==> !occurs_at(hay@, needle@, k),
        decreases n - m + 1 - i,
    {
        let mut j: usize = 0;
        while j < m && hay[i + j] == needle[j]
            invariant
                m <= n,
                n == hay@.len(),
                m == needle@.len(),
                i <= n - m,
                j <= m,
                forall|k: int| 0 <= k < j ==> hay@[i + k] == needle@[k],
            decreases m - j,
        {
            j += 1;
        }
        if j == m {
            proof {
                assert(hay@.subrange(i as int, i + m) =~= needle@);
                assert(occurs_at(hay@, needle@, i as int));
            }
            return true;
        }
        proof {
            // the bytes differ at offset j, so the needle does not stand here
            if occurs_at(hay@, needle@, i as int) {
                assert(hay@.subrange(i as int, i + m)[j as int] == needle@[j as int]);
            }
        }
        i += 1;
    }
    false
}

/// The hardware encoders that an export can use, in order of preference.
#[derive(Clone, Copy, Debug, PartialEq, Eq, Structural)]
pub enum HardwareEncoder {
    Nvenc,
    QuickSync,
    Amf,
}

impl HardwareEncoder {
    /// The encoder's name.
    pub open spec fn name_spec(self) -> Seq<char> {
        match self {
            HardwareEncoder::Nvenc => "h264_nvenc"@,
            HardwareEncoder::QuickSync => "h264_qsv"@,
            HardwareEncoder::Amf => "h264_amf"@,
        }
    }

    /// The encoder's name.
    pub fn name(self) -> (text: String)
        ensures
            text@ == self.name_spec(),
    {
        match self {
            HardwareEncoder::Nvenc => String::from_str("h264_nvenc"),
            HardwareEncoder::QuickSync => String::from_str("h264_qsv"),
            HardwareEncoder::Amf => String::from_str("h264_amf"),
        }
    }
}

/// The first hardware encoder, in order of preference, whose name the
/// encoder program's listing holds.
pub open spec fn listed_encoder(listing: Seq<u8>) -> Option<HardwareEncoder> {
    if occurs_in(listing, "h264_nvenc".spec_bytes()) {
        Some(HardwareEncoder::Nvenc)
    } else if occurs_in(listing, "h264_qsv".spec_bytes()) {
        Some(HardwareEncoder::QuickSync)
    } else if occurs_in(listing, "h264_amf".spec_bytes()) {
        Some(HardwareEncoder::Amf)
    } else {
        None
    }
}

/// The hardware encoder to use, given what the encoder program lists.
pub fn select_hardware_encoder(listing: &str) -> (choice: Option<HardwareEncoder>)
    ensures
        choice == listed_encoder(listing.spec_bytes()),
{
    let bytes: &[u8] = listing.as_bytes();
    if contains_bytes(bytes, "h264_nvenc".as_bytes()) {
        Some(HardwareEncoder::Nvenc)
    } else if contains_bytes(bytes, "h264_qsv".as_bytes()) {
        Some(HardwareEncoder::QuickSync)
    } else if contains_bytes(bytes, "h264_amf".as_bytes()) {
        Some(HardwareEncoder::Amf)
    } else {
        None
    }
}

/// A hardware encoder's preset and quantizer for a quality setting.
pub open spec fn hardware_params(quality: Seq<char>) -> (Seq<char>, Seq<char>) {
    if quality == "high"@ {
        ("p7"@, "18"@)
    } else if quality == "low"@ {
        ("p1"@, "28"@)
    } else {
        ("p4"@, "23"@)
    }
}

/// The software encoder's preset and rate factor for a quality setting.
pub open spec fn software_params(quality: Seq<char>) -> (Seq<char>, Seq<char>) {
    if quality == "high"@ {
        ("slower"@, "16"@)
    } else if quality == "low"@ {
        ("fast"@, "26"@)
    } else {
        ("medium"@, "20"@)
    }
}

/// Encoder, preset and quality value for a quality setting: those of the
/// hardware encoder where there is one, else those of the software
/// encoder. Any setting but `high` and `low` counts as `medium`.
pub fn get_encoding_params(quality: &str, hw_encoder: &Option<String>) -> (params: (
    String,
    String,
    String,
))
    ensures
        match hw_encoder {
            Some(encoder) => params.0@ == encoder@ && (params.1@, params.2@) == hardware_params(
                quality@,
            ),
            None => params.0@ == "libx264"@ && (params.1@, params.2@) == software_params(quality@),
        },
{
    match hw_encoder {
        Some(encoder) => {
            if str_eq(quality, "high") {
                (encoder.clone(), String::from_str("p7"), String::from_str("18"))
            } else if str_eq(quality, "low") {
                (encoder.clone(), String::from_str("p1"), String::from_str("28"))
            } else {
                (encoder.clone(), String::from_str("p4"), String::from_str("23"))
            }
        },
        None => {
            if str_eq(quality, "high") {
                (String::from_str("libx264"), String::from_str("slower"), String::from_str("16"))
            } else if str_eq(quality, "low") {
                (String::from_str("libx264"), String::from_str("fast"), String::from_str("26"))
            } else {
                (String::from_str("libx264"), String::from_str("medium"), String::from_str("20"))
            }
        },
    }
}

/// The size that a resolution setting names; any setting but `720p`,
/// `1080p` and `4k` keeps the source's size.
pub open spec fn target_resolution(resolution: Seq<char>, width: int, height: int) -> (int, int) {
    if resolution == "720p"@ {
        (1280, 720)
    } else if resolution == "1080p"@ {
        (1920, 1080)
    } else if resolution == "4k"@ {
        (3840, 2160)
    } else {
        (width, height)
    }
}

/// The size of the output for a resolution setting.
pub fn get_target_resolution(resolution: &str, orig_width: i32, orig_height: i32) -> (size: (
    i32,
    i32,
))
    ensures
        (size.0 as int, size.1 as int) == target_resolution(
            resolution@,
            orig_width as int,
            orig_height as int,
        ),
{
    if str_eq(resolution, "720p") {
        (1280, 720)
    } else if str_eq(resolution, "1080p") {
        (1920, 1080)
    } else if str_eq(resolution, "4k") {
        (3840, 2160)
    } else {
        (orig_width, orig_height)
    }
}

/// How an attempt to encode failed.
#[derive(Clone, Copy, Debug, PartialEq, Eq, Structural)]
pub enum Failure {
    /// The encoder program could not be run.
    NotRun,
    /// The encoder program ran and reported failure.
    Exit,
}

/// How an attempt to encode ended.
#[derive(Clone, Copy, Debug, PartialEq, Eq, Structural)]
pub enum Outcome {
    /// The encoder program ran and reported success.
    Success,
    /// The attempt failed.
    Failed(Failure),
}

/// What follows an attempt.
pub enum Step {
    /// The export is done: its result is the path of the output file.
    Done(String),
    /// One more attempt, with this encoder, preset and quality value.
    Retry(String, String, String),
    /// The export fails with this message.
    GiveUp(String),
}

/// How many attempts an export makes at most: two where a hardware
/// encoder is tried first, else one.
pub open spec fn attempt_limit(hardware: bool) -> int {
    if hardware {
        2
    } else {
        1
    }
}

/// Whether a failed attempt is followed by another: only the first, only
/// where it used a hardware encoder, and only if the encoder ran.
pub open spec fn retries(attempt: int, hardware: bool, failure: Failure) -> bool {
    attempt == 1 && hardware && failure == Failure::Exit
}

/// The message of a failed export.
pub open spec fn failure_text(failure: Failure, diagnostic: Seq<char>) -> Seq<char> {
    match failure {
        Failure::NotRun => "Failed to execute FFmpeg: "@ + diagnostic,
        Failure::Exit => "FFmpeg failed: "@ + diagnostic,
    }
}

/// What follows attempt number `attempt`, counted from one. A success
/// ends the export with the path of the output file. After a hardware
/// encoder's first failure the software encoder is tried once, with its
/// own parameters for the quality setting; any other failure ends the
/// export with the encoder's diagnostic.
pub fn after_attempt(
    attempt: u32,
    quality: &str,
    hw_encoder: &Option<String>,
    outcome: Outcome,
    diagnostic: &str,
    output: &str,
) -> (next: Step)
    ensures
        match next {
            Step::Done(path) => outcome == Outcome::Success && path@ == output@,
            Step::Retry(encoder, preset, value) => {
                &&& outcome matches Outcome::Failed(failure)
                &&& retries(attempt as int, hw_encoder.is_some(), failure)
                &&& encoder@ == "libx264"@
                &&& (preset@, value@) == software_params(quality@)
            },
            Step::GiveUp(message) => {
                &&& outcome matches Outcome::Failed(failure)
                &&& !retries(attempt as int, hw_encoder.is_some(), failure)
                &&& message@ == failure_text(failure, diagnostic@)
            },
        },
{
    let failure: Failure = match outcome {
        Outcome::Success => {
            return Step::Done(String::from_str(output));
        },
        Outcome::Failed(failure) => failure,
    };
    let ran: bool = match failure {
        Failure::Exit => true,
        Failure::NotRun => false,
    };
    if attempt == 1 && hw_encoder.is_some() && ran {
        let software: Option<String> = None;
        let params: (String, String, String) = get_encoding_params(quality, &software);
        Step::Retry(params.0, params.1, params.2)
    } else {
        let mut message: String = match failure {
            Failure::NotRun => String::from_str("Failed to execute FFmpeg: "),
            Failure::Exit => String::from_str("FFmpeg failed: "),
        };
        message.append(diagnostic);
        Step::GiveUp(message)
    }
}

/// A hardware encoder's failure on the first attempt is followed by
/// exactly one retry: the second attempt's failure is never followed by
/// another, and no attempt is made beyond the limit.
pub proof fn law_one_retry(attempt: int, hardware: bool, failure: Failure)
    ensures
        retries(1, true, Failure::Exit),
        attempt >= 2 ==> !retries(attempt, hardware, failure),
        retries(attempt, hardware, failure) ==> attempt + 1 <= attempt_limit(hardware),
        !hardware ==> !retries(attempt, hardware, failure),
{
}

/// The views of a list of strings.
pub open spec fn lines(args: Seq<String>) -> Seq<Seq<char>> {
    Seq::new(args.len(), |i: int| args[i]@)
}

/// The arguments that select the encoder: the software encoder takes a
/// rate factor, any other a constant quantizer.
pub open spec fn encoder_args(encoder: Seq<char>, preset: Seq<char>, value: Seq<char>) -> Seq<
    Seq<char>,
> {
    if encoder == "libx264"@ {
        seq!["-c:v"@, encoder, "-preset"@, preset, "-crf"@, value]
    } else {
        seq!["-c:v"@, encoder, "-preset"@, preset, "-qp"@, value, "-rc"@, "constqp"@]
    }
}

/// The arguments that every export ends with: frame rate, pixel format,
/// audio codec and bit rate, and the output file.
pub open spec fn common_args(output: Seq<char>) -> Seq<Seq<char>> {
    seq!["-r"@, "60"@, "-pix_fmt"@, "yuv420p"@, "-c:a"@, "aac"@, "-b:a"@, "192k"@, output]
}

/// The arguments that every export begins with: overwrite, seek to the
/// trim start, the input file, and the duration.
pub open spec fn input_args(input: Seq<char>, start: int, duration: int) -> Seq<Seq<char>> {
    seq![
        "-y"@,
        "-ss"@,
        crate::text::places_text(start, 3),
        "-i"@,
        input,
        "-t"@,
        crate::text::places_text(duration, 3),
    ]
}

/// The arguments that hand over the filter graph and pick its output.
pub open spec fn filter_args(filter: Seq<char>, output_label: Seq<char>) -> Seq<Seq<char>> {
    seq!["-filter_complex"@, filter, "-map"@, output_label]
}

/// Appends a copy of `text` to `args`.
fn push_arg(args: &mut Vec<String>, text: &str)
    ensures
        lines(final(args)@) == lines(old(args)@).push(text@),
{
    args.push(String::from_str(text));
    proof {
        assert(lines(args@) =~= lines(old(args)@).push(text@));
    }
}

/// The arguments of one attempt to encode an export.
pub fn export_args(
    input: &str,
    output: &str,
    trim: &crate::timeline::Trim,
    plan: &crate::export::FilterPlan,
    encoder: &str,
    preset: &str,
    value: &str,
) -> (args: Vec<String>)
    requires
        trim.valid(),
    ensures
        lines(args@) == input_args(input@, trim.start as int, trim.duration_spec()) + filter_args(
            plan.filter@,
            plan.output@,
        ) + encoder_args(encoder@, preset@, value@) + common_args(output@),
{
    let mut args: Vec<String> = Vec::new();
    proof {
        assert(lines(args@) =~= Seq::<Seq<char>>::empty());
    }
    let mut start = String::new();
    crate::text::push_places(&mut start, trim.start, 3);
    let mut duration = String::new();
    crate::text::push_places(&mut duration, trim.duration(), 3);
    proof {
        assert(start@ =~= crate::text::places_text(trim.start as int, 3));
        assert(duration@ =~= crate::text::places_text(trim.duration_spec(), 3));
    }
    push_arg(&mut args, "-y");
    push_arg(&mut args, "-ss");
    push_arg(&mut args, start.as_str());
    push_arg(&mut args, "-i");
    push_arg(&mut args, input);
    push_arg(&mut args, "-t");
    push_arg(&mut args, duration.as_str());
    proof {
        assert(lines(args@) =~= input_args(input@, trim.start as int, trim.duration_spec()));
    }
    let ghost first = lines(args@);
    push_arg(&mut args, "-filter_complex");
    push_arg(&mut args, plan.filter.as_str());
    push_arg(&mut args, "-map");
    push_arg(&mut args, plan.output.as_str());
    proof {
        assert(lines(args@) =~= first + filter_args(plan.filter@, plan.output@));
    }
    let ghost second = lines(args@);
    push_arg(&mut args, "-c:v");
    push_arg(&mut args, encoder);
    push_arg(&mut args, "-preset");
    push_arg(&mut args, preset);
    if str_eq(encoder, "libx264") {
        push_arg(&mut args, "-crf");
        push_arg(&mut args, value);
    } else {
        push_arg(&mut args, "-qp");
        push_arg(&mut args, value);
        push_arg(&mut args, "-rc");
        push_arg(&mut args, "constqp");
    }
    proof {
        assert(lines(args@) =~= second + encoder_args(encoder@, preset@, value@));
    }
    let ghost third = lines(args@);
    push_arg(&mut args, "-r");
    push_arg(&mut args, "60");
    push_arg(&mut args, "-pix_fmt");
    push_arg(&mut args, "yuv420p");
    push_arg(&mut args, "-c:a");
    push_arg(&mut args, "aac");
    push_arg(&mut args, "-b:a");
    push_arg(&mut args, "192k");
    push_arg(&mut args, output);
    proof {
        assert(lines(args@) =~= third + common_args(output@));
    }
    args
}

/// The arguments that cut a file to a trim window without encoding it
/// anew.
pub open spec fn trim_args(input: Seq<char>, output: Seq<char>, start: int, duration: int) -> Seq<
    Seq<char>,
> {
    seq![
        "-y"@,
        "-i"@,
        input,
        "-ss"@,
        crate::text::places_text(start, 3),
        "-t"@,
        crate::text::places_text(duration, 3),
        "-c"@,
        "copy"@,
        output,
    ]
}

/// The arguments of a lossless trim.
pub fn trim_video_args(input: &str, output: &str, trim: &crate::timeline::Trim) -> (args: Vec<
    String,
>)
    requires
        trim.valid(),
    ensures
        lines(args@) == trim_args(input@, output@, trim.start as int, trim.duration_spec()),
{
    let mut args: Vec<String> = Vec::new();
    proof {
        assert(lines(args@) =~= Seq::<Seq<char>>::empty());
    }
    let mut start = String::new();
    crate::text::push_places(&mut start, trim.start, 3);
    let mut duration = String::new();
    crate::text::push_places(&mut duration, trim.duration(), 3);
    proof {
        assert(start@ =~= crate::text::places_text(trim.start as int, 3));
        assert(duration@ =~= crate::text::places_text(trim.duration_spec(), 3));
    }
    push_arg(&mut args, "-y");
    push_arg(&mut args, "-i");
    push_arg(&mut args, input);
    push_arg(&mut args, "-ss");
    push_arg(&mut args, start.as_str());
    push_arg(&mut args, "-t");
    push_arg(&mut args, duration.as_str());
    push_arg(&mut args, "-c");
    push_arg(&mut args, "copy");
    push_arg(&mut args, output);
    proof {
        assert(lines(args@) =~= trim_args(
            input@,
            output@,
            trim.start as int,
            trim.duration_spec(),
        ));
    }
    args
}

/// The arguments that make the encoder program take raw frames from its
/// input and write them to a file.
pub open spec fn recording_args(width: int, height: int, fps: Seq<char>, filename: Seq<char>)
    -> Seq<Seq<char>> {
    seq![
        "-f"@,
        "rawvideo"@,
        "-pixel_format"@,
        "bgra"@,
        "-video_size"@,
        crate::text::int_text(width) + "x"@ + crate::text::int_text(height),
        "-framerate"@,
        fps,
        "-i"@,
        "-"@,
        "-c:v"@,
        "libx264"@,
        "-pix_fmt"@,
        "yuv420p"@,
        "-preset"@,
        "ultrafast"@,
        "-r"@,
        fps,
        "-y"@,
        filename,
    ]
}

/// The arguments of a live recording of frames of the given size at the
/// frame rate `fps`, written as the caller gave it.
pub fn recording_encoder_args(width: u32, height: u32, fps: &str, filename: &str) -> (args: Vec<
    String,
>)
    ensures
        lines(args@) == recording_args(width as int, height as int, fps@, filename@),
{
    let mut args: Vec<String> = Vec::new();
    proof {
        assert(lines(args@) =~= Seq::<Seq<char>>::empty());
    }
    let mut size = String::new();
    crate::text::push_int(&mut size, width as i64);
    size.append("x");
    crate::text::push_int(&mut size, height as i64);
    proof {
        assert(size@ =~= crate::text::int_text(width as int) + "x"@ + crate::text::int_text(
            height as int,
        ));
    }
    push_arg(&mut args, "-f");
    push_arg(&mut args, "rawvideo");
    push_arg(&mut args, "-pixel_format");
    push_arg(&mut args, "bgra");
    push_arg(&mut args, "-video_size");
    push_arg(&mut args, size.as_str());
    push_arg(&mut args, "-framerate");
    push_arg(&mut args, fps);
    push_arg(&mut args, "-i");
    push_arg(&mut args, "-");
    push_arg(&mut args, "-c:v");
    push_arg(&mut args, "libx264");
    push_arg(&mut args, "-pix_fmt");
    push_arg(&mut args, "yuv420p");
    push_arg(&mut args, "-preset");
    push_arg(&mut args, "ultrafast");
    push_arg(&mut args, "-r");
    push_arg(&mut args, fps);
    push_arg(&mut args, "-y");
    push_arg(&mut args, filename);
    proof {
        assert(lines(args@) =~= recording_args(width as int, height as int, fps@, filename@));
    }
    args
}

} // verus!
