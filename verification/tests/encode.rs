use visualcoder::encode::{
    after_attempt, contains_bytes, export_args, get_encoding_params, get_target_resolution,
    recording_encoder_args, select_hardware_encoder, trim_video_args, Failure, HardwareEncoder,
    Outcome, Step,
};
use visualcoder::export::FilterPlan;
use visualcoder::timeline::Trim;

fn params(quality: &str, hw: Option<&str>) -> (String, String, String) {
    get_encoding_params(quality, &hw.map(String::from))
}

fn triple(a: &str, b: &str, c: &str) -> (String, String, String) {
    (a.to_string(), b.to_string(), c.to_string())
}

#[test]
fn hardware_encoders_take_preset_and_quantizer() {
    assert_eq!(params("high", Some("h264_nvenc")), triple("h264_nvenc", "p7", "18"));
    assert_eq!(params("medium", Some("h264_qsv")), triple("h264_qsv", "p4", "23"));
    assert_eq!(params("low", Some("h264_amf")), triple("h264_amf", "p1", "28"));
    assert_eq!(params("ultra", Some("h264_nvenc")), triple("h264_nvenc", "p4", "23"));
    assert_eq!(params("", Some("anything")), triple("anything", "p4", "23"));
}

#[test]
fn software_encoder_takes_preset_and_rate_factor() {
    assert_eq!(params("high", None), triple("libx264", "slower", "16"));
    assert_eq!(params("medium", None), triple("libx264", "medium", "20"));
    assert_eq!(params("low", None), triple("libx264", "fast", "26"));
    assert_eq!(params("High", None), triple("libx264", "medium", "20"));
}

#[test]
fn resolution_settings_name_sizes() {
    assert_eq!(get_target_resolution("720p", 1000, 500), (1280, 720));
    assert_eq!(get_target_resolution("1080p", 1000, 500), (1920, 1080));
    assert_eq!(get_target_resolution("4k", 1000, 500), (3840, 2160));
    assert_eq!(get_target_resolution("original", 1000, 500), (1000, 500));
    assert_eq!(get_target_resolution("8k", -3, 0), (-3, 0));
}

#[test]
fn hardware_encoder_is_the_first_listed_in_order_of_preference() {
    let listing = " V....D h264_amf   AMD AMF H.264 Encoder\n V....D h264_nvenc NVIDIA NVENC\n V..... h264_qsv\n";
    assert_eq!(select_hardware_encoder(listing), Some(HardwareEncoder::Nvenc));
    assert_eq!(
        select_hardware_encoder(" V..... h264_qsv\n V....D h264_amf\n"),
        Some(HardwareEncoder::QuickSync)
    );
    assert_eq!(select_hardware_encoder("xh264_amfx"), Some(HardwareEncoder::Amf));
    assert_eq!(select_hardware_encoder(" V..... libx264\n h264_nven\n264_qsv"), None);
    assert_eq!(select_hardware_encoder(""), None);
    assert_eq!(HardwareEncoder::Nvenc.name(), "h264_nvenc");
    assert_eq!(HardwareEncoder::QuickSync.name(), "h264_qsv");
    assert_eq!(HardwareEncoder::Amf.name(), "h264_amf");
}

#[test]
fn byte_search_finds_runs_anywhere() {
    assert!(contains_bytes(b"abcabd", b"abd"));
    assert!(contains_bytes(b"abcabd", b"abc"));
    assert!(contains_bytes(b"abcabd", b""));
    assert!(contains_bytes(b"", b""));
    assert!(contains_bytes(b"aab", b"ab"));
    assert!(!contains_bytes(b"abcabd", b"abe"));
    assert!(!contains_bytes(b"ab", b"abc"));
    assert!(!contains_bytes(b"", b"a"));
}

#[test]
fn hardware_failure_on_the_first_attempt_is_retried_once_in_software() {
    let hw = Some(String::from("h264_nvenc"));
    for (quality, preset, value) in [("high", "slower", "16"), ("medium", "medium", "20"), ("low", "fast", "26"), ("?", "medium", "20")] {
        match after_attempt(1, quality, &hw, Outcome::Failed(Failure::Exit), "No NVENC capable devices found", "out.mp4") {
            Step::Retry(encoder, p, v) => {
                assert_eq!(encoder, "libx264");
                assert_eq!(p, preset);
                assert_eq!(v, value);
            }
            Step::GiveUp(message) => panic!("gave up: {}", message),
            Step::Done(path) => panic!("done: {}", path),
        }
    }
    match after_attempt(2, "high", &hw, Outcome::Failed(Failure::Exit), "Conversion failed!", "out.mp4") {
        Step::GiveUp(message) => assert_eq!(message, "FFmpeg failed: Conversion failed!"),
        Step::Retry(..) => panic!("retried twice"),
        Step::Done(path) => panic!("done: {}", path),
    }
    match after_attempt(3, "high", &hw, Outcome::Failed(Failure::Exit), "", "out.mp4") {
        Step::GiveUp(message) => assert_eq!(message, "FFmpeg failed: "),
        Step::Retry(..) => panic!("retried thrice"),
        Step::Done(path) => panic!("done: {}", path),
    }
}

#[test]
fn software_failure_ends_the_export() {
    match after_attempt(1, "high", &None, Outcome::Failed(Failure::Exit), "Invalid argument", "out.mp4") {
        Step::GiveUp(message) => assert_eq!(message, "FFmpeg failed: Invalid argument"),
        Step::Retry(..) => panic!("retried without a hardware encoder"),
        Step::Done(path) => panic!("done: {}", path),
    }
}

#[test]
fn encoder_that_cannot_be_run_ends_the_export() {
    let hw = Some(String::from("h264_qsv"));
    match after_attempt(1, "high", &hw, Outcome::Failed(Failure::NotRun), "No such file or directory", "out.mp4") {
        Step::GiveUp(message) => {
            assert_eq!(message, "Failed to execute FFmpeg: No such file or directory")
        }
        Step::Retry(..) => panic!("retried an encoder that cannot be run"),
        Step::Done(path) => panic!("done: {}", path),
    }
}

#[test]
fn success_ends_the_export_with_the_output_path() {
    let hw = Some(String::from("h264_nvenc"));
    for attempt in [1, 2] {
        match after_attempt(attempt, "high", &hw, Outcome::Success, "", "C:/out.mp4") {
            Step::Done(path) => assert_eq!(path, "C:/out.mp4"),
            _ => panic!("a success did not end the export"),
        }
    }
    match after_attempt(1, "low", &None, Outcome::Success, "warnings", "") {
        Step::Done(path) => assert_eq!(path, ""),
        _ => panic!("a success did not end the export"),
    }
}

fn plan() -> FilterPlan {
    FilterPlan { filter: String::from("FILTER"), output: String::from("[final]") }
}

#[test]
fn export_arguments_for_the_software_encoder() {
    let trim = Trim { start: 1_500_000, end: 4_000_000 };
    assert_eq!(
        export_args("in.mp4", "out.mp4", &trim, &plan(), "libx264", "slower", "16"),
        vec![
            "-y", "-ss", "1.500", "-i", "in.mp4", "-t", "2.500", "-filter_complex", "FILTER",
            "-map", "[final]", "-c:v", "libx264", "-preset", "slower", "-crf", "16", "-r", "60",
            "-pix_fmt", "yuv420p", "-c:a", "aac", "-b:a", "192k", "out.mp4",
        ]
    );
}

#[test]
fn export_arguments_for_a_hardware_encoder() {
    let trim = Trim { start: 0, end: 10_000_000 };
    assert_eq!(
        export_args("in.mp4", "out.mp4", &trim, &plan(), "h264_nvenc", "p7", "18"),
        vec![
            "-y", "-ss", "0.000", "-i", "in.mp4", "-t", "10.000", "-filter_complex", "FILTER",
            "-map", "[final]", "-c:v", "h264_nvenc", "-preset", "p7", "-qp", "18", "-rc", "constqp",
            "-r", "60", "-pix_fmt", "yuv420p", "-c:a", "aac", "-b:a", "192k", "out.mp4",
        ]
    );
}

#[test]
fn trim_arguments_copy_the_streams() {
    let trim = Trim { start: 250_000, end: 1_000_501 };
    assert_eq!(
        trim_video_args("a b.mp4", "c.mp4", &trim),
        vec!["-y", "-i", "a b.mp4", "-ss", "0.250", "-t", "0.751", "-c", "copy", "c.mp4"]
    );
}

#[test]
fn recording_arguments_declare_size_format_and_rate() {
    assert_eq!(
        recording_encoder_args(1920, 1080, "29.97", "rec.mp4"),
        vec![
            "-f", "rawvideo", "-pixel_format", "bgra", "-video_size", "1920x1080", "-framerate",
            "29.97", "-i", "-", "-c:v", "libx264", "-pix_fmt", "yuv420p", "-preset", "ultrafast",
            "-r", "29.97", "-y", "rec.mp4",
        ]
    );
    assert_eq!(recording_encoder_args(u32::MAX, 0, "", "")[5], "4294967295x0");
}
