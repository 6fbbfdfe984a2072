use visualcoder::cursor::CursorSample;
use visualcoder::export::{
    base_scale, compile_filter, escape_filter_path, overlay_filter, pan_shift,
    scale_sum_expression,
    shift_sum_expression, CursorImage, ExportError, ExportRequest,
};
use visualcoder::keyframes::{Keyframe, KeyframeTable};
use visualcoder::pan::Axis;
use visualcoder::timeline::{Easing, Trim, ZoomEffect};
use visualcoder::zoomtext::{push_confined, push_shift, push_zoom, zoom_expression};

const WHOLE: Trim = Trim { start: 0, end: 10_000_000 };

fn quick_zoom() -> ZoomEffect {
    ZoomEffect {
        start_time: 2_000_000,
        end_time: 5_000_000,
        scale: 2_000_000,
        target_x: 300_000,
        target_y: 700_000,
        easing: Easing::Quick,
    }
}

const QUICK_ZOOM_TEXT: &str = "if(between(t,1.8,5),if(lt(t,2),1+1*pow((t-1.8)/0.2,2)*(3-2*(t-1.8)/0.2),if(lt(t,4.8),2,1+1*pow((5-t)/0.2,2)*(3-2*(5-t)/0.2))),1)";

fn request(effects: Vec<ZoomEffect>) -> ExportRequest {
    ExportRequest {
        trim: WHOLE,
        effects,
        cursor_log: Vec::new(),
        cursor_image: None,
        width: 1920,
        height: 1080,
        background: String::from("1a1a2e"),
        padding: 5_000_000,
        target_width: 1920,
        target_height: 1080,
    }
}

#[test]
fn base_scale_is_one_less_twice_the_padding() {
    assert_eq!(base_scale(5_000_000), 900_000);
    assert_eq!(base_scale(10_000_000), 800_000);
    assert_eq!(base_scale(0), 1_000_000);
    assert_eq!(base_scale(12_345_678), 753_087);
    assert_eq!(base_scale(-5_000_000), 1_100_000);
    assert_eq!(base_scale(49), 1_000_000);
    assert_eq!(base_scale(-1), 1_000_001);
    assert_eq!(base_scale(i64::MIN), 1_000_000 + 184_467_440_737_095_517);
}

#[test]
fn zoom_expression_has_three_phases_inside_its_window() {
    assert_eq!(zoom_expression(&quick_zoom(), &WHOLE), QUICK_ZOOM_TEXT);
}

#[test]
fn zoom_expression_before_the_trim_start_has_negative_times() {
    let trim = Trim { start: 1_900_000, end: 10_000_000 };
    let text = zoom_expression(&quick_zoom(), &trim);
    assert!(text.starts_with("if(between(t,-0.1,3.1),if(lt(t,0.1),1+1*pow((t--0.1)/0.2,2)"));
}

#[test]
fn scale_sum_is_one_without_effects_and_a_bounded_sum_with_them() {
    assert_eq!(scale_sum_expression(&Vec::new(), &WHOLE), "1");
    let mut invalid = quick_zoom();
    invalid.scale = 999_999;
    assert_eq!(scale_sum_expression(&vec![invalid], &WHOLE), "1");
    let one = format!("if(between(t,1.8,5),{},0)", QUICK_ZOOM_TEXT);
    assert_eq!(scale_sum_expression(&vec![quick_zoom()], &WHOLE), format!("max(1,{})", one));
    assert_eq!(
        scale_sum_expression(&vec![invalid, quick_zoom(), invalid, quick_zoom()], &WHOLE),
        format!("max(1,{}+{})", one, one)
    );
}

#[test]
fn shift_centres_the_clamped_target() {
    assert_eq!(
        shift_sum_expression(&Vec::new(), &WHOLE, &Vec::new(), 1920, 900_000, Axis::Horizontal),
        "0"
    );
    let x = shift_sum_expression(&vec![quick_zoom()], &WHOLE, &Vec::new(), 1920, 900_000, Axis::Horizontal);
    assert_eq!(
        x,
        format!(
            "if(between(t,1.8,5),(0.5-(0.3000))*1920*0.9*({}),0)",
            QUICK_ZOOM_TEXT
        )
    );
    let y = shift_sum_expression(&vec![quick_zoom()], &WHOLE, &Vec::new(), 1080, 900_000, Axis::Vertical);
    assert_eq!(
        y,
        format!(
            "if(between(t,1.8,5),(0.5-(0.7000))*1080*0.9*({}),0)",
            QUICK_ZOOM_TEXT
        )
    );
}

#[test]
fn shift_follows_the_cursor_log_during_the_hold() {
    let mut fx = quick_zoom();
    fx.end_time = 2_250_000;
    fx.easing = Easing::Rapid;
    fx.target_x = 500_000;
    // hold from 2.0 s to 2.15 s: nine ticks
    let log = vec![
        CursorSample { timestamp_ms: 2000, x: 900_000, y: 500_000 },
        CursorSample { timestamp_ms: 2150, x: 900_000, y: 500_000 },
    ];
    let x = shift_sum_expression(&vec![fx], &WHOLE, &log, 1920, 900_000, Axis::Horizontal);
    assert!(x.starts_with(
        "if(between(t,1.9,2.25),(0.5-(if(lt(t,2.0000),0.50,if(lt(t,2.0167),0.50+0.0360*min(1,max(0,(t-2.0000)/0.0167)),"
    ));
    assert!(x.ends_with("))*1920*0.9*(if(between(t,1.9,2.25),if(lt(t,2),1+1*pow((t-1.9)/0.1,2)*(3-2*(t-1.9)/0.1),if(lt(t,2.15),2,1+1*pow((2.25-t)/0.1,2)*(3-2*(2.25-t)/0.1))),1)),0)"));
    // ten keyframes make ten conditionals, and the zoom has two more
    assert_eq!(x.matches("if(lt(t,").count(), 10 + 2);
}

#[test]
fn filter_without_effects_scales_by_the_base_scale_alone() {
    let plan = compile_filter(&request(Vec::new())).unwrap();
    assert_eq!(
        plan.filter,
        "color=c=0x1a1a2e:s=1920x1080:d=10[bg];[0:v]scale=w='iw*0.9':h='ih*0.9':flags=lanczos[vid];[bg][vid]overlay=x='(1920-overlay_w)/2':y='(1080-overlay_h)/2'[final]"
    );
    assert_eq!(plan.output, "[final]");
}

#[test]
fn filter_with_effects_scales_and_shifts_by_expressions() {
    let plan = compile_filter(&request(vec![quick_zoom()])).unwrap();
    let zoom = format!("max(1,if(between(t,1.8,5),{},0))", QUICK_ZOOM_TEXT);
    let x = format!(
        "if(between(t,1.8,5),(0.5-(0.3000))*1920*0.9*({}),0)",
        QUICK_ZOOM_TEXT
    );
    let y = format!(
        "if(between(t,1.8,5),(0.5-(0.7000))*1080*0.9*({}),0)",
        QUICK_ZOOM_TEXT
    );
    assert_eq!(
        plan.filter,
        format!(
            "color=c=0x1a1a2e:s=1920x1080:d=10[bg];[0:v]scale=w='iw*0.9*({zoom})':h='ih*0.9*({zoom})':eval=frame:flags=lanczos[vid];[bg][vid]overlay=x='(1920-overlay_w)/2+({x})':y='(1080-overlay_h)/2+({y})':eval=frame[final]"
        )
    );
}

#[test]
fn filter_with_only_skipped_effects_keeps_the_zoomed_form_at_scale_one() {
    let mut late = quick_zoom();
    late.start_time = 20_000_000;
    late.end_time = 25_000_000;
    let plan = compile_filter(&request(vec![late])).unwrap();
    assert_eq!(
        plan.filter,
        "color=c=0x1a1a2e:s=1920x1080:d=10[bg];[0:v]scale=w='iw*0.9*(1)':h='ih*0.9*(1)':eval=frame:flags=lanczos[vid];[bg][vid]overlay=x='(1920-overlay_w)/2+(0)':y='(1080-overlay_h)/2+(0)':eval=frame[final]"
    );
}

#[test]
fn other_target_size_appends_a_scale_to_it() {
    let mut r = request(Vec::new());
    r.target_width = 1280;
    r.target_height = 720;
    let plan = compile_filter(&r).unwrap();
    assert!(plan.filter.ends_with("'[final];[final]scale=1280:720:flags=lanczos[scaled]"));
    assert_eq!(plan.output, "[scaled]");
    r.target_width = 1920;
    r.target_height = 1081;
    assert_eq!(compile_filter(&r).unwrap().output, "[scaled]");
}

#[test]
fn cursor_is_drawn_onto_the_source_before_it_is_scaled() {
    let mut r = request(Vec::new());
    r.trim = Trim { start: 1_000_000, end: 4_000_000 };
    r.cursor_image = Some(CursorImage { path: String::from("C:\\Temp\\cursor_pointer_32.png"), size: 32 });
    r.cursor_log = vec![
        CursorSample { timestamp_ms: 500, x: 0, y: 0 },
        CursorSample { timestamp_ms: 1000, x: 500_000, y: 500_000 },
        CursorSample { timestamp_ms: 2000, x: 1_000_000, y: 0 },
    ];
    let plan = compile_filter(&r).unwrap();
    assert_eq!(
        plan.filter,
        "movie='C\\:/Temp/cursor_pointer_32.png'[cur];[0:v][cur]overlay=x='if(lt(t,0.0000),944.00,if(lt(t,1.0000),944.00+944.0000*min(1,max(0,(t-0.0000)/1.0000)),1888.00))':y='if(lt(t,0.0000),524.00,if(lt(t,1.0000),524.00+-524.0000*min(1,max(0,(t-0.0000)/1.0000)),0.00))':eval=frame:format=auto[vcur];color=c=0x1a1a2e:s=1920x1080:d=3[bg];[vcur]scale=w='iw*0.9':h='ih*0.9':flags=lanczos[vid];[bg][vid]overlay=x='(1920-overlay_w)/2':y='(1080-overlay_h)/2'[final]"
    );
}

#[test]
fn cursor_never_seen_on_the_trimmed_timeline_is_not_drawn() {
    let mut r = request(Vec::new());
    r.trim = Trim { start: 5_000_000, end: 9_000_000 };
    r.cursor_image = Some(CursorImage { path: String::from("/tmp/c.png"), size: 32 });
    r.cursor_log = vec![CursorSample { timestamp_ms: 4999, x: 0, y: 0 }];
    let plan = compile_filter(&r).unwrap();
    assert!(plan.filter.starts_with("color=c=0x1a1a2e:s=1920x1080:d=4[bg];[0:v]scale"));
    r.cursor_log = Vec::new();
    assert!(compile_filter(&r).unwrap().filter.starts_with("color=c=0x1a1a2e"));
}

#[test]
fn invalid_trim_is_the_one_error() {
    let mut r = request(vec![quick_zoom()]);
    r.trim = Trim { start: 5, end: 4 };
    assert_eq!(compile_filter(&r).err(), Some(ExportError::InvalidTrim));
    r.trim = Trim { start: -1, end: 4 };
    assert_eq!(compile_filter(&r).err(), Some(ExportError::InvalidTrim));
    r.trim = Trim { start: 4, end: 4 };
    assert!(compile_filter(&r).is_ok());
}

#[test]
fn path_escaping_turns_backslashes_and_guards_colons() {
    assert_eq!(escape_filter_path(""), "");
    assert_eq!(escape_filter_path("/tmp/cursor.png"), "/tmp/cursor.png");
    assert_eq!(escape_filter_path("C:\\Users\\me\\a:b.png"), "C\\:/Users/me/a\\:b.png");
    assert_eq!(escape_filter_path("\\\\:é:\u{1F600}"), "//\\:é\\:\u{1F600}");
}

#[test]
fn overlay_filter_names_image_and_both_tracks() {
    let x = KeyframeTable::from_samples(&vec![Keyframe { t: 0, v: 1_000_000 }]);
    let y = KeyframeTable::new();
    assert_eq!(
        overlay_filter("a:b", &x, &y),
        "movie='a\\:b'[cur];[0:v][cur]overlay=x='1.00':y='0':eval=frame:format=auto[vcur]"
    );
}

#[test]
fn shift_is_half_less_the_point_times_extent_base_and_zoom() {
    assert_eq!(pan_shift(300_000, 1920, 900_000, 2_000_000), Some(691_200_000));
    assert_eq!(pan_shift(700_000, 1080, 900_000, 2_000_000), Some(-388_800_000));
    assert_eq!(pan_shift(500_000, 1920, 900_000, 2_000_000), Some(0));
    assert_eq!(pan_shift(0, 1, 1_000_000, 1_000_000), Some(500_000));
    // rounded down
    assert_eq!(pan_shift(499_999, 1, 1, 1), Some(0));
    assert_eq!(pan_shift(500_001, 1, 1, 1), Some(-1));
    assert_eq!(pan_shift(0, i32::MIN, -1_000_000_000, 1_000_000_000_000), Some(1_073_741_824_000_000_000_000_000));
    assert_eq!(pan_shift(-1, 1920, 900_000, 2_000_000), None);
    assert_eq!(pan_shift(1_000_001, 1920, 900_000, 2_000_000), None);
    assert_eq!(pan_shift(0, 1920, 1_000_000_001, 2_000_000), None);
    assert_eq!(pan_shift(0, 1920, 900_000, -1), None);
    assert_eq!(pan_shift(0, 1920, 900_000, 1_000_000_000_001), None);
}

#[test]
fn zoom_texts_are_appended_to_what_is_there() {
    let fx = quick_zoom();
    let mut zoom = String::from("z=");
    push_zoom(&mut zoom, &fx, &WHOLE);
    assert_eq!(zoom, format!("z={}", QUICK_ZOOM_TEXT));
    let mut confined = String::from("c=");
    push_confined(&mut confined, &fx, &WHOLE, "INNER");
    assert_eq!(confined, "c=if(between(t,1.8,5),INNER,0)");
    let mut shift = String::from("s=");
    push_shift(&mut shift, &fx, &WHOLE, "PAN", -7, -1_250_000);
    assert_eq!(shift, format!("s=(0.5-(PAN))*-7*-1.25*({})", QUICK_ZOOM_TEXT));
}

#[test]
fn cursor_at_the_middle_of_the_frame_is_drawn_half_its_image_off_the_middle() {
    let mut r = request(Vec::new());
    r.cursor_image = Some(CursorImage { path: String::from("/tmp/cursor.png"), size: 32 });
    r.cursor_log = vec![CursorSample { timestamp_ms: 1000, x: 500_000, y: 500_000 }];
    let plan = compile_filter(&r).unwrap();
    assert!(plan.filter.starts_with(
        "movie='/tmp/cursor.png'[cur];[0:v][cur]overlay=x='944.00':y='524.00':eval=frame:format=auto[vcur];"
    ));
    // a zoom does not move the cursor on the source
    r.effects = vec![quick_zoom()];
    assert!(compile_filter(&r).unwrap().filter.starts_with(
        "movie='/tmp/cursor.png'[cur];[0:v][cur]overlay=x='944.00':y='524.00':eval=frame:format=auto[vcur];"
    ));
}
