use ddp2ass::canvas::{Canvas, CanvasConfig};
use ddp2ass::dandan::{CommentItem, Dandan};
use ddp2ass::danmu::{Danmu, DanmuType};
use ddp2ass::drawable::DrawEffect;
use ddp2ass::AssCreator;

fn test_config() -> CanvasConfig {
    CanvasConfig {
        width: 1280,
        height: 720,
        font: "黑体".to_string(),
        font_size: 25,
        width_ratio_milli: 1200,
        horizontal_gap_milli: 20000,
        duration_cs: 1500,
        lane_size: 32,
        float_percent_milli: 400,
        opacity: 0x4c,
        bottom_percent_milli: 300,
        outline_tenths: 8,
        bold: 0,
        time_offset_cs: 0,
    }
}

fn item(cid: u64, p: &str, m: &str) -> CommentItem {
    CommentItem {
        cid,
        p: p.to_string(),
        m: m.to_string(),
    }
}

fn reference_comments() -> Vec<CommentItem> {
    vec![
        item(1684989836, "0.00,1,16777215,[Gamer]bill88919", "頭香"),
        item(1684989837, "0.00,1,16777215,[Gamer]mia105067", ":)"),
        item(1684989838, "0.00,1,16777215,[Gamer]renwendy", "簽"),
        item(1684989839, "0.00,1,16777215,[Gamer]s39101149", "簽"),
        item(1684989840, "0.00,1,16777215,[Gamer]huryan951006", "我已經等三年了！"),
        item(1684989841, "0.50,1,16777215,[Gamer]Vigar09995", "22:00馬上簽到 2023/4/3"),
        item(1684989842, "0.50,1,16777215,[Gamer]thomas627", "Kuma~~~"),
        item(
            1684989843,
            "0.60,1,16777215,[Gamer]ppleo8888",
            "2023/04/16直接看完第一季過來 真的太爽啦",
        ),
    ]
}

#[test]
fn test_convert() {
    let (count, ass) = Dandan::json_to_ass(
        reference_comments(),
        None,
        "test".to_string(),
        None,
        test_config(),
    )
    .unwrap();

    assert_eq!(count, 8);
    assert_eq!(
        ass,
        "[Script Info]\n; Script generated by danmu2ass\nTitle: test\nScript Updated By: danmu2ass (https://github.com/gwy15/danmu2ass)\nScriptType: v4.00+\nPlayResX: 1280\nPlayResY: 720\nAspect Ratio: 1280:720\nCollisions: Normal\nWrapStyle: 2\nScaledBorderAndShadow: yes\nYCbCr Matrix: TV.601\n\n\n[V4+ Styles]\nFormat: Name, Fontname, Fontsize, PrimaryColour, SecondaryColour, OutlineColour, BackColour, Bold, Italic, Underline, StrikeOut, ScaleX, ScaleY, Spacing, Angle, BorderStyle, Outline, Shadow, Alignment, MarginL, MarginR, MarginV, Encoding\nStyle: Float,黑体,25,&H4cFFFFFF,&H00FFFFFF,&H4c000000,&H00000000,0, 0, 0, 0, 100, 100, 0.00, 0.00, 1, 0.8, 0, 7, 0, 0, 0, 1\nStyle: Bottom,黑体,25,&H4cFFFFFF,&H00FFFFFF,&H4c000000,&H00000000,0, 0, 0, 0, 100, 100, 0.00, 0.00, 1, 0.8, 0, 7, 0, 0, 0, 1\nStyle: Top,黑体,25,&H4cFFFFFF,&H00FFFFFF,&H4c000000,&H00000000,0, 0, 0, 0, 100, 100, 0.00, 0.00, 1, 0.8, 0, 7, 0, 0, 0, 1\n\n[Events]\nFormat: Layer, Start, End, Style, Name, MarginL, MarginR, MarginV, Effect, Text\nDialogue: 2,0:00:00.00,0:00:15.00,Float,,0,0,0,,{\\move(1280, 0, -60, 0)\\c&Hffffff&}頭香\nDialogue: 2,0:00:00.00,0:00:15.00,Float,,0,0,0,,{\\move(1280, 32, -39, 32)\\c&Hffffff&}:)\nDialogue: 2,0:00:00.00,0:00:15.00,Float,,0,0,0,,{\\move(1280, 64, -30, 64)\\c&Hffffff&}簽\nDialogue: 2,0:00:00.00,0:00:15.00,Float,,0,0,0,,{\\move(1280, 96, -30, 96)\\c&Hffffff&}簽\nDialogue: 2,0:00:00.00,0:00:15.00,Float,,0,0,0,,{\\move(1280, 128, -240, 128)\\c&Hffffff&}我已經等三年了！\nDialogue: 2,0:00:00.50,0:00:15.50,Float,,0,0,0,,{\\move(1280, 160, -399, 160)\\c&Hffffff&}22:00馬上簽到 2023/4/3\nDialogue: 2,0:00:00.50,0:00:15.50,Float,,0,0,0,,{\\move(1280, 192, -139, 192)\\c&Hffffff&}Kuma~~~\nDialogue: 2,0:00:00.60,0:00:15.60,Float,,0,0,0,,{\\move(1280, 224, -639, 224)\\c&Hffffff&}2023/04/16直接看完第一季過來 真的太爽啦\n"
    );
}

#[test]
fn convert_twice_is_byte_identical() {
    let a = Dandan::json_to_ass(
        reference_comments(),
        None,
        "test".to_string(),
        None,
        test_config(),
    )
    .unwrap();
    let b = Dandan::json_to_ass(
        reference_comments(),
        None,
        "test".to_string(),
        None,
        test_config(),
    )
    .unwrap();
    assert_eq!(a.0, b.0);
    assert_eq!(a.1, b.1);
}

#[test]
fn unsorted_input_is_sorted_stably() {
    // same comments handed over in reverse arrival order: the engine must
    // re-order them, and equal timestamps keep their input order
    let comments = vec![
        item(2, "0.50,1,16777215,u", "bb"),
        item(1, "0.00,1,16777215,u", "aa"),
        item(3, "0.00,1,16777215,u", "cc"),
    ];
    let (count, ass) = Dandan::json_to_ass(
        comments,
        None,
        "t".to_string(),
        None,
        test_config(),
    )
    .unwrap();
    assert_eq!(count, 3);
    let events: Vec<&str> = ass.lines().filter(|l| l.starts_with("Dialogue:")).collect();
    assert!(events[0].ends_with("aa"));
    assert!(events[1].ends_with("cc"));
    assert!(events[2].ends_with("bb"));
    assert!(events[0].contains("0:00:00.00"));
    assert!(events[2].contains("0:00:00.50"));
}

#[test]
fn denylist_filters_comments() {
    let comments = vec![
        item(1, "0.00,1,16777215,u", "hello world"),
        item(2, "0.10,1,16777215,u", "clean"),
    ];
    let deny = Some(vec!["world".to_string()]);
    let (count, ass) =
        Dandan::json_to_ass(comments, None, "t".to_string(), deny, test_config()).unwrap();
    assert_eq!(count, 1);
    assert!(!ass.contains("hello world"));
    assert!(ass.contains("clean"));
}

#[test]
fn zero_lane_budget_drops_everything() {
    let mut config = test_config();
    config.float_percent_milli = 0;
    let comments = vec![item(1, "0.00,1,16777215,u", "dropped")];
    let (count, ass) =
        Dandan::json_to_ass(comments, None, "t".to_string(), None, config).unwrap();
    assert_eq!(count, 0);
    assert!(!ass.contains("dropped"));
}

#[test]
fn bad_comment_fails_whole_batch() {
    let comments = vec![
        item(1, "0.00,1,16777215,u", "fine"),
        item(2, "oops", "broken"),
    ];
    let r = Dandan::json_to_ass(comments, None, "t".to_string(), None, test_config());
    assert_eq!(r.unwrap_err(), ddp2ass::parse::ParseError::Fields);
}

#[test]
fn unsupported_mode_aborts_conversion() {
    let comments = vec![item(1, "0.00,9,16777215,u", "x")];
    let r = Dandan::json_to_ass(comments, None, "t".to_string(), None, test_config());
    assert_eq!(r.unwrap_err(), ddp2ass::parse::ParseError::UnsupportedMode(9));
}

#[test]
fn merge_appends_external_event_lines() {
    let external = "[Script Info]\nTitle: other\n\n[Events]\nFormat: Layer, Start, End, Style, Name, MarginL, MarginR, MarginV, Effect, Text\nDialogue: 0,0:00:01.00,0:00:02.00,Default,,0,0,0,,hello\nComment: not an event\nDialogue: 0,0:00:03.00,0:00:04.00,Default,,0,0,0,,again\n";
    let comments = vec![item(1, "0.00,1,16777215,u", "mine")];
    let (_, ass) = Dandan::json_to_ass(
        comments,
        Some(external.to_string()),
        "t".to_string(),
        None,
        test_config(),
    )
    .unwrap();
    assert!(ass.ends_with(
        "Dialogue: 0,0:00:01.00,0:00:02.00,Default,,0,0,0,,hello\nDialogue: 0,0:00:03.00,0:00:04.00,Default,,0,0,0,,again\n"
    ));
    assert!(!ass.contains("Comment: not an event"));
    assert!(!ass.contains("Title: other"));
}

#[test]
fn merge_of_empty_document_changes_nothing() {
    let base = Dandan::json_to_ass(
        reference_comments(),
        None,
        "t".to_string(),
        None,
        test_config(),
    )
    .unwrap();
    let merged = Dandan::json_to_ass(
        reference_comments(),
        Some(String::new()),
        "t".to_string(),
        None,
        test_config(),
    )
    .unwrap();
    assert_eq!(base.1, merged.1);
}

#[test]
fn dialogue_lines_outside_events_section_are_ignored() {
    let external = "Dialogue: 0,0:00:01.00,0:00:02.00,Default,,0,0,0,,stray\n";
    let base = Dandan::json_to_ass(
        reference_comments(),
        None,
        "t".to_string(),
        None,
        test_config(),
    )
    .unwrap();
    let merged = Dandan::json_to_ass(
        reference_comments(),
        Some(external.to_string()),
        "t".to_string(),
        None,
        test_config(),
    )
    .unwrap();
    assert_eq!(base.1, merged.1);
}

#[test]
fn fixed_comments_center_and_stack() {
    let comments = vec![
        item(1, "0.00,5,16777215,u", "簽"),
        item(2, "0.00,5,16777215,u", "簽"),
        item(3, "0.00,4,16777215,u", "簽"),
    ];
    let (count, ass) =
        Dandan::json_to_ass(comments, None, "t".to_string(), None, test_config()).unwrap();
    assert_eq!(count, 3);
    // two top-fixed comments at the same instant take lanes 0 and 1,
    // centered at x = (1280 - 30) / 2
    assert!(ass.contains("Dialogue: 2,0:00:00.00,0:00:15.00,Top,,0,0,0,,{\\pos(625, 0)\\c&Hffffff&}簽\n"));
    assert!(ass.contains("Dialogue: 2,0:00:00.00,0:00:15.00,Top,,0,0,0,,{\\pos(625, 32)\\c&Hffffff&}簽\n"));
    // the bottom-fixed lane counts up from the bottom edge
    assert!(ass.contains("Dialogue: 2,0:00:00.00,0:00:15.00,Bottom,,0,0,0,,{\\pos(625, 688)\\c&Hffffff&}簽\n"));
}

#[test]
fn fixed_lane_is_reused_after_exposure_ends() {
    let comments = vec![
        item(1, "0.00,5,16777215,u", "one"),
        item(2, "15.00,5,16777215,u", "two"),
    ];
    let (count, ass) =
        Dandan::json_to_ass(comments, None, "t".to_string(), None, test_config()).unwrap();
    assert_eq!(count, 2);
    // both sit in lane 0 (y = 0): the first has left when the second comes
    let top_lines: Vec<&str> = ass
        .lines()
        .filter(|l| l.starts_with("Dialogue:") && l.contains("Top"))
        .collect();
    assert_eq!(top_lines.len(), 2);
    assert!(top_lines[0].contains(", 0)"));
    assert!(top_lines[1].contains(", 0)"));
    assert!(top_lines[1].contains("0:00:15.00,0:00:30.00"));
}

#[test]
fn scroll_lane_is_reused_when_no_catch_up() {
    let comments = vec![
        item(1, "0.00,1,16777215,u", "我已經等三年了！"),
        item(2, "6.00,1,16777215,u", ":)"),
    ];
    let (count, ass) =
        Dandan::json_to_ass(comments, None, "t".to_string(), None, test_config()).unwrap();
    assert_eq!(count, 2);
    // the second comment fits behind the first in lane 0
    assert!(ass.contains("{\\move(1280, 0, -240, 0)"));
    assert!(ass.contains("Dialogue: 2,0:00:06.00,0:00:21.00,Float,,0,0,0,,{\\move(1280, 0, -39, 0)\\c&Hffffff&}:)\n"));
}

#[test]
fn time_offset_shifts_and_clamps() {
    let mut config = test_config();
    config.time_offset_cs = -100;
    let comments = vec![item(1, "0.00,1,16777215,u", "早")];
    let (_, ass) = Dandan::json_to_ass(comments, None, "t".to_string(), None, config).unwrap();
    // a negative start clamps to zero in the timestamp field; the end keeps
    // the shifted value
    assert!(ass.contains("Dialogue: 2,0:00:00.00,0:00:14.00,Float"));
}

#[test]
fn text_control_characters_are_escaped() {
    let comments = vec![item(1, "0.00,1,16777215,u", "a\nb{c}d\re")];
    let (_, ass) = Dandan::json_to_ass(comments, None, "t".to_string(), None, test_config()).unwrap();
    assert!(ass.contains("a\\Nb｛c｝de\n"));
}

#[test]
fn canvas_schedules_and_serializer_writes_one_line() {
    let config = test_config();
    let mut ass = AssCreator::new("unit", &config);
    let preamble_len = ass.buf.len();
    let mut canvas: Canvas = config.canvas();
    let drawable = canvas
        .draw(Danmu {
            content: "頭香".to_string(),
            timeline_cs: 125,
            kind: DanmuType::Float,
            rgb: (255, 0, 0),
        })
        .expect("an empty canvas accepts the first comment");
    assert_eq!(drawable.start_cs, 125);
    assert_eq!(drawable.end_cs, 1625);
    match drawable.effect {
        DrawEffect::Move { start_x, start_y, end_x, end_y } => {
            assert_eq!((start_x, start_y, end_x, end_y), (1280, 0, -60, 0));
        }
        DrawEffect::Pos { .. } => panic!("a scrolling comment moves"),
    }
    ass.write(drawable);
    assert_eq!(
        &ass.buf[preamble_len..],
        "Dialogue: 2,0:00:01.25,0:00:16.25,Float,,0,0,0,,{\\move(1280, 0, -60, 0)\\c&H0000ff&}頭香\n"
    );
}

#[test]
fn colors_are_written_blue_green_red() {
    // 0x123456 -> r = 0x12, g = 0x34, b = 0x56; the override lists b, g, r
    let comments = vec![item(1, "0.00,1,1193046,u", "彩")];
    let (_, ass) = Dandan::json_to_ass(comments, None, "t".to_string(), None, test_config()).unwrap();
    assert!(ass.contains("\\c&H563412&"));
}
