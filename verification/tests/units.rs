use ddp2ass::canvas::CanvasConfig;
use ddp2ass::cli::{input_path_to_list, parse_denylist};
use ddp2ass::danmu::DanmuType;
use ddp2ass::dandan_match::{
    AnimeEpisodeItem, DandanMatch, SearchAnimeEpisodeJson, SearchAnimeJson, SearchEditInput,
    SearchOption,
};
use ddp2ass::fmt::u64_to_string;
use ddp2ass::input_file::InputFile;
use ddp2ass::parse::{ParseError, Position};
use ddp2ass::text::str_chars;
use ddp2ass::util::display_filename;
use ddp2ass::width::measure_cells;

fn cells_of(s: &str) -> u64 {
    measure_cells(&str_chars(s))
}

#[test]
fn width_cells_match_reference_metrics() {
    // full-width characters span a whole em (60 cells)
    assert_eq!(cells_of("頭香"), 120);
    assert_eq!(cells_of("我已經等三年了！"), 480);
    // calibrated half-width classes
    assert_eq!(cells_of(":)"), 78);
    assert_eq!(cells_of("Kuma~~~"), 277);
    assert_eq!(cells_of("22:00馬上簽到 2023/4/3"), 797);
    assert_eq!(cells_of(""), 0);
}

#[test]
fn width_grows_with_appended_fullwidth_text() {
    let shorter = cells_of("abc");
    let longer = cells_of("abc漢");
    assert!(longer > shorter);
}

#[test]
fn parse_position_reads_all_fields() {
    let p = Position::parse("12.34,4,1193046,[Gamer]someone").unwrap();
    assert_eq!(p.timestamp_cs, 1234);
    assert_eq!(p.mode, DanmuType::Bottom);
    assert_eq!(p.color, (0x12, 0x34, 0x56));
}

#[test]
fn parse_position_timestamp_forms() {
    assert_eq!(Position::parse("7,1,0,u").unwrap().timestamp_cs, 700);
    assert_eq!(Position::parse("7.,1,0,u").unwrap().timestamp_cs, 700);
    assert_eq!(Position::parse(".5,1,0,u").unwrap().timestamp_cs, 50);
    assert_eq!(Position::parse("1.239,1,0,u").unwrap().timestamp_cs, 123);
}

#[test]
fn parse_position_error_cases() {
    assert_eq!(Position::parse("nocommas").unwrap_err(), ParseError::Fields);
    assert_eq!(Position::parse("1,2,3").unwrap_err(), ParseError::Fields);
    assert_eq!(Position::parse("0.0,1,-5,u").unwrap_err(), ParseError::Color);
    assert_eq!(Position::parse("0.0,1,,u").unwrap_err(), ParseError::Color);
    assert_eq!(
        Position::parse("0.0,1,9999999999,u").unwrap_err(),
        ParseError::Color
    );
    assert_eq!(Position::parse("x,1,0,u").unwrap_err(), ParseError::Timestamp);
    assert_eq!(Position::parse("1.2.3,1,0,u").unwrap_err(), ParseError::Timestamp);
    assert_eq!(Position::parse(".,1,0,u").unwrap_err(), ParseError::Timestamp);
    assert_eq!(Position::parse("0.0,zz,0,u").unwrap_err(), ParseError::Mode);
    assert_eq!(Position::parse("0.0,300,0,u").unwrap_err(), ParseError::Mode);
    assert_eq!(
        Position::parse("0.0,2,0,u").unwrap_err(),
        ParseError::UnsupportedMode(2)
    );
}

#[test]
fn parse_mode_codes() {
    assert_eq!(Position::parse_mode("1").unwrap(), DanmuType::Float);
    assert_eq!(Position::parse_mode("4").unwrap(), DanmuType::Bottom);
    assert_eq!(Position::parse_mode("5").unwrap(), DanmuType::Top);
    assert_eq!(Position::parse_mode("6").unwrap_err(), ParseError::UnsupportedMode(6));
    assert_eq!(Position::parse_mode("").unwrap_err(), ParseError::Mode);
}

#[test]
fn parse_color_splits_components() {
    assert_eq!(Position::parse_color("16777215").unwrap(), (255, 255, 255));
    assert_eq!(Position::parse_color("0").unwrap(), (0, 0, 0));
    assert_eq!(Position::parse_color("255").unwrap(), (0, 0, 255));
    assert_eq!(Position::parse_color("65280").unwrap(), (0, 255, 0));
    assert_eq!(Position::parse_color("2147483647").unwrap(), (255, 255, 255));
    assert_eq!(Position::parse_color("2147483648").unwrap_err(), ParseError::Color);
}

#[test]
fn decimal_formatting() {
    assert_eq!(u64_to_string(0), "0");
    assert_eq!(u64_to_string(7), "7");
    assert_eq!(u64_to_string(1280), "1280");
    assert_eq!(u64_to_string(18446744073709551615), "18446744073709551615");
}

#[test]
fn lane_budgets_follow_the_height_fractions() {
    let config = CanvasConfig {
        width: 1280,
        height: 720,
        font: "黑体".to_string(),
        font_size: 25,
        width_ratio_milli: 1200,
        horizontal_gap_milli: 20000,
        duration_cs: 1500,
        lane_size: 32,
        float_percent_milli: 400,
        opacity: 0x4c,
        bottom_percent_milli: 300,
        outline_tenths: 8,
        bold: 0,
        time_offset_cs: 0,
    };
    assert!(config.validate());
    assert_eq!(config.float_lane_count(), 9);
    assert_eq!(config.bottom_lane_count(), 6);
    assert_eq!(config.top_lane_count(), 6);
}

#[test]
fn file_hash_is_lowercase_md5_hex() {
    assert_eq!(
        DandanMatch::get_file_hash(&Vec::new()),
        "d41d8cd98f00b204e9800998ecf8427e"
    );
    assert_eq!(
        DandanMatch::get_file_hash(&b"abc".to_vec()),
        "900150983cd24fb0d6963f7d28e17f72"
    );
}

#[test]
fn match_params_collect_the_file_identity() {
    let params = DandanMatch::get_match_params(
        "deadbeef".to_string(),
        "Season 1".to_string(),
        "Episode 2".to_string(),
        123456,
    );
    assert_eq!(params.match_name, "Season 1 Episode 2");
    assert_eq!(params.json.file_name, "Episode 2");
    assert_eq!(params.json.file_hash, "deadbeef");
    assert_eq!(params.json.file_size, "123456");
    assert!(params.json.match_mode.is_none());
}

#[test]
fn search_options_flatten_the_response() {
    let animes = vec![
        SearchAnimeJson {
            anime_id: 10,
            anime_title: "A".to_string(),
            type_: "tv".to_string(),
            type_description: "TV".to_string(),
            episodes: vec![
                SearchAnimeEpisodeJson { episode_id: 101, episode_title: "A1".to_string() },
                SearchAnimeEpisodeJson { episode_id: 102, episode_title: "A2".to_string() },
            ],
        },
        SearchAnimeJson {
            anime_id: 20,
            anime_title: "B".to_string(),
            type_: "tv".to_string(),
            type_description: "TV".to_string(),
            episodes: vec![SearchAnimeEpisodeJson {
                episode_id: 201,
                episode_title: "B1".to_string(),
            }],
        },
    ];
    let options = DandanMatch::search_options(&animes);
    assert_eq!(options.len(), 4);
    let texts: Vec<String> = options.iter().map(|o| o.to_text()).collect();
    assert_eq!(texts, vec!["A A1", "A A2", "B B1", "Edit Search name"]);
}

#[test]
fn search_option_text() {
    let edit = SearchOption::SearchEditInput(SearchEditInput {});
    assert_eq!(edit.to_text(), "Edit Search name");
    let anime = SearchOption::SearchAnimeOption(AnimeEpisodeItem {
        anime_id: 1,
        anime_title: "Title".to_string(),
        episode_id: 2,
        episode_title: "Ep 1".to_string(),
    });
    assert_eq!(anime.to_text(), "Title Ep 1");
}

#[test]
fn display_filename_underlines_the_name() {
    assert_eq!(
        display_filename(&"videos/show.mp4".to_string()),
        "\u{1b}[4mshow.mp4\u{1b}[0m"
    );
    // a path without a usable file name is shown as it is
    assert_eq!(display_filename(&"videos/".to_string()), "videos/");
    assert_eq!(display_filename(&"..".to_string()), "..");
}

#[test]
fn input_file_remembers_and_logs() {
    let f = InputFile::from(&"/tmp/a.mkv".to_string());
    assert_eq!(f.path, "/tmp/a.mkv");
    assert_eq!(f.display_filename(), "\u{1b}[4ma.mkv\u{1b}[0m");
    assert_eq!(f.log("done"), "\u{1b}[4ma.mkv\u{1b}[0m done");
}

#[test]
fn denylist_lines_are_trimmed_and_filtered() {
    let list = parse_denylist("  spam \n\nad\u{3000}\n\t\nlast");
    assert_eq!(
        list,
        vec!["spam".to_string(), "ad".to_string(), "last".to_string()]
    );
    assert!(parse_denylist("").is_empty());
    assert!(parse_denylist(" \n \n").is_empty());
}

#[test]
fn input_path_to_list_filters_videos() {
    let single = input_path_to_list("film.mkv".to_string(), None);
    assert_eq!(single, vec!["film.mkv".to_string()]);

    let listing = vec![
        "a.mp4".to_string(),
        "notes.txt".to_string(),
        "b.webm".to_string(),
        "c.ass".to_string(),
    ];
    let filtered = input_path_to_list(".".to_string(), Some(listing));
    assert_eq!(filtered, vec!["a.mp4".to_string(), "b.webm".to_string()]);
}
