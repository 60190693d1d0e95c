use liplayerpro::app::App;
use liplayerpro::config::UiConfig;
use liplayerpro::engine::rate_from_probe_output;
use liplayerpro::library::is_audio_file;
use liplayerpro::textnum::{chars_of, decimal_string, hex_pair, parse_u32};
use liplayerpro::types::Key;
use liplayerpro::types::{Categories, Settings, View};

fn parse(s: &str) -> Option<u32> {
    let cs: Vec<char> = s.chars().collect();
    parse_u32(&cs)
}

#[test]
fn parse_u32_reads_plain_digits() {
    assert_eq!(parse("44100"), Some(44100));
    assert_eq!(parse("0"), Some(0));
    assert_eq!(parse("007"), Some(7));
}

#[test]
fn parse_u32_accepts_a_plus_sign() {
    assert_eq!(parse("+7"), Some(7));
    assert_eq!(parse("+"), None);
}

#[test]
fn parse_u32_refuses_other_text() {
    assert_eq!(parse(""), None);
    assert_eq!(parse("-1"), None);
    assert_eq!(parse("12a"), None);
    assert_eq!(parse(" 12"), None);
}

#[test]
fn parse_u32_limits() {
    assert_eq!(parse("4294967295"), Some(u32::MAX));
    assert_eq!(parse("4294967296"), None);
    assert_eq!(parse("99999999999999999999x"), None);
}

#[test]
fn parse_u32_agrees_with_std() {
    for s in ["1", "+12", "-3", "", "+", "65535", "4294967296", "1a", "٣"] {
        assert_eq!(parse(s), s.parse::<u32>().ok(), "{}", s);
    }
}

#[test]
fn decimal_string_writes_numbers() {
    assert_eq!(decimal_string(0), "0");
    assert_eq!(decimal_string(7), "7");
    assert_eq!(decimal_string(1234), "1234");
    assert_eq!(decimal_string(u64::MAX), u64::MAX.to_string());
}

#[test]
fn decimal_string_reads_back() {
    for n in [0u32, 9, 10, 99, 100, 44100, u32::MAX] {
        let text = decimal_string(n as u64);
        assert_eq!(parse(&text), Some(n));
    }
}

#[test]
fn hex_pair_reads_bytes() {
    assert_eq!(hex_pair(b'f', b'f'), Some(255));
    assert_eq!(hex_pair(b'1', b'A'), Some(26));
    assert_eq!(hex_pair(b'+', b'f'), Some(15));
    assert_eq!(hex_pair(b'g', b'0'), None);
    assert_eq!(hex_pair(b'-', b'1'), None);
}

#[test]
fn hex_pair_agrees_with_std() {
    for s in ["00", "7f", "FF", "+a", "-1", "g1", "1 ", "aB"] {
        let b = s.as_bytes();
        assert_eq!(hex_pair(b[0], b[1]), u8::from_str_radix(s, 16).ok(), "{}", s);
    }
}

#[test]
fn chars_of_lists_characters() {
    assert_eq!(chars_of("a歌b"), vec!['a', '歌', 'b']);
    assert_eq!(chars_of(""), Vec::<char>::new());
}

#[test]
fn text_wrappers_change_their_argument() {
    assert_eq!(rate_from_probe_output(b"  48000\n"), 48000);
    assert_eq!(rate_from_probe_output(&[0xff, b'4', b'8']), 44100);
    assert!(is_audio_file("/music/A.FLAC"));
    let mut app = App::new(UiConfig { fps: 30 }, vec![]);
    app.handle_key(Key::Char('f'), false);
    app.handle_key(Key::Char('a'), false);
    app.handle_key(Key::Char('b'), false);
    assert_eq!(app.search_buf, "ab");
    app.handle_key(Key::Backspace, false);
    assert_eq!(app.search_buf, "a");
    app.handle_key(Key::Backspace, false);
    app.handle_key(Key::Backspace, false);
    assert_eq!(app.search_buf, "");
}

#[test]
fn display_name_of_each_view() {
    assert_eq!(View::Home.display_name(), "主菜单");
    assert_eq!(View::AllTracks.display_name(), "所有曲目");
    assert_eq!(View::Playlist.display_name(), "播放列表");
    assert_eq!(View::CategoriesMenu.display_name(), "媒体分类");
    assert_eq!(View::CategoryList(Categories::AlbumArtist).display_name(), "歌曲分类");
    assert_eq!(View::CategoryList(Categories::Album).display_name(), "专辑");
    assert_eq!(View::CategoryList(Categories::Genre).display_name(), "流派");
    assert_eq!(View::CategoryList(Categories::SampleRate).display_name(), "采样率");
    assert_eq!(View::CategoryList(Categories::BitRate).display_name(), "比特率");
    assert_eq!(View::CategoryList(Categories::BitDepth).display_name(), "位深");
    assert_eq!(View::SettingsMenu.display_name(), "系统设置");
    assert_eq!(View::SettingsDetail(Settings::SelectOutputDevice).display_name(), "选择输出设备");
    assert_eq!(View::SettingsDetail(Settings::Helps).display_name(), "帮助");
}

#[test]
fn display_name_of_category_tracks_names_the_value() {
    let v = View::CategoryTracks(Categories::Album, "Kind of Blue".to_string());
    assert_eq!(v.display_name(), "正在查看: Kind of Blue");
}

#[test]
fn screen_titles_are_distinct_but_for_track_screens_of_one_value() {
    let views = vec![
        View::Home,
        View::AllTracks,
        View::Playlist,
        View::CategoriesMenu,
        View::CategoryList(Categories::AlbumArtist),
        View::CategoryList(Categories::Album),
        View::CategoryList(Categories::Genre),
        View::CategoryList(Categories::SampleRate),
        View::CategoryList(Categories::BitRate),
        View::CategoryList(Categories::BitDepth),
        View::CategoryTracks(Categories::Album, "X".to_string()),
        View::SettingsMenu,
        View::SettingsDetail(Settings::SelectOutputDevice),
        View::SettingsDetail(Settings::Helps),
    ];
    for (i, a) in views.iter().enumerate() {
        assert!(!a.display_name().is_empty());
        for (j, b) in views.iter().enumerate() {
            assert_eq!(a.display_name() == b.display_name(), i == j);
        }
    }
    let t1 = View::CategoryTracks(Categories::Album, "X".to_string());
    let t2 = View::CategoryTracks(Categories::Genre, "X".to_string());
    assert_eq!(t1.display_name(), t2.display_name());
}
