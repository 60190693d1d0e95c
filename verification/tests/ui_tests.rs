use liplayerpro::types::{SongInfo, View};
use liplayerpro::ui::{
    active_lyric_line, header_text, lyric_tense, poll_interval_ms, progress_bar, spinner_frame, status_line,
    two_digit_string, LyricTense,
};

#[test]
fn header_while_scanning_and_after() {
    assert_eq!(header_text(true, &View::Home, 3), " LiPlayer Pro | ♪ 正在索引曲库... ");
    assert_eq!(header_text(false, &View::AllTracks, 1234), " LiPlayer Pro | 所有曲目 | ♪ 1234 首曲目 ");
}

#[test]
fn status_line_matches_format() {
    let song = SongInfo {
        title: "So What".into(),
        artist: "Miles Davis".into(),
        sample_rate: 96000,
        elapsed: 65,
        duration: 562,
        bit_rate: 2304000,
        bit_depth: 24,
    };
    let expect = format!(
        "{} |{:02}:{:02} |{} - {} |{}Bit/{}Hz/{}kbps| {:02}:{:02}",
        "▶ PLAYING", 1, 5, "So What", "Miles Davis", 24, 96000, 2304, 9, 22
    );
    assert_eq!(status_line(&song, false), expect);
    assert!(status_line(&song, true).starts_with("⏸  PAUSED |01:05 |"));
}

#[test]
fn two_digits_pads() {
    assert_eq!(two_digit_string(0), "00");
    assert_eq!(two_digit_string(7), "07");
    assert_eq!(two_digit_string(42), "42");
    assert_eq!(two_digit_string(123), "123");
}

#[test]
fn spinner_cycles_through_ten_frames() {
    assert_eq!(spinner_frame(0), "⠋");
    assert_eq!(spinner_frame(9), "⠏");
    assert_eq!(spinner_frame(10), "⠋");
    assert_eq!(spinner_frame(23), "⠸");
}

#[test]
fn active_lyric_is_the_last_started_line() {
    let keys = [0u32, 5, 10, 20];
    assert_eq!(active_lyric_line(&keys, 0), Some(0));
    assert_eq!(active_lyric_line(&keys, 7), Some(1));
    assert_eq!(active_lyric_line(&keys, 10), Some(2));
    assert_eq!(active_lyric_line(&keys, 99), Some(3));
    assert_eq!(active_lyric_line(&[3u32, 8], 1), None);
    assert_eq!(active_lyric_line(&[], 1), None);
}

#[test]
fn poll_interval_from_fps() {
    assert_eq!(poll_interval_ms(30), 33);
    assert_eq!(poll_interval_ms(0), 1000);
    assert_eq!(poll_interval_ms(1), 1000);
    assert_eq!(poll_interval_ms(2000), 0);
}

#[test]
fn progress_bar_places_the_knob() {
    assert_eq!(progress_bar(0, 5), "●────");
    assert_eq!(progress_bar(2, 5), "━━●──");
    assert_eq!(progress_bar(4, 5), "━━━━●");
    assert_eq!(progress_bar(5, 5), "━━━━━●");
    assert_eq!(progress_bar(0, 0), "●");
}

#[test]
fn lyric_lines_before_at_and_after_the_active_one() {
    assert_eq!(lyric_tense(0, Some(2)), LyricTense::Past);
    assert_eq!(lyric_tense(2, Some(2)), LyricTense::Present);
    assert_eq!(lyric_tense(3, Some(2)), LyricTense::Future);
    assert_eq!(lyric_tense(0, None), LyricTense::Future);
}
