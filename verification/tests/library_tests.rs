use liplayerpro::library::{
    distinct_category_values, is_audio_extension_text, is_audio_file, should_report_progress, sort_by_title, track_category_label,
    track_from_stored, tracks_from_stored, tracks_in_category, StoredTrack,
};
use liplayerpro::sorting::{stable_order, text_leq, ScoreDesc, TextKey};
use liplayerpro::types::{Categories, TrackInfo};

fn track(title: &str, artist: &str, rate: u32) -> TrackInfo {
    TrackInfo {
        title: title.to_string(),
        artist: artist.to_string(),
        path: format!("/m/{}", title),
        duration: 60,
        album: format!("{} album", artist),
        genre: String::new(),
        sample_rate: rate,
        bit_rate: 0,
        bit_depth: 24,
    }
}

fn titles(v: &[TrackInfo]) -> Vec<String> {
    v.iter().map(|t| t.title.clone()).collect()
}

#[test]
fn audio_files_by_extension() {
    assert!(is_audio_file("/m/a.flac"));
    assert!(is_audio_file("/m/a.FLAC"));
    assert!(is_audio_file("/m/b.Mp3"));
    assert!(is_audio_file("/m/c.dsf"));
    assert!(is_audio_file("/m/c.dff"));
    assert!(is_audio_file("/m/c.wav"));
    assert!(is_audio_file("/m/c.m4a"));
    assert!(!is_audio_file("/m/cover.jpg"));
    assert!(!is_audio_file("/m/flac"));
    assert!(!is_audio_file("/m/song.lrc"));
}

#[test]
fn progress_every_fifth_and_last() {
    assert!(should_report_progress(5, 12));
    assert!(should_report_progress(10, 12));
    assert!(should_report_progress(12, 12));
    assert!(!should_report_progress(7, 12));
    assert!(!should_report_progress(11, 12));
}

#[test]
fn stored_track_defaults() {
    let d = StoredTrack {
        title: None,
        artist: None,
        album: None,
        path: None,
        duration: None,
        sample_rate: None,
        bit_rate: None,
        bit_depth: None,
    };
    let t = track_from_stored(&d);
    assert_eq!(t.title, "Unknown");
    assert_eq!(t.artist, "Unknown");
    assert_eq!(t.album, "Unknown");
    assert_eq!(t.path, "");
    assert_eq!(t.genre, "");
    assert_eq!((t.duration, t.sample_rate, t.bit_rate, t.bit_depth), (0, 44100, 0, 0));
}

#[test]
fn stored_track_values() {
    let d = StoredTrack {
        title: Some("So What".into()),
        artist: Some("Miles".into()),
        album: Some("Kind of Blue".into()),
        path: Some("/m/so.flac".into()),
        duration: Some(562),
        sample_rate: Some(192000),
        bit_rate: Some((1u64 << 32) + 7),
        bit_depth: Some(24),
    };
    let t = track_from_stored(&d);
    assert_eq!(t.title, "So What");
    assert_eq!(t.path, "/m/so.flac");
    assert_eq!((t.duration, t.sample_rate, t.bit_rate, t.bit_depth), (562, 192000, 7, 24));
}

#[test]
fn sort_by_title_ignores_case_and_is_stable() {
    let v = vec![
        track("beta", "x", 1),
        track("Alpha", "first", 1),
        track("alpha", "second", 1),
        track("ALPHA", "third", 1),
        track("Gamma", "x", 1),
    ];
    let s = sort_by_title(&v);
    assert_eq!(titles(&s), vec!["Alpha", "alpha", "ALPHA", "beta", "Gamma"]);
    assert_eq!(s[1].artist, "second");
}

#[test]
fn sort_by_title_matches_std_sort() {
    let names = ["só", "so", "Zed", "äb", "ab", "", "A", "b", "B", "歌", "ab"];
    let v: Vec<TrackInfo> = names.iter().enumerate().map(|(i, n)| track(n, &i.to_string(), 1)).collect();
    let mut expect = v.clone();
    expect.sort_by(|a, b| a.title.to_lowercase().cmp(&b.title.to_lowercase()));
    let s = sort_by_title(&v);
    assert_eq!(titles(&s), titles(&expect));
    let artists: Vec<String> = s.iter().map(|t| t.artist.clone()).collect();
    let expect_artists: Vec<String> = expect.iter().map(|t| t.artist.clone()).collect();
    assert_eq!(artists, expect_artists);
}

#[test]
fn tracks_from_stored_sorts() {
    let mk = |t: &str| StoredTrack {
        title: Some(t.to_string()),
        artist: None,
        album: None,
        path: None,
        duration: None,
        sample_rate: None,
        bit_rate: None,
        bit_depth: None,
    };
    let v = tracks_from_stored(&vec![mk("c"), mk("A"), mk("b")]);
    assert_eq!(titles(&v), vec!["A", "b", "c"]);
}

#[test]
fn category_values_in_first_order_without_repeats() {
    let v = vec![track("a", "Miles", 44100), track("b", "Coltrane", 96000), track("c", "Miles", 44100)];
    assert_eq!(distinct_category_values(&v, Categories::AlbumArtist), vec!["Miles", "Coltrane"]);
    assert_eq!(distinct_category_values(&v, Categories::SampleRate), vec!["44100", "96000"]);
    assert_eq!(distinct_category_values(&v, Categories::BitDepth), vec!["24"]);
    assert_eq!(distinct_category_values(&v, Categories::Album), vec!["Miles album", "Coltrane album"]);
    assert_eq!(distinct_category_values(&vec![], Categories::Genre), Vec::<String>::new());
}

#[test]
fn tracks_of_a_category_value() {
    let v = vec![track("a", "Miles", 44100), track("b", "Coltrane", 96000), track("c", "Miles", 44100)];
    assert_eq!(titles(&tracks_in_category(&v, Categories::AlbumArtist, "Miles")), vec!["a", "c"]);
    assert_eq!(titles(&tracks_in_category(&v, Categories::SampleRate, "96000")), vec!["b"]);
    assert!(tracks_in_category(&v, Categories::AlbumArtist, "Nobody").is_empty());
    assert_eq!(track_category_label(&v[1], Categories::SampleRate), "96000");
}

#[test]
fn every_listed_category_value_has_tracks() {
    let v = vec![track("a", "Miles", 44100), track("b", "Coltrane", 96000), track("c", "Miles", 48000)];
    for c in [Categories::AlbumArtist, Categories::Album, Categories::SampleRate, Categories::BitDepth] {
        for val in distinct_category_values(&v, c) {
            assert!(!tracks_in_category(&v, c, &val).is_empty());
        }
    }
}

#[test]
fn stable_order_of_scores() {
    let keys = vec![ScoreDesc { score: 3 }, ScoreDesc { score: 9 }, ScoreDesc { score: 3 }, ScoreDesc { score: -1 }];
    assert_eq!(stable_order(&keys), vec![1, 0, 2, 3]);
    assert_eq!(stable_order::<ScoreDesc>(&vec![]), Vec::<usize>::new());
}

#[test]
fn stable_order_of_texts() {
    let k = |s: &str| TextKey { chars: s.chars().collect() };
    let keys = vec![k("b"), k("a"), k("ab"), k("a"), k("")];
    assert_eq!(stable_order(&keys), vec![4, 1, 3, 2, 0]);
}

#[test]
fn text_order_is_lexicographic() {
    let c = |s: &str| s.chars().collect::<Vec<char>>();
    assert!(text_leq(&c("ab"), &c("b")));
    assert!(text_leq(&c("a"), &c("ab")));
    assert!(!text_leq(&c("ab"), &c("a")));
    assert!(text_leq(&c("x"), &c("x")));
    assert!(text_leq(&c(""), &c("")));
}

#[test]
fn audio_extensions_are_lower_case_names() {
    for e in ["flac", "wav", "dsf", "dff", "m4a", "mp3"] {
        assert!(is_audio_extension_text(e));
    }
    assert!(!is_audio_extension_text("FLAC"));
    assert!(!is_audio_extension_text("ogg"));
    assert!(!is_audio_extension_text(""));
}
