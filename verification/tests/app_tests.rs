use fuzzy_matcher::FuzzyMatcher;
use liplayerpro::app::{rank_lines, App, Effect, MediaCommand, Playback};
use liplayerpro::types::DisplayItem;
use liplayerpro::config::UiConfig;
use liplayerpro::types::{Categories, Key, Modal, TrackInfo, View};

fn track(title: &str, artist: &str, duration: u32) -> TrackInfo {
    TrackInfo {
        title: title.to_string(),
        artist: artist.to_string(),
        path: format!("/music/{}.flac", title),
        duration,
        album: "Album".to_string(),
        genre: String::new(),
        sample_rate: 96000,
        bit_rate: 3000000,
        bit_depth: 24,
    }
}

fn catalog() -> Vec<TrackInfo> {
    vec![track("Alpha", "Ann", 200), track("Beta", "Bob", 180), track("Gamma", "Ann", 240)]
}

fn labels(app: &App) -> Vec<String> {
    app.items.iter().map(|i| i.label.clone()).collect()
}

fn is_view(app: &App, f: fn(&View) -> bool) -> bool {
    f(app.view_stack.last().unwrap())
}

#[test]
fn new_app_shows_the_home_menu() {
    let app = App::new(UiConfig { fps: 30 }, catalog());
    assert_eq!(
        labels(&app),
        vec!["󰎆 所有歌曲 (AllTracks)", "󰓠 歌曲分类 (Categories)", "󰲹 播放列表 (Playlist)", "⚙ 系统设置 (Settings)"]
    );
    assert_eq!(app.selected, Some(0));
    assert!(app.is_scanning);
    assert_eq!(app.modal, Modal::Closed);
    assert!(app.current_song.is_none());
}

#[test]
fn moving_the_selection_wraps() {
    let mut app = App::new(UiConfig { fps: 30 }, catalog());
    app.handle_key(Key::Up, false);
    assert_eq!(app.selected, Some(3));
    app.handle_key(Key::Char('j'), false);
    assert_eq!(app.selected, Some(0));
    app.handle_key(Key::Down, false);
    app.handle_key(Key::Char('k'), false);
    assert_eq!(app.selected, Some(0));
}

#[test]
fn enter_opens_all_tracks_and_back_returns() {
    let mut app = App::new(UiConfig { fps: 30 }, catalog());
    let eff = app.handle_key(Key::Enter, false);
    assert!(eff.is_empty());
    assert!(is_view(&app, |v| matches!(v, View::AllTracks)));
    assert_eq!(labels(&app), vec!["Alpha - Ann", "Beta - Bob", "Gamma - Ann"]);
    assert_eq!(app.selected, Some(0));
    app.handle_key(Key::Char('b'), false);
    assert_eq!(app.view_stack.len(), 1);
    assert!(is_view(&app, |v| matches!(v, View::Home)));
    app.handle_key(Key::Esc, false);
    assert_eq!(app.view_stack.len(), 1);
}

#[test]
fn enter_on_a_track_plays_the_list() {
    let mut app = App::new(UiConfig { fps: 30 }, catalog());
    app.handle_key(Key::Enter, false);
    app.handle_key(Key::Down, false);
    let eff = app.handle_key(Key::Right, false);
    assert_eq!(app.current_playlist.len(), 3);
    assert_eq!(app.current_playlist_idx, 1);
    assert_eq!(app.selected, Some(1));
    let song = app.current_song.as_ref().unwrap();
    assert_eq!((song.title.as_str(), song.elapsed, song.duration), ("Beta", 0, 180));
    assert_eq!(eff.len(), 4);
    assert!(matches!(&eff[0], Effect::EnginePlay(p) if p == "/music/Beta.flac"));
    assert!(matches!(&eff[1], Effect::LoadLyrics(p) if p == "/music/Beta.flac"));
    assert!(matches!(&eff[2], Effect::PublishTrack { title, artist, duration: 180 } if title == "Beta" && artist == "Bob"));
    assert!(matches!(&eff[3], Effect::PublishPlayback(Playback::Playing)));
}

#[test]
fn next_and_previous_wrap_around_the_playlist() {
    let mut app = App::new(UiConfig { fps: 30 }, catalog());
    app.handle_key(Key::Enter, false);
    app.handle_key(Key::Up, false);
    app.handle_key(Key::Enter, false);
    assert_eq!(app.current_playlist_idx, 2);
    app.handle_key(Key::Char('n'), false);
    assert_eq!(app.current_playlist_idx, 0);
    app.handle_key(Key::TrackPrevious, false);
    assert_eq!(app.current_playlist_idx, 2);
    app.handle_key(Key::Char('p'), false);
    assert_eq!(app.current_playlist_idx, 1);
    assert_eq!(app.current_song.as_ref().unwrap().title, "Beta");
}

#[test]
fn play_pause_and_stop() {
    let mut app = App::new(UiConfig { fps: 30 }, catalog());
    assert!(app.handle_key(Key::Char(' '), false).is_empty());
    app.handle_key(Key::Enter, false);
    app.handle_key(Key::Enter, false);
    let eff = app.handle_key(Key::Char(' '), false);
    assert!(matches!(eff.as_slice(), [Effect::SetEnginePaused(true), Effect::PublishPlayback(Playback::Paused)]));
    let eff = app.handle_key(Key::PlayPause, true);
    assert!(matches!(eff.as_slice(), [Effect::SetEnginePaused(false), Effect::PublishPlayback(Playback::Playing)]));
    let eff = app.handle_key(Key::Stop, false);
    assert!(matches!(eff.as_slice(), [Effect::EngineStop, Effect::PublishPlayback(Playback::Stopped)]));
    assert!(app.current_song.is_none());
    let eff = app.handle_key(Key::Play, false);
    assert_eq!(eff.len(), 4);
    assert_eq!(app.current_song.as_ref().unwrap().title, "Alpha");
}

#[test]
fn search_filters_and_ranks() {
    let mut app = App::new(UiConfig { fps: 30 }, catalog());
    app.handle_key(Key::Enter, false);
    app.handle_key(Key::Char('f'), false);
    assert_eq!(app.modal, Modal::Search);
    app.handle_key(Key::Char('g'), false);
    app.handle_key(Key::Char('m'), false);
    assert_eq!(app.search_buf, "gm");
    assert_eq!(labels(&app), vec!["Gamma - Ann"]);
    assert_eq!(app.selected, Some(0));
    app.handle_key(Key::Backspace, false);
    app.handle_key(Key::Backspace, false);
    assert_eq!(labels(&app).len(), 3);
    app.handle_key(Key::Char('z'), false);
    assert!(labels(&app).is_empty());
    assert_eq!(app.selected, None);
    app.handle_key(Key::Esc, false);
    assert_eq!(app.modal, Modal::Closed);
}

#[test]
fn search_ranks_best_match_first() {
    let mut app = App::new(UiConfig { fps: 30 }, catalog());
    app.handle_key(Key::Char('f'), false);
    app.handle_key(Key::Char('a'), false);
    let got = labels(&app);
    let matcher = fuzzy_matcher::skim::SkimMatcherV2::default();
    let mut expect: Vec<(i64, String)> = [
        "󰎆 所有歌曲 (AllTracks)", "󰓠 歌曲分类 (Categories)", "󰲹 播放列表 (Playlist)", "⚙ 系统设置 (Settings)",
    ]
    .iter()
    .filter_map(|l| matcher.fuzzy_match(l, "a").map(|s| (s, l.to_string())))
    .collect();
    expect.sort_by(|a, b| b.0.cmp(&a.0));
    assert_eq!(got, expect.into_iter().map(|(_, l)| l).collect::<Vec<_>>());
}

#[test]
fn categories_browse_to_tracks() {
    let mut app = App::new(UiConfig { fps: 30 }, catalog());
    app.handle_key(Key::Down, false);
    app.handle_key(Key::Enter, false);
    assert!(is_view(&app, |v| matches!(v, View::CategoriesMenu)));
    assert_eq!(labels(&app).len(), 6);
    app.handle_key(Key::Enter, false);
    assert!(is_view(&app, |v| matches!(v, View::CategoryList(Categories::AlbumArtist))));
    assert_eq!(labels(&app), vec!["Ann", "Bob"]);
    app.handle_key(Key::Enter, false);
    assert!(is_view(&app, |v| matches!(v, View::CategoryTracks(Categories::AlbumArtist, n) if n == "Ann")));
    assert_eq!(labels(&app), vec!["Alpha - Ann", "Gamma - Ann"]);
    app.handle_key(Key::Down, false);
    app.handle_key(Key::Enter, false);
    assert_eq!(app.current_song.as_ref().unwrap().title, "Gamma");
    assert_eq!(app.current_playlist.len(), 2);
}

#[test]
fn settings_and_playlist_screens() {
    let mut app = App::new(UiConfig { fps: 30 }, catalog());
    app.handle_key(Key::Up, false);
    app.handle_key(Key::Enter, false);
    assert!(is_view(&app, |v| matches!(v, View::SettingsMenu)));
    app.handle_key(Key::Down, false);
    app.handle_key(Key::Enter, false);
    assert!(is_view(&app, |v| matches!(v, View::SettingsDetail(_))));
    assert!(app.items.is_empty());
    assert_eq!(app.selected, Some(0));
    assert!(app.handle_key(Key::Enter, false).is_empty());
}

#[test]
fn clock_updates_and_advances() {
    let mut app = App::new(UiConfig { fps: 30 }, catalog());
    assert!(app.on_clock(5).is_empty());
    app.handle_key(Key::Enter, false);
    app.handle_key(Key::Enter, false);
    assert!(app.on_clock(42).is_empty());
    assert_eq!(app.current_song.as_ref().unwrap().elapsed, 42);
    let eff = app.on_clock(199);
    assert_eq!(eff.len(), 4);
    assert_eq!(app.current_playlist_idx, 1);
    assert_eq!(app.current_song.as_ref().unwrap().elapsed, 0);
}

#[test]
fn media_commands() {
    let mut app = App::new(UiConfig { fps: 30 }, catalog());
    assert!(app.on_media_command(MediaCommand::Next, false).is_empty());
    app.handle_key(Key::Enter, false);
    app.handle_key(Key::Enter, false);
    app.on_media_command(MediaCommand::Next, false);
    assert_eq!(app.current_playlist_idx, 1);
    app.on_media_command(MediaCommand::Previous, false);
    assert_eq!(app.current_playlist_idx, 0);
    let eff = app.on_media_command(MediaCommand::Toggle, false);
    assert!(matches!(eff.as_slice(), [Effect::SetEnginePaused(true), _]));
    let eff = app.on_media_command(MediaCommand::Stop, false);
    assert!(matches!(eff.as_slice(), [Effect::EngineStop, _]));
    assert!(app.on_media_command(MediaCommand::Other, false).is_empty());
}

#[test]
fn scan_events_and_spinner() {
    let mut app = App::new(UiConfig { fps: 30 }, vec![]);
    app.spin();
    app.spin();
    assert_eq!(app.spinner_index, 2);
    app.on_scan_progress(5, 10);
    assert_eq!(app.scan_progress, (5, 10));
    app.handle_key(Key::Enter, false);
    assert!(app.items.is_empty());
    app.on_scan_finished(catalog());
    assert!(!app.is_scanning);
    assert_eq!(labels(&app).len(), 3);
    app.spin();
    assert_eq!(app.spinner_index, 2);
}

#[test]
fn lyrics_loading() {
    let mut app = App::new(UiConfig { fps: 30 }, catalog());
    app.load_lrc(Some("[00:01.00]hello\n"));
    assert_eq!(app.lyrics.get(&1).map(|s| s.as_str()), Some("hello"));
    assert_eq!(app.lyrics.len(), 1);
    app.load_lrc(None);
    assert_eq!(app.lyrics.get(&0).map(|s| s.as_str()), Some("暂无歌词"));
    assert_eq!(app.lyrics.get(&5).map(|s| s.as_str()), Some("..."));
}

#[test]
fn stop_then_play_restarts_the_current_track() {
    let mut app = App::new(UiConfig { fps: 30 }, catalog());
    app.handle_key(Key::Enter, false);
    app.handle_key(Key::Down, false);
    app.handle_key(Key::Down, false);
    app.handle_key(Key::Enter, false);
    assert_eq!(app.current_playlist_idx, 2);
    app.stop_playback();
    assert!(app.current_song.is_none());
    let eff = app.force_play();
    assert_eq!(app.current_playlist_idx, 2);
    assert_eq!(app.current_song.as_ref().unwrap().title, "Gamma");
    assert!(matches!(&eff[0], Effect::EnginePlay(p) if p == "/music/Gamma.flac"));
}

#[test]
fn pause_then_play_changes_only_the_engine_flag() {
    let mut app = App::new(UiConfig { fps: 30 }, catalog());
    app.handle_key(Key::Enter, false);
    app.handle_key(Key::Enter, false);
    app.on_clock(30);
    let before = (labels(&app), app.selected, app.current_playlist_idx, app.view_stack.len());
    let e1 = app.force_pause();
    let e2 = app.force_play();
    assert!(matches!(e1.as_slice(), [Effect::SetEnginePaused(true), Effect::PublishPlayback(Playback::Paused)]));
    assert!(matches!(e2.as_slice(), [Effect::SetEnginePaused(false), Effect::PublishPlayback(Playback::Playing)]));
    assert_eq!(before, (labels(&app), app.selected, app.current_playlist_idx, app.view_stack.len()));
    let song = app.current_song.as_ref().unwrap();
    assert_eq!((song.title.as_str(), song.elapsed), ("Alpha", 30));
}

#[test]
fn lines_are_ranked_by_score_and_stably() {
    let raw: Vec<DisplayItem> =
        ["a", "b", "c", "d", "e"].iter().map(|l| DisplayItem { label: l.to_string(), track: None }).collect();
    let scores = vec![Some(5), None, Some(9), Some(5), Some(-2)];
    let out: Vec<String> = rank_lines(raw, &scores).into_iter().map(|i| i.label).collect();
    assert_eq!(out, vec!["c", "a", "d", "e"]);
    assert!(rank_lines(vec![], &vec![]).is_empty());
}
