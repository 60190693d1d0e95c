use liplayerpro::engine::AudioCmd;
use liplayerpro::player_core::{state_code, PlayerCore, PlayerEvent, PlayerState};
use liplayerpro::types::{AppEvent, TrackInfo};

fn track(title: &str, path: &str) -> TrackInfo {
    TrackInfo {
        title: title.to_string(),
        artist: "A".to_string(),
        path: path.to_string(),
        duration: 100,
        album: "B".to_string(),
        genre: String::new(),
        sample_rate: 44100,
        bit_rate: 0,
        bit_depth: 16,
    }
}

fn drain(p: &mut PlayerCore) -> Vec<PlayerEvent> {
    let mut v = Vec::new();
    while let Some(e) = p.try_recv_event() {
        v.push(e);
    }
    v
}

#[test]
fn new_player_is_idle() {
    let mut p = PlayerCore::new();
    assert_eq!(p.state(), PlayerState::Idle);
    assert_eq!(p.current_track_index(), None);
    assert_eq!(p.try_recv_event(), None);
}

#[test]
fn play_on_empty_library_is_refused() {
    let mut p = PlayerCore::new();
    assert_eq!(p.play_track_at(&vec![], 3).err(), Some("local music library is empty"));
    assert_eq!(p.state(), PlayerState::Idle);
    assert!(drain(&mut p).is_empty());
}

#[test]
fn play_wraps_the_index() {
    let mut p = PlayerCore::new();
    let tracks = vec![track("a", "/a"), track("b", "/b"), track("c", "/c")];
    match p.play_track_at(&tracks, 4) {
        Ok(AudioCmd::Play(path)) => assert_eq!(path, "/b"),
        _ => panic!("expected a play command"),
    }
    assert_eq!(p.current_track_index(), Some(1));
    assert_eq!(p.state(), PlayerState::Playing);
    assert_eq!(drain(&mut p), vec![PlayerEvent::StateChanged(PlayerState::Playing)]);
}

#[test]
fn pause_resume_and_stop() {
    let mut p = PlayerCore::new();
    assert!(!p.pause());
    assert!(!p.resume());
    let tracks = vec![track("a", "/a")];
    p.play_track_at(&tracks, 0).unwrap();
    assert!(p.pause());
    assert!(!p.pause());
    assert_eq!(p.state(), PlayerState::Paused);
    assert!(p.resume());
    assert_eq!(p.state(), PlayerState::Playing);
    assert_eq!(p.current_track_index(), Some(0));
    assert!(matches!(p.stop(), AudioCmd::Stop));
    assert_eq!(p.state(), PlayerState::Idle);
    assert_eq!(p.current_track_index(), None);
    assert_eq!(
        drain(&mut p),
        vec![
            PlayerEvent::StateChanged(PlayerState::Playing),
            PlayerEvent::StateChanged(PlayerState::Paused),
            PlayerEvent::StateChanged(PlayerState::Playing),
            PlayerEvent::StateChanged(PlayerState::Idle),
        ]
    );
}

#[test]
fn scan_events_are_forwarded() {
    let mut p = PlayerCore::new();
    assert!(!p.post_scan_event(&AppEvent::ScanProgress { current: 5, total: 9 }));
    assert!(!p.post_scan_event(&AppEvent::ThemeChanged));
    assert!(p.post_scan_event(&AppEvent::ScanFinished));
    assert_eq!(
        drain(&mut p),
        vec![PlayerEvent::ScanProgress { current: 5, total: 9 }, PlayerEvent::ScanFinished]
    );
}

#[test]
fn state_codes() {
    assert_eq!(state_code(PlayerState::Idle), 0);
    assert_eq!(state_code(PlayerState::Playing), 1);
    assert_eq!(state_code(PlayerState::Paused), 2);
}

#[test]
fn a_whole_scan_is_forwarded_in_order() {
    let mut p = PlayerCore::new();
    p.play_track_at(&vec![track("a", "/a.flac")], 0).unwrap();
    let before = (p.state(), p.current_track_index());
    let events = vec![
        AppEvent::ScanProgress { current: 5, total: 12 },
        AppEvent::ThemeChanged,
        AppEvent::ScanProgress { current: 10, total: 12 },
        AppEvent::ScanProgress { current: 12, total: 12 },
        AppEvent::ScanFinished,
    ];
    for e in &events {
        if p.post_scan_event(e) {
            break;
        }
    }
    assert_eq!(before, (p.state(), p.current_track_index()));
    assert_eq!(
        drain(&mut p),
        vec![
            PlayerEvent::StateChanged(PlayerState::Playing),
            PlayerEvent::ScanProgress { current: 5, total: 12 },
            PlayerEvent::ScanProgress { current: 10, total: 12 },
            PlayerEvent::ScanProgress { current: 12, total: 12 },
            PlayerEvent::ScanFinished,
        ]
    );
    assert_eq!(p.try_recv_event(), None);
}
