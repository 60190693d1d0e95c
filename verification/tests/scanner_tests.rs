use liplayerpro::json::Json;
use liplayerpro::scanner::{meta_from_probe, probe_fits, probe_report, report_from_json, track_meta_from_probe, ProbeReport, ProbeStream, ProbeValue};

fn text(s: &str) -> ProbeValue {
    ProbeValue::Text(s.to_string())
}

fn stream(kind: &str, codec: &str) -> ProbeStream {
    ProbeStream {
        codec_type: text(kind),
        codec_name: text(codec),
        sample_rate: text("44100"),
        bit_rate: ProbeValue::Other,
        bits_per_raw_sample: ProbeValue::Other,
        bits_per_sample: ProbeValue::Other,
    }
}

fn report(streams: Vec<ProbeStream>) -> ProbeReport {
    ProbeReport {
        streams: Some(streams),
        tags: None,
        duration: ProbeValue::Other,
        duration_secs: 0,
        bit_rate: ProbeValue::Other,
    }
}

#[test]
fn no_stream_list_gives_nothing() {
    let r = ProbeReport {
        streams: None,
        tags: None,
        duration: ProbeValue::Other,
        duration_secs: 3,
        bit_rate: ProbeValue::Other,
    };
    assert!(track_meta_from_probe("/m/a.flac", &r).is_none());
}

#[test]
fn no_audio_stream_gives_nothing() {
    let r = report(vec![stream("video", "mjpeg")]);
    assert!(track_meta_from_probe("/m/a.flac", &r).is_none());
    assert!(track_meta_from_probe("/m/a.flac", &report(vec![])).is_none());
}

#[test]
fn defaults_without_tags() {
    let r = report(vec![stream("video", "mjpeg"), stream("audio", "flac")]);
    let m = track_meta_from_probe("/music/Artist/01 Song.flac", &r).unwrap();
    assert_eq!(m.path, "/music/Artist/01 Song.flac");
    assert_eq!(m.title, "01 Song");
    assert_eq!(m.artist, "Unknown");
    assert_eq!(m.album, "Unknown");
    assert_eq!(m.format, "flac");
    assert_eq!(m.sample_rate, 44100);
    assert_eq!(m.bit_rate, 0);
    assert_eq!(m.bit_depth, 0);
    assert_eq!(m.duration, 0);
}

#[test]
fn tags_in_lower_or_upper_case() {
    let mut r = report(vec![stream("audio", "mp3")]);
    r.tags = Some(vec![
        ("title".to_string(), text("Blue in Green")),
        ("ARTIST".to_string(), text("Miles Davis")),
        ("album".to_string(), ProbeValue::Unsigned(5)),
        ("ALBUM".to_string(), text("Kind of Blue")),
    ]);
    r.duration_secs = 337;
    let m = track_meta_from_probe("/m/x.mp3", &r).unwrap();
    assert_eq!(m.title, "Blue in Green");
    assert_eq!(m.artist, "Miles Davis");
    assert_eq!(m.album, "Unknown");
    assert_eq!(m.duration, 337);
}

#[test]
fn sample_rate_as_number_or_text() {
    let mut s = stream("audio", "flac");
    s.sample_rate = ProbeValue::Unsigned(96000);
    let m = track_meta_from_probe("/m/a.flac", &report(vec![s])).unwrap();
    assert_eq!(m.sample_rate, 96000);
    let mut s = stream("audio", "flac");
    s.sample_rate = text("bad");
    let m = track_meta_from_probe("/m/a.flac", &report(vec![s])).unwrap();
    assert_eq!(m.sample_rate, 44100);
    let mut s = stream("audio", "flac");
    s.sample_rate = ProbeValue::Unsigned((1u64 << 32) + 5);
    let m = track_meta_from_probe("/m/a.flac", &report(vec![s])).unwrap();
    assert_eq!(m.sample_rate, 5);
}

#[test]
fn bit_rate_from_format_then_stream() {
    let mut s = stream("audio", "flac");
    s.bit_rate = text("900000");
    let mut r = report(vec![s]);
    assert_eq!(track_meta_from_probe("/m/a.flac", &r).unwrap().bit_rate, 900000);
    r.bit_rate = text("1411200");
    assert_eq!(track_meta_from_probe("/m/a.flac", &r).unwrap().bit_rate, 1411200);
    r.bit_rate = ProbeValue::Unsigned(5);
    assert_eq!(track_meta_from_probe("/m/a.flac", &r).unwrap().bit_rate, 900000);
}

#[test]
fn bit_depth_prefers_raw_sample_bits() {
    let mut s = stream("audio", "flac");
    s.bits_per_raw_sample = text("24");
    s.bits_per_sample = ProbeValue::Unsigned(0);
    assert_eq!(track_meta_from_probe("/m/a", &report(vec![s])).unwrap().bit_depth, 24);
    let mut s = stream("audio", "pcm_s16le");
    s.bits_per_sample = ProbeValue::Unsigned(16);
    assert_eq!(track_meta_from_probe("/m/a", &report(vec![s])).unwrap().bit_depth, 16);
    let mut s = stream("audio", "flac");
    s.bits_per_raw_sample = text("0");
    s.bits_per_sample = ProbeValue::Unsigned(24);
    assert_eq!(track_meta_from_probe("/m/a", &report(vec![s])).unwrap().bit_depth, 0);
}

#[test]
fn packed_dsd_is_one_bit_at_eight_times_the_rate() {
    let mut s = stream("audio", "dsd_lsbf_planar");
    s.sample_rate = ProbeValue::Unsigned(352800);
    s.bits_per_sample = ProbeValue::Unsigned(8);
    let m = track_meta_from_probe("/m/a.dsf", &report(vec![s])).unwrap();
    assert_eq!(m.sample_rate, 2822400);
    assert_eq!(m.bit_depth, 1);
    let mut s = stream("audio", "dsd_lsbf");
    s.sample_rate = ProbeValue::Unsigned(352800);
    s.bits_per_sample = ProbeValue::Unsigned(1);
    let m = track_meta_from_probe("/m/a.dsf", &report(vec![s])).unwrap();
    assert_eq!(m.sample_rate, 352800);
    assert_eq!(m.bit_depth, 1);
}

#[test]
fn codec_name_missing_is_unknown() {
    let mut s = stream("audio", "x");
    s.codec_name = ProbeValue::Other;
    assert_eq!(track_meta_from_probe("/m/a", &report(vec![s])).unwrap().format, "unknown");
}

#[test]
fn packed_dsd_rates_must_fit_eightfold() {
    let mut st = stream("audio", "dsd_lsbf");
    st.bits_per_raw_sample = ProbeValue::Unsigned(8);
    st.sample_rate = ProbeValue::Unsigned(352800);
    assert!(probe_fits(&report(vec![st])));
    let mut big = stream("audio", "dsd_lsbf");
    big.bits_per_raw_sample = ProbeValue::Unsigned(8);
    big.sample_rate = ProbeValue::Unsigned(600_000_000);
    assert!(!probe_fits(&report(vec![big])));
    let mut pcm = stream("audio", "flac");
    pcm.sample_rate = ProbeValue::Unsigned(600_000_000);
    assert!(probe_fits(&report(vec![pcm])));
}

#[test]
fn the_stem_names_an_untitled_track() {
    let r = report(vec![stream("audio", "flac")]);
    let m = meta_from_probe("/m/whatever.flac", &r, Some("given stem".to_string())).unwrap();
    assert_eq!(m.title, "given stem");
    let m = meta_from_probe("/m/whatever.flac", &r, None).unwrap();
    assert_eq!(m.title, "Unknown");
    let m = track_meta_from_probe("/m/song name.dsf", &r).unwrap();
    assert_eq!(m.title, "song name");
}

const FFPROBE_OUTPUT: &str = r#"{
    "streams": [
        { "index": 0, "codec_name": "mjpeg", "codec_type": "video" },
        { "index": 1, "codec_name": "flac", "codec_type": "audio", "sample_rate": "96000",
          "bits_per_raw_sample": "24", "bits_per_sample": 0 }
    ],
    "format": {
        "filename": "/m/a.flac",
        "duration": "241.533333",
        "bit_rate": "3016245",
        "tags": { "TITLE": "Song", "ARTIST": "Band", "album": "Record", "track": 3 }
    }
}"#;

fn text_of(v: &ProbeValue) -> Option<&str> {
    match v {
        ProbeValue::Text(s) => Some(s.as_str()),
        _ => None,
    }
}

#[test]
fn the_probe_json_becomes_a_report() {
    let r = probe_report(FFPROBE_OUTPUT.as_bytes()).unwrap();
    let streams = r.streams.as_ref().unwrap();
    assert_eq!(streams.len(), 2);
    assert_eq!(text_of(&streams[0].codec_type), Some("video"));
    assert_eq!(text_of(&streams[1].codec_name), Some("flac"));
    assert_eq!(text_of(&streams[1].sample_rate), Some("96000"));
    assert!(matches!(streams[1].bits_per_sample, ProbeValue::Unsigned(0)));
    assert!(matches!(streams[1].bit_rate, ProbeValue::Other));
    assert_eq!(text_of(&r.duration), Some("241.533333"));
    assert_eq!(r.duration_secs, 0);
    assert_eq!(text_of(&r.bit_rate), Some("3016245"));
    let tags = r.tags.as_ref().unwrap();
    let tag = |k: &str| tags.iter().find(|(n, _)| n == k).map(|(_, v)| v);
    assert_eq!(tag("TITLE").and_then(text_of), Some("Song"));
    assert!(matches!(tag("track"), Some(ProbeValue::Unsigned(3))));
    let m = track_meta_from_probe("/m/a.flac", &r).unwrap();
    assert_eq!((m.title.as_str(), m.artist.as_str(), m.album.as_str()), ("Song", "Band", "Record"));
    assert_eq!((m.sample_rate, m.bit_depth, m.bit_rate), (96000, 24, 3016245));
}

#[test]
fn output_that_is_not_json_gives_no_report() {
    assert!(probe_report(b"").is_none());
    assert!(probe_report(b"{\"streams\": [").is_none());
    assert!(probe_report(&[0xff, 0xfe]).is_none());
}

#[test]
fn odd_shapes_read_as_missing() {
    let r = probe_report(br#"{"streams": {"a": 1}, "format": {"tags": [1], "duration": 12.5, "bit_rate": -3}}"#).unwrap();
    assert!(r.streams.is_none());
    assert!(r.tags.is_none());
    assert!(matches!(r.duration, ProbeValue::Other));
    assert!(matches!(r.bit_rate, ProbeValue::Other));
    let r = probe_report(b"[1, 2]").unwrap();
    assert!(r.streams.is_none() && r.tags.is_none());
}

#[test]
fn a_json_tree_is_read_field_by_field() {
    let stream = Json::Object(vec![
        ("codec_type".to_string(), Json::Text("audio".to_string())),
        ("sample_rate".to_string(), Json::Number(Some(44100))),
        ("bit_rate".to_string(), Json::Number(None)),
        ("codec_name".to_string(), Json::Bool(true)),
    ]);
    let root = Json::Object(vec![("streams".to_string(), Json::Array(vec![stream, Json::Null]))]);
    let r = report_from_json(&root);
    let streams = r.streams.unwrap();
    assert_eq!(text_of(&streams[0].codec_type), Some("audio"));
    assert!(matches!(streams[0].sample_rate, ProbeValue::Unsigned(44100)));
    assert!(matches!(streams[0].bit_rate, ProbeValue::Other));
    assert!(matches!(streams[0].codec_name, ProbeValue::Other));
    assert!(matches!(streams[1].codec_type, ProbeValue::Other));
    assert!(r.tags.is_none());
}

#[test]
fn no_audio_stream_in_the_json_means_no_metadata() {
    let video_only = br#"{"streams": [{"codec_type": "video", "codec_name": "mjpeg"}], "format": {}}"#;
    let r = probe_report(video_only).unwrap();
    assert!(track_meta_from_probe("/m/a.flac", &r).is_none());
    let no_list = br#"{"format": {"duration": "3.0"}}"#;
    let r = probe_report(no_list).unwrap();
    assert!(track_meta_from_probe("/m/a.flac", &r).is_none());
    let audio = br#"{"streams": [{"codec_type": "video"}, {"codec_type": "audio"}], "format": {}}"#;
    let r = probe_report(audio).unwrap();
    assert!(track_meta_from_probe("/m/a.flac", &r).is_some());
}
