use liplayerpro::engine::{
    awaiting_prefill, decode_s32le, elapsed_millis, engine_step, frames_of, output_read_len, output_step,
    position_after, rate_from_probe_output, track_start, AudioCmd, OutputAction, OutputPass, OUTPUT_BLOCK_SAMPLES,
};

#[test]
fn elapsed_millis_rounds_down() {
    assert_eq!(elapsed_millis(44100, 44100), 1000);
    assert_eq!(elapsed_millis(22050, 44100), 500);
    assert_eq!(elapsed_millis(1, 48000), 0);
    assert_eq!(elapsed_millis(96000 * 61 + 48, 96000), 61000);
}

#[test]
fn elapsed_millis_is_zero_without_rate() {
    assert_eq!(elapsed_millis(123456, 0), 0);
}

#[test]
fn decode_s32le_reads_samples() {
    let bytes = [1u8, 0, 0, 0, 0xff, 0xff, 0xff, 0xff, 0, 0, 0, 0x80, 0xff, 0xff, 0xff, 0x7f, 9, 9];
    assert_eq!(decode_s32le(&bytes), vec![1, -1, i32::MIN, i32::MAX]);
    assert_eq!(decode_s32le(&[1, 2, 3]), Vec::<i32>::new());
}

#[test]
fn decode_s32le_agrees_with_from_le_bytes() {
    let bytes: Vec<u8> = (0..64u32).map(|i| (i * 37 + 11) as u8).collect();
    let expect: Vec<i32> = bytes.chunks_exact(4).map(|c| i32::from_le_bytes([c[0], c[1], c[2], c[3]])).collect();
    assert_eq!(decode_s32le(&bytes), expect);
}

#[test]
fn output_read_len_takes_whole_frames() {
    assert_eq!(output_read_len(5, 16384), 4);
    assert_eq!(output_read_len(100000, 16384), 16384);
    assert_eq!(output_read_len(2, 16384), 2);
    assert_eq!(output_read_len(7, 5), 4);
}

#[test]
fn frames_of_counts_stereo_frames() {
    assert_eq!(frames_of(4096), 2048);
    assert_eq!(frames_of(3), 1);
}

#[test]
fn engine_step_per_command() {
    let s = engine_step(Some(AudioCmd::Play("/m/a.flac".to_string())));
    assert!(s.halt_pipeline && !s.exit);
    assert_eq!(s.start.as_deref(), Some("/m/a.flac"));
    let s = engine_step(Some(AudioCmd::Stop));
    assert!(s.halt_pipeline && !s.exit && s.start.is_none());
    let s = engine_step(Some(AudioCmd::Quit));
    assert!(s.halt_pipeline && s.exit && s.start.is_none());
    let s = engine_step(None);
    assert!(!s.halt_pipeline && s.exit && s.start.is_none());
}

#[test]
fn rate_from_probe_output_parses_trimmed_text() {
    assert_eq!(rate_from_probe_output(b"48000\n"), 48000);
    assert_eq!(rate_from_probe_output(b"  96000  \r\n"), 96000);
}

#[test]
fn rate_from_probe_output_defaults_to_44100() {
    assert_eq!(rate_from_probe_output(b""), 44100);
    assert_eq!(rate_from_probe_output(b"N/A\n"), 44100);
    assert_eq!(rate_from_probe_output(&[0xff, 0x31]), 44100);
}

#[test]
fn output_waits_for_the_prefill() {
    assert!(awaiting_prefill(0, true, false));
    assert!(awaiting_prefill(79_999, true, false));
    assert!(!awaiting_prefill(80_000, true, false));
    assert!(!awaiting_prefill(10, false, false));
    assert!(!awaiting_prefill(10, true, true));
}

#[test]
fn output_steps() {
    assert_eq!(output_step(true, 50_000, false, OUTPUT_BLOCK_SAMPLES), OutputAction::Suspend);
    assert_eq!(output_step(false, 50_001, false, OUTPUT_BLOCK_SAMPLES), OutputAction::Write(16384));
    assert_eq!(output_step(false, 7, true, OUTPUT_BLOCK_SAMPLES), OutputAction::Write(6));
    assert_eq!(output_step(false, 1, true, OUTPUT_BLOCK_SAMPLES), OutputAction::Finish);
    assert_eq!(output_step(false, 1, false, OUTPUT_BLOCK_SAMPLES), OutputAction::Wait);
}

#[test]
fn a_track_starts_at_zero_unpaused() {
    let s = track_start(48000);
    assert_eq!((s.frames, s.rate, s.paused), (0, 48000, false));
}

#[test]
fn the_position_grows_by_the_frames_written() {
    let write = |popped, written| OutputPass { step: OutputAction::Write(popped), popped, written };
    let mut pos = 0u64;
    let passes = [
        write(16384, true),
        OutputPass { step: OutputAction::Suspend, popped: 0, written: false },
        write(100, false),
        OutputPass { step: OutputAction::Wait, popped: 0, written: false },
        write(7, true),
    ];
    let mut seen = vec![];
    for p in passes {
        let next = position_after(pos, p);
        assert!(next >= pos);
        pos = next;
        seen.push(pos);
    }
    assert_eq!(seen, vec![8192, 8192, 8192, 8192, 8195]);
    assert_eq!(position_after(u64::MAX, write(2, true)), 0);
}

#[test]
fn the_command_loop_runs_until_quit_or_a_closed_channel() {
    let cmds = vec![
        Some(AudioCmd::Play("/a.flac".to_string())),
        Some(AudioCmd::Play("/b.flac".to_string())),
        Some(AudioCmd::Stop),
        Some(AudioCmd::Quit),
        Some(AudioCmd::Play("/c.flac".to_string())),
    ];
    let mut alive = 0;
    let mut received = 0;
    for c in cmds {
        received += 1;
        let step = engine_step(c);
        if step.halt_pipeline {
            alive = 0;
        }
        if step.start.is_some() {
            alive += 1;
        }
        assert!(alive <= 1);
        if step.exit {
            break;
        }
    }
    assert_eq!((alive, received), (0, 4));
    assert!(engine_step(None).exit);
}
