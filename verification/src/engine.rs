use vstd::prelude::*;
use vstd::view::View as _;
use crate::textnum::{chars_of, lossy_text, parse_u32, parse_u32_spec, spec_trim, spec_utf8_lossy, trimmed};

verus! {

/// A command for the audio engine.
pub enum AudioCmd {
    Play(String),
    Stop,
    Quit,
}

/// The sample rate assumed where the prober reports none.
pub const DEFAULT_SAMPLE_RATE: u32 = 44100;

/// Milliseconds of audio played: `frames` frames at `rate` frames per
/// second, rounded down; 0 while the rate is unknown (0).
pub open spec fn elapsed_ms_spec(frames: u64, rate: u32) -> u64 {
    if rate == 0 {
        0
    } else {
        ((frames * 1000) / (rate as int)) as u64
    }
}

/// Milliseconds of audio played, as the engine reports its position.
pub fn elapsed_millis(frames: u64, rate: u32) -> (r: u64)
    requires
        frames * 1000 <= u64::MAX,
    ensures
        r == elapsed_ms_spec(frames, rate),
{
    if rate == 0 {
        return 0;
    }
    (frames * 1000) / (rate as u64)
}

/// The signed 32-bit sample whose little-endian bytes are `b0 b1 b2 b3`.
pub open spec fn le_i32(b0: u8, b1: u8, b2: u8, b3: u8) -> int {
    let u = b0 + 256 * b1 + 65536 * b2 + 16777216 * b3;
    if u < 0x8000_0000 {
        u
    } else {
        u - 0x1_0000_0000
    }
}

/// The samples of a block of raw `s32le` audio: one per whole group of four
/// bytes, in order; trailing bytes that make no whole sample are dropped.
pub open spec fn s32le_samples(bytes: Seq<u8>) -> Seq<i32> {
    Seq::new(
        bytes.len() / 4,
        |k: int| le_i32(bytes[4 * k], bytes[4 * k + 1], bytes[4 * k + 2], bytes[4 * k + 3]) as i32,
    )
}

/// Decodes raw little-endian signed 32-bit samples.
pub fn decode_s32le(bytes: &[u8]) -> (r: Vec<i32>)
    ensures
        r@ == s32le_samples(bytes@),
        forall|k: int| 0 <= k < r@.len() ==> #[trigger] r@[k] as int == le_i32(bytes@[4 * k], bytes@[4 * k + 1], bytes@[4 * k + 2], bytes@[4 * k + 3]),
{
    let n = bytes.len() / 4;
    let mut out: Vec<i32> = Vec::new();
    let mut k: usize = 0;
    while k < n
        invariant
            k <= n,
            n == bytes@.len() / 4,
            out@.len() == k,
            forall|j: int| 0 <= j < k ==> #[trigger] out@[j] as int == le_i32(bytes@[4 * j], bytes@[4 * j + 1], bytes@[4 * j + 2], bytes@[4 * j + 3]),
        decreases n - k,
    {
        let len = bytes.len();
        assert(4 * k + 3 < len) by (nonlinear_arith)
            requires
                k < n,
                n == len / 4,
        ;
        let b0 = bytes[4 * k] as u32;
        let b1 = bytes[4 * k + 1] as u32;
        let b2 = bytes[4 * k + 2] as u32;
        let b3 = bytes[4 * k + 3] as u32;
        let u: u32 = b0 + 256 * b1 + 65536 * b2 + 16777216 * b3;
        let s: i32 = if u < 0x8000_0000 {
            u as i32
        } else {
            ((u - 0x8000_0000) as i32) - 0x7fff_ffff - 1
        };
        out.push(s);
        k = k + 1;
    }
    assert(out@ =~= s32le_samples(bytes@));
    out
}

/// How many samples the output stage takes from `avail` buffered samples into
/// a block of `buf_len`: as many as both allow, rounded down to whole
/// stereo frames.
pub open spec fn read_len_spec(avail: usize, buf_len: usize) -> usize {
    let m = if avail < buf_len { avail } else { buf_len };
    (m - m % 2) as usize
}

pub fn output_read_len(avail: usize, buf_len: usize) -> (r: usize)
    ensures
        r == read_len_spec(avail, buf_len),
        r <= avail,
        r <= buf_len,
        r % 2 == 0,
{
    let m = if avail < buf_len { avail } else { buf_len };
    m - m % 2
}

/// The ring buffer between decoder and output holds this many samples.
pub const RING_SAMPLES: usize = 2_097_152;

/// The decoder reads this many bytes of raw audio at a time.
pub const DECODE_BLOCK_BYTES: usize = 131072;

/// The output stage writes at most this many samples at a time.
pub const OUTPUT_BLOCK_SAMPLES: usize = 16384;

/// The output stage starts once this many samples are buffered.
pub const PREFILL_SAMPLES: usize = 80_000;

/// Whether the output stage keeps waiting before it opens the device: too
/// few samples are buffered, the track is still wanted and the decoder is
/// still running.
pub fn awaiting_prefill(buffered: usize, playing: bool, decoder_done: bool) -> (r: bool)
    ensures
        r == (buffered < PREFILL_SAMPLES && playing && !decoder_done),
{
    buffered < PREFILL_SAMPLES && playing && !decoder_done
}

/// What the output stage does next.
#[derive(Clone, Copy, Debug, PartialEq, Eq, Structural)]
pub enum OutputAction {
    /// The player is paused: drop what the device holds and wait for resume.
    Suspend,
    /// Take this many samples from the buffer and write them.
    Write(usize),
    /// The decoder has finished and the buffer is drained: stop.
    Finish,
    /// Wait for the decoder.
    Wait,
}

/// The output stage's next step, given whether the player is paused, how
/// many samples are buffered, whether the decoder has finished, and the
/// size of the output block.
pub fn output_step(paused: bool, avail: usize, decoder_done: bool, buf_len: usize) -> (r: OutputAction)
    ensures
        paused ==> r == OutputAction::Suspend,
        !paused && avail >= 2 ==> r == OutputAction::Write(read_len_spec(avail, buf_len)),
        !paused && avail < 2 && decoder_done ==> r == OutputAction::Finish,
        !paused && avail < 2 && !decoder_done ==> r == OutputAction::Wait,
{
    if paused {
        OutputAction::Suspend
    } else if avail >= 2 {
        OutputAction::Write(output_read_len(avail, buf_len))
    } else if decoder_done {
        OutputAction::Finish
    } else {
        OutputAction::Wait
    }
}

/// How the engine's counters stand when a track starts: no frame played,
/// the negotiated sample rate, not paused.
pub struct TrackStart {
    pub frames: u64,
    pub rate: u32,
    pub paused: bool,
}

pub fn track_start(rate: u32) -> (r: TrackStart)
    ensures
        r.frames == 0,
        r.rate == rate,
        !r.paused,
{
    TrackStart { frames: 0, rate, paused: false }
}

/// One pass of the output loop: the step it took and, for a write, how many
/// samples came out of the buffer and whether the device took them.
#[derive(Clone, Copy, Debug, PartialEq, Eq, Structural)]
pub struct OutputPass {
    pub step: OutputAction,
    pub popped: usize,
    pub written: bool,
}

/// The frames that a pass adds to the position: those of the samples that
/// the device took.
pub open spec fn pass_frames(p: OutputPass) -> nat {
    match p.step {
        OutputAction::Write(_) => if p.written { (p.popped / 2) as nat } else { 0 },
        _ => 0,
    }
}

/// The position after a pass; the counter wraps around as an atomic
/// `fetch_add` does.
pub open spec fn position_after_spec(frames: u64, p: OutputPass) -> u64 {
    let s = frames + pass_frames(p);
    if s <= u64::MAX {
        s as u64
    } else {
        (s - 0x1_0000_0000_0000_0000) as u64
    }
}

pub fn position_after(frames: u64, p: OutputPass) -> (r: u64)
    ensures
        r == position_after_spec(frames, p),
{
    let add: u64 = match p.step {
        OutputAction::Write(_) => if p.written { (p.popped / 2) as u64 } else { 0 },
        _ => 0,
    };
    if frames > u64::MAX - add {
        add - (u64::MAX - frames) - 1
    } else {
        frames + add
    }
}

/// The position after the passes `ps`, starting from `start`.
pub open spec fn positions(start: u64, ps: Seq<OutputPass>) -> u64
    decreases ps.len(),
{
    if ps.len() == 0 {
        start
    } else {
        position_after_spec(positions(start, ps.drop_last()), ps.last())
    }
}

/// The frames that the passes `ps` add in all.
pub open spec fn frames_total(ps: Seq<OutputPass>) -> nat
    decreases ps.len(),
{
    if ps.len() == 0 {
        0
    } else {
        frames_total(ps.drop_last()) + pass_frames(ps.last())
    }
}

proof fn lemma_positions_total(ps: Seq<OutputPass>)
    requires
        frames_total(ps) <= u64::MAX,
    ensures
        positions(0, ps) == frames_total(ps),
    decreases ps.len(),
{
    if ps.len() > 0 {
        lemma_positions_total(ps.drop_last());
    }
}

proof fn lemma_total_prefix(ps: Seq<OutputPass>, i: int)
    requires
        0 <= i <= ps.len(),
    ensures
        frames_total(ps.take(i)) <= frames_total(ps),
    decreases ps.len(),
{
    if i < ps.len() {
        lemma_total_prefix(ps.drop_last(), i);
        assert(ps.drop_last().take(i) =~= ps.take(i));
    } else {
        assert(ps.take(i) =~= ps);
    }
}

/// Between two plays the position starts at 0 and never goes back: each
/// pass adds the frames the device took, and a pass that writes nothing
/// (paused, waiting or finished) leaves it as it is. The counter is taken
/// not to wrap around, that is, fewer than 2^64 frames are played.
pub proof fn law_position_never_decreases(ps: Seq<OutputPass>)
    requires
        frames_total(ps) <= u64::MAX,
    ensures
        positions(0, ps) == frames_total(ps),
        forall|i: int, j: int| 0 <= i <= j <= ps.len() ==> positions(0, #[trigger] ps.take(i)) <= positions(0, #[trigger] ps.take(j)),
        forall|i: int| 0 <= i < ps.len() && !(ps[i].step is Write) ==> positions(0, #[trigger] ps.take(i + 1)) == positions(0, ps.take(i)),
{
    lemma_positions_total(ps);
    assert forall|i: int, j: int| 0 <= i <= j <= ps.len() implies positions(0, #[trigger] ps.take(i)) <= positions(0, #[trigger] ps.take(j)) by {
        lemma_total_prefix(ps, j);
        lemma_total_prefix(ps.take(j), i);
        assert(ps.take(j).take(i) =~= ps.take(i));
        lemma_positions_total(ps.take(i));
        lemma_positions_total(ps.take(j));
    }
    assert forall|i: int| 0 <= i < ps.len() && !(ps[i].step is Write) implies positions(0, #[trigger] ps.take(i + 1)) == positions(0, ps.take(i)) by {
        assert(ps.take(i + 1).drop_last() =~= ps.take(i));
        assert(ps.take(i + 1).last() == ps[i]);
    }
}

/// The number of stereo frames in `samples` interleaved samples.
pub fn frames_of(samples: usize) -> (r: u64)
    ensures
        r == samples / 2,
{
    (samples / 2) as u64
}

/// What the engine's command loop does on receiving `cmd` (`None`: the
/// command channel was closed).
pub struct EngineStep {
    /// Stop the running decode and output stages and wait for them.
    pub halt_pipeline: bool,
    /// Start playing this file afterwards.
    pub start: Option<String>,
    /// Leave the command loop afterwards.
    pub exit: bool,
}

/// The step that `engine_step` gives for a command.
pub open spec fn engine_step_spec(cmd: Option<AudioCmd>) -> EngineStep {
    match cmd {
        Some(AudioCmd::Play(p)) => EngineStep { halt_pipeline: true, start: Some(p), exit: false },
        Some(AudioCmd::Stop) => EngineStep { halt_pipeline: true, start: None, exit: false },
        Some(AudioCmd::Quit) => EngineStep { halt_pipeline: true, start: None, exit: true },
        None => EngineStep { halt_pipeline: false, start: None, exit: true },
    }
}

/// The command loop after it has received the commands `cmds` (`None`: the
/// channel was closed), each handled by `engine_step` until one says to
/// exit: how many pipelines are alive, and whether the loop still runs.
/// Later commands are never received.
pub open spec fn run_loop(cmds: Seq<Option<AudioCmd>>) -> (nat, bool)
    decreases cmds.len(),
{
    if cmds.len() == 0 {
        (0, true)
    } else {
        let (alive, running) = run_loop(cmds.drop_last());
        if !running {
            (alive, running)
        } else {
            let st = engine_step_spec(cmds.last());
            let kept: nat = if st.halt_pipeline { 0 } else { alive };
            ((if st.start is Some { kept + 1 } else { kept }) as nat, !st.exit)
        }
    }
}

/// Whether a received command ends the loop: a Quit, or the closed channel.
pub open spec fn ends_loop(cmd: Option<AudioCmd>) -> bool {
    cmd is None || (cmd matches Some(AudioCmd::Quit))
}

pub fn engine_step(cmd: Option<AudioCmd>) -> (r: EngineStep)
    ensures
        r == engine_step_spec(cmd),
        match cmd {
            Some(AudioCmd::Play(p)) => r.halt_pipeline && r.start == Some(p) && !r.exit,
            Some(AudioCmd::Stop) => r.halt_pipeline && r.start is None && !r.exit,
            Some(AudioCmd::Quit) => r.halt_pipeline && r.start is None && r.exit,
            None => !r.halt_pipeline && r.start is None && r.exit,
        },
{
    match cmd {
        Some(AudioCmd::Play(p)) => EngineStep { halt_pipeline: true, start: Some(p), exit: false },
        Some(AudioCmd::Stop) => EngineStep { halt_pipeline: true, start: None, exit: false },
        Some(AudioCmd::Quit) => EngineStep { halt_pipeline: true, start: None, exit: true },
        None => EngineStep { halt_pipeline: false, start: None, exit: true },
    }
}

/// The command loop keeps at most one pipeline alive, the one of the latest
/// Play (an earlier one is halted first); after a Stop none is alive and the
/// loop goes on; and it runs exactly until it receives a Quit or finds the
/// channel closed.
pub proof fn law_engine_loop(cmds: Seq<Option<AudioCmd>>)
    ensures
        run_loop(cmds).0 <= 1,
        run_loop(cmds).1 <==> forall|i: int| 0 <= i < cmds.len() ==> !ends_loop(#[trigger] cmds[i]),
        cmds.len() > 0 && (cmds.last() matches Some(AudioCmd::Stop)) && run_loop(cmds.drop_last()).1
            ==> run_loop(cmds).0 == 0 && run_loop(cmds).1,
        cmds.len() > 0 && (cmds.last() matches Some(AudioCmd::Play(_))) && run_loop(cmds.drop_last()).1
            ==> run_loop(cmds).0 == 1 && run_loop(cmds).1,
    decreases cmds.len(),
{
    if cmds.len() > 0 {
        let p = cmds.drop_last();
        law_engine_loop(p);
        assert forall|i: int| 0 <= i < p.len() implies p[i] == cmds[i] by {}
        if run_loop(p).1 {
            assert(forall|i: int| 0 <= i < p.len() ==> !ends_loop(#[trigger] p[i]));
        } else {
            let i = choose|i: int| 0 <= i < p.len() && ends_loop(#[trigger] p[i]);
            assert(ends_loop(cmds[i]));
        }
        if !run_loop(cmds).1 && run_loop(p).1 {
            assert(ends_loop(cmds[cmds.len() - 1]));
        }
    }
}

/// The sample rate that the prober printed on its standard output: the
/// output as text, trimmed, parsed as a `u32`; 44100 where that fails.
pub open spec fn probed_rate_spec(stdout: Seq<u8>) -> u32 {
    match parse_u32_spec(spec_trim(spec_utf8_lossy(stdout))) {
        Some(v) => v,
        None => DEFAULT_SAMPLE_RATE,
    }
}

pub fn rate_from_probe_output(stdout: &[u8]) -> (r: u32)
    ensures
        r == probed_rate_spec(stdout@),
{
    let text = lossy_text(stdout);
    let t = trimmed(text.as_str());
    let cs = chars_of(t);
    match parse_u32(cs.as_slice()) {
        Some(v) => v,
        None => DEFAULT_SAMPLE_RATE,
    }
}

} // verus!
