use vstd::prelude::*;
use vstd::view::View as _;
use crate::textnum::{decimal_string, decimal_text};
use crate::types::{view_title, SongInfo, View};

verus! {

/// The header line of the interface.
pub open spec fn header_spec(scanning: bool, v: View, count: nat) -> Seq<char> {
    if scanning {
        " LiPlayer Pro | ♪ 正在索引曲库... "@
    } else {
        " LiPlayer Pro | "@ + view_title(v) + " | ♪ "@ + decimal_text(count) + " 首曲目 "@
    }
}

pub fn header_text(scanning: bool, v: &View, count: usize) -> (r: String)
    ensures
        r@ == header_spec(scanning, *v, count as nat),
{
    if scanning {
        String::from_str(" LiPlayer Pro | ♪ 正在索引曲库... ")
    } else {
        String::from_str(" LiPlayer Pro | ")
            .concat(v.display_name().as_str())
            .concat(" | ♪ ")
            .concat(decimal_string(count as u64).as_str())
            .concat(" 首曲目 ")
    }
}

/// A number written with at least two digits (`{:02}`).
pub open spec fn two_digits(n: nat) -> Seq<char> {
    if n < 10 {
        "0"@ + decimal_text(n)
    } else {
        decimal_text(n)
    }
}

pub fn two_digit_string(n: u64) -> (r: String)
    ensures
        r@ == two_digits(n as nat),
{
    if n < 10 {
        String::from_str("0").concat(decimal_string(n).as_str())
    } else {
        decimal_string(n)
    }
}

/// Minutes and seconds, `mm:ss`.
pub open spec fn clock_spec(secs: nat) -> Seq<char> {
    two_digits(secs / 60) + ":"@ + two_digits(secs % 60)
}

/// The details line of the status bar.
pub open spec fn status_spec(song: SongInfo, paused: bool) -> Seq<char> {
    (if paused { "⏸  PAUSED"@ } else { "▶ PLAYING"@ }) + " |"@ + clock_spec(song.elapsed as nat) + " |"@
        + song.title@ + " - "@ + song.artist@ + " |"@ + decimal_text(song.bit_depth as nat) + "Bit/"@
        + decimal_text(song.sample_rate as nat) + "Hz/"@ + decimal_text((song.bit_rate / 1000) as nat)
        + "kbps| "@ + clock_spec(song.duration as nat)
}

fn clock_string(secs: u32) -> (r: String)
    ensures
        r@ == clock_spec(secs as nat),
{
    two_digit_string((secs / 60) as u64).concat(":").concat(two_digit_string((secs % 60) as u64).as_str())
}

/// The details line of the status bar for the playing song.
pub fn status_line(song: &SongInfo, paused: bool) -> (r: String)
    ensures
        r@ == status_spec(*song, paused),
{
    let state = if paused { String::from_str("⏸  PAUSED") } else { String::from_str("▶ PLAYING") };
    state.concat(" |")
        .concat(clock_string(song.elapsed).as_str())
        .concat(" |")
        .concat(song.title.as_str())
        .concat(" - ")
        .concat(song.artist.as_str())
        .concat(" |")
        .concat(decimal_string(song.bit_depth as u64).as_str())
        .concat("Bit/")
        .concat(decimal_string(song.sample_rate as u64).as_str())
        .concat("Hz/")
        .concat(decimal_string((song.bit_rate / 1000) as u64).as_str())
        .concat("kbps| ")
        .concat(clock_string(song.duration).as_str())
}

/// The frames of the scanning animation.
pub open spec fn spinner_frames() -> Seq<Seq<char>> {
    seq!["⠋"@, "⠙"@, "⠹"@, "⠸"@, "⠼"@, "⠴"@, "⠦"@, "⠧"@, "⠇"@, "⠏"@]
}

pub fn spinner_frame(index: usize) -> (r: &'static str)
    ensures
        r@ == spinner_frames()[(index % 10) as int],
{
    let k = index % 10;
    if k == 0 {
        "⠋"
    } else if k == 1 {
        "⠙"
    } else if k == 2 {
        "⠹"
    } else if k == 3 {
        "⠸"
    } else if k == 4 {
        "⠼"
    } else if k == 5 {
        "⠴"
    } else if k == 6 {
        "⠦"
    } else if k == 7 {
        "⠧"
    } else if k == 8 {
        "⠇"
    } else {
        "⠏"
    }
}

/// The first index at or after `i` whose time is after `elapsed`, or the
/// number of lines.
pub open spec fn first_after(keys: Seq<u32>, elapsed: u32, i: int) -> int
    decreases keys.len() - i,
{
    if i < 0 || i >= keys.len() {
        keys.len() as int
    } else if keys[i] > elapsed {
        i
    } else {
        first_after(keys, elapsed, i + 1)
    }
}

/// The lyric line being sung at `elapsed` seconds, given the times of the
/// lines in order: the line before the first one whose time is still to come;
/// `None` before the first line.
pub fn active_lyric_line(keys: &[u32], elapsed: u32) -> (r: Option<usize>)
    ensures
        first_after(keys@, elapsed, 0) == 0 ==> r is None,
        first_after(keys@, elapsed, 0) > 0 ==> r == Some((first_after(keys@, elapsed, 0) - 1) as usize),
{
    let mut i: usize = 0;
    while i < keys.len()
        invariant
            i <= keys@.len(),
            first_after(keys@, elapsed, 0) == first_after(keys@, elapsed, i as int),
        decreases keys@.len() - i,
    {
        if keys[i] > elapsed {
            return if i == 0 { None } else { Some(i - 1) };
        }
        i = i + 1;
    }
    if keys.len() == 0 { None } else { Some(keys.len() - 1) }
}

/// How long the main loop waits for a key between frames, in milliseconds.
pub fn poll_interval_ms(fps: u32) -> (r: u64)
    ensures
        r == 1000int / (if fps > 1 { fps as int } else { 1int }),
{
    let f = if fps > 1 { fps } else { 1 };
    (1000 / f) as u64
}

/// `n` copies of `c`.
pub open spec fn repeat_char(c: char, n: nat) -> Seq<char> {
    Seq::new(n, |_i: int| c)
}

/// The progress bar `width` cells wide with the knob at cell `pos`: `━` up
/// to the knob, `●`, then `─` to the end.
pub open spec fn progress_bar_spec(pos: nat, width: nat) -> Seq<char> {
    repeat_char('━', pos) + seq!['●'] + repeat_char('─', if width > pos + 1 { (width - pos - 1) as nat } else { 0 })
}

fn repeated(c: char, n: usize) -> (r: String)
    ensures
        r@ == repeat_char(c, n as nat),
{
    let mut s = String::new();
    let mut i: usize = 0;
    while i < n
        invariant
            i <= n,
            s@ == repeat_char(c, i as nat),
        decreases n - i,
    {
        crate::textnum::push_char(&mut s, c);
        i = i + 1;
        assert(s@ =~= repeat_char(c, i as nat));
    }
    s
}

pub fn progress_bar(pos: usize, width: usize) -> (r: String)
    requires
        pos < usize::MAX,
    ensures
        r@ == progress_bar_spec(pos as nat, width as nat),
{
    let rest = if width > pos + 1 { width - (pos + 1) } else { 0 };
    let mut bar = repeated('━', pos);
    crate::textnum::push_char(&mut bar, '●');
    let tail = repeated('─', rest);
    let r = bar.concat(tail.as_str());
    assert(r@ =~= progress_bar_spec(pos as nat, width as nat));
    r
}

/// How a lyric line is shown beside the active one.
#[derive(Clone, Copy, Debug, PartialEq, Eq, Structural)]
pub enum LyricTense {
    Past,
    Present,
    Future,
}

/// The tense of lyric line `idx` when line `active` is being sung (`None`:
/// none yet).
pub fn lyric_tense(idx: usize, active: Option<usize>) -> (r: LyricTense)
    ensures
        r == match active {
            Some(a) => if idx == a { LyricTense::Present } else if idx < a { LyricTense::Past } else { LyricTense::Future },
            None => LyricTense::Future,
        },
{
    match active {
        Some(a) => if idx == a {
            LyricTense::Present
        } else if idx < a {
            LyricTense::Past
        } else {
            LyricTense::Future
        },
        None => LyricTense::Future,
    }
}

} // verus!
