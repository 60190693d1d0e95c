use vstd::prelude::*;
use vstd::view::View as _;
use crate::json::{deref_opt, field, field_in, get_field, get_field_in, parse_json_text, spec_json, Json};
use crate::textnum::{chars_of, lossy_text, parse_u32, parse_u32_spec, spec_utf8_lossy};

verus! {

/// Metadata of one audio file, as the scanner reports it.
pub struct TrackMeta {
    pub path: String,
    pub title: String,
    pub artist: String,
    pub album: String,
    pub sample_rate: u32,
    pub format: String,
    pub duration: u64,
    pub bit_rate: u32,
    pub bit_depth: u32,
}

/// A scalar of the prober's JSON report, as far as the scanner reads it:
/// a non-negative integer, a string, or anything else (absent, null, a
/// negative or fractional number, a boolean, an array or an object).
pub enum ProbeValue {
    Unsigned(u64),
    Text(String),
    Other,
}

/// The fields of one stream of the prober's report that the scanner reads.
pub struct ProbeStream {
    pub codec_type: ProbeValue,
    pub codec_name: ProbeValue,
    pub sample_rate: ProbeValue,
    pub bit_rate: ProbeValue,
    pub bits_per_raw_sample: ProbeValue,
    pub bits_per_sample: ProbeValue,
}

/// The prober's report on one file.
///
/// `streams` is `None` where the report's `streams` is not an array, `tags` is
/// `None` where `format.tags` is not an object (its keys are distinct),
/// `duration` is `format.duration`, and `duration_secs` is that duration read
/// as a decimal number and truncated to whole seconds (0 where it is missing
/// or unreadable).
pub struct ProbeReport {
    pub streams: Option<Vec<ProbeStream>>,
    pub tags: Option<Vec<(String, ProbeValue)>>,
    pub duration: ProbeValue,
    pub duration_secs: u64,
    pub bit_rate: ProbeValue,
}

/// `p` is the scalar `o` of the prober's JSON as the scanner reads it.
pub open spec fn value_matches(p: ProbeValue, o: Option<Json>) -> bool {
    match o {
        Some(Json::Text(s)) => p matches ProbeValue::Text(t) && t@ == s@,
        Some(Json::Number(Some(u))) => p == ProbeValue::Unsigned(u),
        _ => p is Other,
    }
}

/// `st` holds the fields of the stream `j` of the prober's JSON.
pub open spec fn stream_matches(st: ProbeStream, j: Json) -> bool {
    &&& value_matches(st.codec_type, field(j, "codec_type"@))
    &&& value_matches(st.codec_name, field(j, "codec_name"@))
    &&& value_matches(st.sample_rate, field(j, "sample_rate"@))
    &&& value_matches(st.bit_rate, field(j, "bit_rate"@))
    &&& value_matches(st.bits_per_raw_sample, field(j, "bits_per_raw_sample"@))
    &&& value_matches(st.bits_per_sample, field(j, "bits_per_sample"@))
}

/// `r` is the report that the prober's JSON document `root` gives, before
/// its duration is read (`duration_secs` 0).
pub open spec fn report_matches(r: ProbeReport, root: Json) -> bool {
    let format = field(root, "format"@);
    &&& match field(root, "streams"@) {
        Some(Json::Array(a)) => r.streams matches Some(s) && s@.len() == a@.len()
            && forall|i: int| 0 <= i < a@.len() ==> stream_matches(#[trigger] s@[i], a@[i]),
        _ => r.streams is None,
    }
    &&& match field_in(format, "tags"@) {
        Some(Json::Object(m)) => r.tags matches Some(t) && t@.len() == m@.len()
            && forall|i: int| 0 <= i < m@.len() ==> (#[trigger] t@[i]).0@ == m@[i].0@ && value_matches(t@[i].1, Some(m@[i].1)),
        _ => r.tags is None,
    }
    &&& value_matches(r.duration, field_in(format, "duration"@))
    &&& value_matches(r.bit_rate, field_in(format, "bit_rate"@))
    &&& r.duration_secs == 0
}

fn scalar(o: Option<&Json>) -> (r: ProbeValue)
    ensures
        value_matches(r, deref_opt(o)),
{
    match o {
        Some(Json::Text(s)) => ProbeValue::Text(s.clone()),
        Some(Json::Number(Some(u))) => ProbeValue::Unsigned(*u),
        _ => ProbeValue::Other,
    }
}

fn stream_from_json(j: &Json) -> (r: ProbeStream)
    ensures
        stream_matches(r, *j),
{
    ProbeStream {
        codec_type: scalar(get_field(j, "codec_type")),
        codec_name: scalar(get_field(j, "codec_name")),
        sample_rate: scalar(get_field(j, "sample_rate")),
        bit_rate: scalar(get_field(j, "bit_rate")),
        bits_per_raw_sample: scalar(get_field(j, "bits_per_raw_sample")),
        bits_per_sample: scalar(get_field(j, "bits_per_sample")),
    }
}

/// The report that the prober's JSON document gives, its duration not yet
/// read.
pub fn report_from_json(root: &Json) -> (r: ProbeReport)
    ensures
        report_matches(r, *root),
{
    let format = get_field(root, "format");
    let streams = match get_field(root, "streams") {
        Some(Json::Array(a)) => {
            let mut out: Vec<ProbeStream> = Vec::new();
            let mut i: usize = 0;
            while i < a.len()
                invariant
                    i <= a@.len(),
                    out@.len() == i,
                    forall|k: int| 0 <= k < i ==> stream_matches(#[trigger] out@[k], a@[k]),
                decreases a@.len() - i,
            {
                out.push(stream_from_json(&a[i]));
                i = i + 1;
            }
            Some(out)
        },
        _ => None,
    };
    let tags = match get_field_in(format, "tags") {
        Some(Json::Object(m)) => {
            let mut out: Vec<(String, ProbeValue)> = Vec::new();
            let mut i: usize = 0;
            while i < m.len()
                invariant
                    i <= m@.len(),
                    out@.len() == i,
                    forall|k: int| 0 <= k < i ==> (#[trigger] out@[k]).0@ == m@[k].0@ && value_matches(out@[k].1, Some(m@[k].1)),
                decreases m@.len() - i,
            {
                out.push((m[i].0.clone(), scalar(Some(&m[i].1))));
                i = i + 1;
            }
            Some(out)
        },
        _ => None,
    };
    ProbeReport {
        streams,
        tags,
        duration: scalar(get_field_in(format, "duration")),
        duration_secs: 0,
        bit_rate: scalar(get_field_in(format, "bit_rate")),
    }
}

/// The report in the prober's standard output: the bytes read as text
/// (invalid UTF-8 replaced), parsed as JSON; `None` where that is not JSON.
/// Its duration is not yet read (`duration_secs` 0).
pub fn probe_report(stdout: &[u8]) -> (r: Option<ProbeReport>)
    ensures
        match spec_json(spec_utf8_lossy(stdout@)) {
            None => r is None,
            Some(j) => r matches Some(rep) && report_matches(rep, j),
        },
{
    let text = lossy_text(stdout);
    match parse_json_text(text.as_str()) {
        None => None,
        Some(j) => Some(report_from_json(&j)),
    }
}

/// The stem of the last component of a path (`Path::file_stem`), as text.
pub uninterp spec fn spec_file_stem(path: Seq<char>) -> Option<Seq<char>>;

/// Calls `std::path::Path::file_stem`; the result is the stem's text, the
/// function named by `spec_file_stem`.
#[verifier::external_body]
fn file_stem_text(path: &str) -> (r: Option<String>)
    ensures
        match r {
            Some(s) => spec_file_stem(path@) == Some(s@),
            None => spec_file_stem(path@) is None,
        },
{
    match std::path::Path::new(path).file_stem() {
        Some(stem) => stem.to_str().map(String::from),
        None => None,
    }
}

/// The value read as a `u32`: an integer is truncated to 32 bits, a string is parsed.
pub open spec fn value_u32(v: ProbeValue) -> Option<u32> {
    match v {
        ProbeValue::Unsigned(n) => Some(n as u32),
        ProbeValue::Text(s) => parse_u32_spec(s@),
        ProbeValue::Other => None,
    }
}

/// A string value parsed as a `u32`; any other value gives nothing.
pub open spec fn text_u32(v: ProbeValue) -> Option<u32> {
    match v {
        ProbeValue::Text(s) => parse_u32_spec(s@),
        _ => None,
    }
}

pub open spec fn value_text(v: ProbeValue) -> Option<Seq<char>> {
    match v {
        ProbeValue::Text(s) => Some(s@),
        _ => None,
    }
}

pub open spec fn is_audio_stream(s: ProbeStream) -> bool {
    value_text(s.codec_type) == Some("audio"@)
}

/// The index of the first audio stream at or after `i`.
pub open spec fn first_audio_from(s: Seq<ProbeStream>, i: int) -> Option<int>
    decreases s.len() - i,
{
    if i < 0 || i >= s.len() {
        None
    } else if is_audio_stream(s[i]) {
        Some(i)
    } else {
        first_audio_from(s, i + 1)
    }
}

/// The value of the first tag named `key`.
pub open spec fn tag_lookup(t: Seq<(String, ProbeValue)>, key: Seq<char>) -> Option<ProbeValue>
    decreases t.len(),
{
    if t.len() == 0 {
        None
    } else if t[0].0@ == key {
        Some(t[0].1)
    } else {
        tag_lookup(t.drop_first(), key)
    }
}

/// A tag's text: the tag named `key`, or else the one named `upper`; nothing
/// where the found value is not a string.
pub open spec fn tag_text(tags: Option<Vec<(String, ProbeValue)>>, key: Seq<char>, upper: Seq<char>) -> Option<Seq<char>> {
    match tags {
        None => None,
        Some(t) => {
            let found = match tag_lookup(t@, key) {
                Some(v) => Some(v),
                None => tag_lookup(t@, upper),
            };
            match found {
                Some(v) => value_text(v),
                None => None,
            }
        },
    }
}

pub open spec fn or_default<T>(o: Option<T>, d: T) -> T {
    match o {
        Some(v) => v,
        None => d,
    }
}

pub open spec fn stream_sample_rate(st: ProbeStream) -> u32 {
    or_default(value_u32(st.sample_rate), 44100)
}

pub open spec fn stream_format(st: ProbeStream) -> Seq<char> {
    or_default(value_text(st.codec_name), "unknown"@)
}

pub open spec fn report_bit_rate(r: ProbeReport, st: ProbeStream) -> u32 {
    match text_u32(r.bit_rate) {
        Some(v) => v,
        None => or_default(text_u32(st.bit_rate), 0),
    }
}

/// Bits per sample: `bits_per_raw_sample`, else `bits_per_sample`, and 0 where
/// the first of them that is present is 0 or neither is.
pub open spec fn stream_bit_depth(st: ProbeStream) -> u32 {
    let found = match value_u32(st.bits_per_raw_sample) {
        Some(v) => Some(v),
        None => value_u32(st.bits_per_sample),
    };
    match found {
        Some(v) => if v > 0 { v } else { 0 },
        None => 0,
    }
}

/// A DSD stream read 8 bits at a time: it is reported as 1-bit audio at eight
/// times the byte rate.
pub open spec fn is_packed_dsd(st: ProbeStream) -> bool {
    let f = stream_format(st);
    f.len() >= 4 && f.take(4) == "dsd_"@ && stream_bit_depth(st) == 8
}

/// Whether the scanner can report on the file without overflowing the sample rate.
pub open spec fn probe_in_range(r: ProbeReport) -> bool {
    match r.streams {
        None => true,
        Some(s) => match first_audio_from(s@, 0) {
            None => true,
            Some(i) => is_packed_dsd(s@[i]) ==> stream_sample_rate(s@[i]) * 8 <= u32::MAX,
        },
    }
}

/// What the scanner reports for a file whose first audio stream is `st`.
pub open spec fn meta_matches(m: TrackMeta, path: Seq<char>, r: ProbeReport, st: ProbeStream) -> bool {
    meta_matches_with(m, path, r, st, spec_file_stem(path))
}

pub open spec fn text_view(o: Option<String>) -> Option<Seq<char>> {
    match o {
        Some(s) => Some(s@),
        None => None,
    }
}

/// What the scanner reports for a file whose first audio stream is `st` and
/// whose name without extension is `stem`.
pub open spec fn meta_matches_with(m: TrackMeta, path: Seq<char>, r: ProbeReport, st: ProbeStream, stem: Option<Seq<char>>) -> bool {
    &&& m.path@ == path
    &&& m.title@ == or_default(tag_text(r.tags, "title"@, "TITLE"@), or_default(stem, "Unknown"@))
    &&& m.artist@ == or_default(tag_text(r.tags, "artist"@, "ARTIST"@), "Unknown"@)
    &&& m.album@ == or_default(tag_text(r.tags, "album"@, "ALBUM"@), "Unknown"@)
    &&& m.format@ == stream_format(st)
    &&& m.duration == r.duration_secs
    &&& m.bit_rate == report_bit_rate(r, st)
    &&& m.sample_rate == if is_packed_dsd(st) { (stream_sample_rate(st) * 8) as u32 } else { stream_sample_rate(st) }
    &&& m.bit_depth == if is_packed_dsd(st) { 1 } else { stream_bit_depth(st) }
}

fn read_u32(v: &ProbeValue) -> (r: Option<u32>)
    ensures
        r == value_u32(*v),
{
    match v {
        ProbeValue::Unsigned(n) => Some(*n as u32),
        ProbeValue::Text(s) => parse_u32(chars_of(s.as_str()).as_slice()),
        ProbeValue::Other => None,
    }
}

fn read_text_u32(v: &ProbeValue) -> (r: Option<u32>)
    ensures
        r == text_u32(*v),
{
    match v {
        ProbeValue::Text(s) => parse_u32(chars_of(s.as_str()).as_slice()),
        _ => None,
    }
}

fn text_is(s: &String, lit: &str) -> (r: bool)
    ensures
        r == (s@ == lit@),
{
    *s == String::from_str(lit)
}

fn lookup_tag<'a>(t: &'a Vec<(String, ProbeValue)>, key: &str) -> (r: Option<&'a ProbeValue>)
    ensures
        match tag_lookup(t@, key@) {
            Some(v) => r == Some(&v),
            None => r is None,
        },
{
    let mut i: usize = 0;
    assert(t@.skip(0) =~= t@);
    while i < t.len()
        invariant
            0 <= i <= t.len(),
            tag_lookup(t@, key@) == tag_lookup(t@.skip(i as int), key@),
        decreases t.len() - i,
    {
        assert(t@.skip(i as int).drop_first() =~= t@.skip(i + 1));
        assert(t@.skip(i as int)[0] == t@[i as int]);
        if text_is(&t[i].0, key) {
            return Some(&t[i].1);
        }
        i = i + 1;
    }
    assert(t@.skip(i as int) =~= Seq::<(String, ProbeValue)>::empty());
    None
}

fn get_tag(tags: &Option<Vec<(String, ProbeValue)>>, key: &str, upper: &str) -> (r: Option<String>)
    ensures
        match r {
            Some(s) => tag_text(*tags, key@, upper@) == Some(s@),
            None => tag_text(*tags, key@, upper@) is None,
        },
{
    match tags {
        None => None,
        Some(t) => {
            let found = match lookup_tag(t, key) {
                Some(v) => Some(v),
                None => lookup_tag(t, upper),
            };
            match found {
                Some(ProbeValue::Text(s)) => Some(s.clone()),
                _ => None,
            }
        },
    }
}

fn text_or(o: Option<String>, d: &str) -> (r: String)
    ensures
        r@ == match o { Some(s) => s@, None => d@ },
{
    match o {
        Some(s) => s,
        None => String::from_str(d),
    }
}

fn starts_with_dsd(s: &String) -> (r: bool)
    ensures
        r == (s@.len() >= 4 && s@.take(4) == "dsd_"@),
{
    proof { reveal_strlit("dsd_"); }
    let c = chars_of(s.as_str());
    if c.len() < 4 {
        return false;
    }
    let r = c[0] == 'd' && c[1] == 's' && c[2] == 'd' && c[3] == '_';
    assert(r ==> s@.take(4) =~= "dsd_"@);
    assert(s@.take(4) == "dsd_"@ ==> s@.take(4)[0] == 'd' && s@.take(4)[1] == 's' && s@.take(4)[2] == 'd' && s@.take(4)[3] == '_');
    r
}

fn first_audio_index(streams: &Vec<ProbeStream>) -> (r: Option<usize>)
    ensures
        match r {
            Some(i) => first_audio_from(streams@, 0) == Some(i as int),
            None => first_audio_from(streams@, 0) is None,
        },
        r matches Some(i) ==> i < streams@.len() && is_audio_stream(streams@[i as int]),
{
    let mut i: usize = 0;
    while i < streams.len()
        invariant
            0 <= i <= streams.len(),
            first_audio_from(streams@, 0) == first_audio_from(streams@, i as int),
        decreases streams.len() - i,
    {
        let is_audio = match &streams[i].codec_type {
            ProbeValue::Text(s) => text_is(s, "audio"),
            _ => false,
        };
        if is_audio {
            return Some(i);
        }
        assert(!is_audio_stream(streams@[i as int]));
        i = i + 1;
    }
    None
}

/// A stream of the prober's JSON whose `codec_type` is the string "audio".
pub open spec fn is_audio_json(j: Json) -> bool {
    field(j, "codec_type"@) matches Some(Json::Text(t)) && t@ == "audio"@
}

/// The prober's JSON lists its streams in an array that holds an audio stream.
pub open spec fn json_has_audio(root: Json) -> bool {
    field(root, "streams"@) matches Some(Json::Array(a)) && exists|i: int| 0 <= i < a@.len() && is_audio_json(#[trigger] a@[i])
}

/// The report has a stream list with an audio stream in it.
pub open spec fn report_has_audio(r: ProbeReport) -> bool {
    r.streams matches Some(s) && first_audio_from(s@, 0) is Some
}

proof fn lemma_first_audio(s: Seq<ProbeStream>, i: int)
    requires
        0 <= i <= s.len(),
    ensures
        first_audio_from(s, i) is Some <==> exists|k: int| i <= k < s.len() && is_audio_stream(#[trigger] s[k]),
    decreases s.len() - i,
{
    if i < s.len() {
        lemma_first_audio(s, i + 1);
        if !is_audio_stream(s[i]) {
            assert forall|k: int| i <= k < s.len() && is_audio_stream(#[trigger] s[k]) implies i + 1 <= k by {}
        }
    }
}

/// The scanner gives metadata for a file exactly when the prober's JSON lists
/// an audio stream: with a report read from the document `root`,
/// `track_meta_from_probe` returns nothing exactly when `root` has no stream
/// array or no audio stream in it.
pub proof fn law_scan_outcome(r: ProbeReport, root: Json)
    requires
        report_matches(r, root),
    ensures
        report_has_audio(r) <==> json_has_audio(root),
{
    match field(root, "streams"@) {
        Some(Json::Array(a)) => {
            let s = r.streams->0;
            lemma_first_audio(s@, 0);
            assert forall|k: int| 0 <= k < a@.len() implies is_audio_stream(#[trigger] s@[k]) == is_audio_json(a@[k]) by {
                assert(stream_matches(s@[k], a@[k]));
            }
            if json_has_audio(root) {
                let k = choose|k: int| 0 <= k < a@.len() && is_audio_json(#[trigger] a@[k]);
                assert(is_audio_stream(s@[k]));
            }
            if report_has_audio(r) {
                let k = choose|k: int| 0 <= k < s@.len() && is_audio_stream(#[trigger] s@[k]);
                assert(is_audio_json(a@[k]));
            }
        },
        _ => {},
    }
}

/// Whether `track_meta_from_probe` can read the report: its first audio
/// stream, if packed DSD, has a sample rate whose eightfold fits a `u32`.
pub fn probe_fits(report: &ProbeReport) -> (r: bool)
    ensures
        r == probe_in_range(*report),
{
    let streams = match &report.streams {
        None => return true,
        Some(s) => s,
    };
    let i = match first_audio_index(streams) {
        None => return true,
        Some(i) => i,
    };
    let st = &streams[i];
    let sample_rate: u32 = match read_u32(&st.sample_rate) {
        Some(v) => v,
        None => 44100,
    };
    let format = match &st.codec_name {
        ProbeValue::Text(s) => s.clone(),
        _ => String::from_str("unknown"),
    };
    let found = match read_u32(&st.bits_per_raw_sample) {
        Some(v) => Some(v),
        None => read_u32(&st.bits_per_sample),
    };
    let bit_depth: u32 = match found {
        Some(v) => if v > 0 { v } else { 0 },
        None => 0,
    };
    assert(stream_sample_rate(*st) == sample_rate);
    assert(stream_format(*st) == format@);
    assert(stream_bit_depth(*st) == bit_depth);
    assert(first_audio_from(streams@, 0) == Some(i as int));
    if starts_with_dsd(&format) && bit_depth == 8 {
        sample_rate <= u32::MAX / 8
    } else {
        true
    }
}

/// Builds the metadata of the file at `path` from the prober's report on it:
/// `None` where the report has no stream list or no audio stream.
pub fn track_meta_from_probe(path: &str, report: &ProbeReport) -> (r: Option<TrackMeta>)
    requires
        probe_in_range(*report),
    ensures
        match report.streams {
            None => r is None,
            Some(s) => match first_audio_from(s@, 0) {
                None => r is None,
                Some(i) => r matches Some(m) && meta_matches(m, path@, *report, s@[i]),
            },
        },
{
    let stem = file_stem_text(path);
    meta_from_probe(path, report, stem)
}

/// Builds the metadata of the file at `path`, whose name without extension
/// is `stem`, from the prober's report on it: `None` where the report has no
/// stream list or no audio stream.
pub fn meta_from_probe(path: &str, report: &ProbeReport, stem: Option<String>) -> (r: Option<TrackMeta>)
    requires
        probe_in_range(*report),
    ensures
        match report.streams {
            None => r is None,
            Some(s) => match first_audio_from(s@, 0) {
                None => r is None,
                Some(i) => r matches Some(m) && meta_matches_with(m, path@, *report, s@[i], text_view(stem)),
            },
        },
{
    let streams = match &report.streams {
        None => return None,
        Some(s) => s,
    };
    let i = match first_audio_index(streams) {
        None => return None,
        Some(i) => i,
    };
    let st = &streams[i];
    let sample_rate: u32 = match read_u32(&st.sample_rate) {
        Some(v) => v,
        None => 44100,
    };
    let format = match &st.codec_name {
        ProbeValue::Text(s) => s.clone(),
        _ => String::from_str("unknown"),
    };
    let file_stem = text_or(stem, "Unknown");
    let bit_rate: u32 = match read_text_u32(&report.bit_rate) {
        Some(v) => v,
        None => match read_text_u32(&st.bit_rate) {
            Some(v) => v,
            None => 0,
        },
    };
    let found = match read_u32(&st.bits_per_raw_sample) {
        Some(v) => Some(v),
        None => read_u32(&st.bits_per_sample),
    };
    let bit_depth: u32 = match found {
        Some(v) => if v > 0 { v } else { 0 },
        None => 0,
    };
    assert(stream_sample_rate(*st) == sample_rate);
    assert(stream_format(*st) == format@);
    assert(stream_bit_depth(*st) == bit_depth);
    assert(report.streams == Some(*streams));
    assert(first_audio_from(streams@, 0) == Some(i as int));
    let mut final_sample_rate = sample_rate;
    let mut final_bit_depth = bit_depth;
    if starts_with_dsd(&format) {
        if bit_depth == 8 {
            final_sample_rate = sample_rate * 8;
            final_bit_depth = 1;
        }
    }
    let title = match get_tag(&report.tags, "title", "TITLE") {
        Some(t) => t,
        None => file_stem,
    };
    let artist = text_or(get_tag(&report.tags, "artist", "ARTIST"), "Unknown");
    let album = text_or(get_tag(&report.tags, "album", "ALBUM"), "Unknown");
    Some(TrackMeta {
        path: String::from_str(path),
        title,
        artist,
        album,
        sample_rate: final_sample_rate,
        format,
        duration: report.duration_secs,
        bit_rate,
        bit_depth: final_bit_depth,
    })
}

/// Entry `i` of the tags is the first one named `key`.
pub open spec fn first_tag_at(t: Seq<(String, ProbeValue)>, key: Seq<char>, i: int) -> bool {
    &&& 0 <= i < t.len()
    &&& t[i].0@ == key
    &&& forall|j: int| 0 <= j < i ==> (#[trigger] t[j]).0@ != key
}

/// No entry of the tags is named `key`.
pub open spec fn no_tag(t: Seq<(String, ProbeValue)>, key: Seq<char>) -> bool {
    forall|j: int| 0 <= j < t.len() ==> (#[trigger] t[j]).0@ != key
}

proof fn lemma_tag_at(t: Seq<(String, ProbeValue)>, key: Seq<char>, i: int)
    requires
        first_tag_at(t, key, i),
    ensures
        tag_lookup(t, key) == Some(t[i].1),
    decreases t.len(),
{
    if i > 0 {
        assert(t[0].0@ != key);
        assert(first_tag_at(t.drop_first(), key, i - 1)) by {
            assert forall|j: int| 0 <= j < i - 1 implies (#[trigger] t.drop_first()[j]).0@ != key by {
                assert(t.drop_first()[j] == t[j + 1]);
            }
        }
        lemma_tag_at(t.drop_first(), key, i - 1);
    }
}

proof fn lemma_no_tag(t: Seq<(String, ProbeValue)>, key: Seq<char>)
    requires
        no_tag(t, key),
    ensures
        tag_lookup(t, key) is None,
    decreases t.len(),
{
    if t.len() > 0 {
        assert(t[0].0@ != key);
        assert(no_tag(t.drop_first(), key)) by {
            assert forall|j: int| 0 <= j < t.drop_first().len() implies (#[trigger] t.drop_first()[j]).0@ != key by {
                assert(t.drop_first()[j] == t[j + 1]);
            }
        }
        lemma_no_tag(t.drop_first(), key);
    }
}

/// A tag is read under its lower-case name first and under its upper-case
/// name only where there is no lower-case one: if entry `i` is the first
/// named `key` and holds a string, the field that `key` fills holds that
/// string; the same holds of `upper` where no entry is named `key`. This is
/// so for the title, the artist and the album, whatever the file's stem
/// (`meta_matches` is the case of the path's own stem).
pub proof fn law_tags_lower_then_upper(
    m: TrackMeta,
    path: Seq<char>,
    r: ProbeReport,
    st: ProbeStream,
    stem: Option<Seq<char>>,
    i: int,
)
    requires
        meta_matches_with(m, path, r, st, stem),
        r.tags is Some,
    ensures
        ({
            let t = r.tags->0@;
            &&& first_tag_at(t, "title"@, i) && value_text(t[i].1) is Some ==> m.title@ == value_text(t[i].1)->0
            &&& first_tag_at(t, "artist"@, i) && value_text(t[i].1) is Some ==> m.artist@ == value_text(t[i].1)->0
            &&& first_tag_at(t, "album"@, i) && value_text(t[i].1) is Some ==> m.album@ == value_text(t[i].1)->0
            &&& no_tag(t, "title"@) && first_tag_at(t, "TITLE"@, i) && value_text(t[i].1) is Some ==> m.title@ == value_text(t[i].1)->0
            &&& no_tag(t, "artist"@) && first_tag_at(t, "ARTIST"@, i) && value_text(t[i].1) is Some ==> m.artist@ == value_text(t[i].1)->0
            &&& no_tag(t, "album"@) && first_tag_at(t, "ALBUM"@, i) && value_text(t[i].1) is Some ==> m.album@ == value_text(t[i].1)->0
        }),
{
    let t = r.tags->0@;
    if 0 <= i < t.len() {
        if first_tag_at(t, "title"@, i) {
            lemma_tag_at(t, "title"@, i);
        }
        if first_tag_at(t, "artist"@, i) {
            lemma_tag_at(t, "artist"@, i);
        }
        if first_tag_at(t, "album"@, i) {
            lemma_tag_at(t, "album"@, i);
        }
        if no_tag(t, "title"@) && first_tag_at(t, "TITLE"@, i) {
            lemma_no_tag(t, "title"@);
            lemma_tag_at(t, "TITLE"@, i);
        }
        if no_tag(t, "artist"@) && first_tag_at(t, "ARTIST"@, i) {
            lemma_no_tag(t, "artist"@);
            lemma_tag_at(t, "ARTIST"@, i);
        }
        if no_tag(t, "album"@) && first_tag_at(t, "ALBUM"@, i) {
            lemma_no_tag(t, "album"@);
            lemma_tag_at(t, "ALBUM"@, i);
        }
    }
}

} // verus!
