use vstd::prelude::*;
use vstd::view::View as _;
use crate::sorting::{is_index_perm, stable_order, text_le, TextKey, is_stable_order, SortKey};
use crate::textnum::{chars_of, decimal_string, decimal_text, lowercase, spec_lowercase};
use crate::types::{Categories, TrackInfo};

verus! {

/// The extension of the last component of a path (`Path::extension`), as text.
pub uninterp spec fn spec_extension(path: Seq<char>) -> Option<Seq<char>>;

/// Calls `std::path::Path::extension`; the result is the extension's text,
/// the function named by `spec_extension`.
#[verifier::external_body]
fn extension_text(path: &str) -> (r: Option<String>)
    ensures
        match r {
            Some(s) => spec_extension(path@) == Some(s@),
            None => spec_extension(path@) is None,
        },
{
    match std::path::Path::new(path).extension() {
        Some(ext) => ext.to_str().map(String::from),
        None => None,
    }
}

/// The extensions, in lower case, of the files that the library indexes.
pub open spec fn is_audio_extension(e: Seq<char>) -> bool {
    ||| e == "flac"@
    ||| e == "wav"@
    ||| e == "dsf"@
    ||| e == "dff"@
    ||| e == "m4a"@
    ||| e == "mp3"@
}

/// Whether the library indexes the file at `path`: its extension, in lower
/// case, is one of the audio extensions.
pub open spec fn is_audio_path(path: Seq<char>) -> bool {
    match spec_extension(path) {
        Some(e) => is_audio_extension(spec_lowercase(e)),
        None => false,
    }
}

fn same(s: &String, lit: &str) -> (r: bool)
    ensures
        r == (s@ == lit@),
{
    *s == String::from_str(lit)
}

/// Whether a lower-case extension is one of the audio extensions.
pub fn is_audio_extension_text(e: &str) -> (r: bool)
    ensures
        r == is_audio_extension(e@),
{
    let l = String::from_str(e);
    same(&l, "flac") || same(&l, "wav") || same(&l, "dsf") || same(&l, "dff") || same(&l, "m4a") || same(&l, "mp3")
}

pub fn is_audio_file(path: &str) -> (r: bool)
    ensures
        r == is_audio_path(path@),
{
    match extension_text(path) {
        None => false,
        Some(e) => is_audio_extension_text(lowercase(e.as_str()).as_str()),
    }
}

/// The indexer reports its progress on every fifth file and on the last one.
pub fn should_report_progress(current: usize, total: usize) -> (r: bool)
    ensures
        r == (current % 5 == 0 || current == total),
{
    current % 5 == 0 || current == total
}

/// The fields of a track as the index stores them; each may be missing.
pub struct StoredTrack {
    pub title: Option<String>,
    pub artist: Option<String>,
    pub album: Option<String>,
    pub path: Option<String>,
    pub duration: Option<u64>,
    pub sample_rate: Option<u64>,
    pub bit_rate: Option<u64>,
    pub bit_depth: Option<u64>,
}

pub open spec fn text_or(o: Option<String>, d: Seq<char>) -> Seq<char> {
    match o {
        Some(s) => s@,
        None => d,
    }
}

pub open spec fn num_or(o: Option<u64>, d: u64) -> u32 {
    match o {
        Some(v) => v as u32,
        None => d as u32,
    }
}

/// The track that a stored document describes: a missing title or artist is
/// "Unknown", a missing path empty, a missing sample rate 44100 and any other
/// missing number 0; numbers are truncated to 32 bits. The index keeps no genre.
pub open spec fn stored_track_matches(t: TrackInfo, d: StoredTrack) -> bool {
    &&& t.title@ == text_or(d.title, "Unknown"@)
    &&& t.artist@ == text_or(d.artist, "Unknown"@)
    &&& t.album@ == text_or(d.album, "Unknown"@)
    &&& t.path@ == text_or(d.path, ""@)
    &&& t.genre@ == Seq::<char>::empty()
    &&& t.duration == num_or(d.duration, 0)
    &&& t.sample_rate == num_or(d.sample_rate, 44100)
    &&& t.bit_rate == num_or(d.bit_rate, 0)
    &&& t.bit_depth == num_or(d.bit_depth, 0)
}

fn text_or_default(o: &Option<String>, d: &str) -> (r: String)
    ensures
        r@ == text_or(*o, d@),
{
    match o {
        Some(s) => s.clone(),
        None => String::from_str(d),
    }
}

fn num_or_default(o: Option<u64>, d: u64) -> (r: u32)
    ensures
        r == num_or(o, d),
{
    match o {
        Some(v) => v as u32,
        None => d as u32,
    }
}

pub fn track_from_stored(d: &StoredTrack) -> (t: TrackInfo)
    ensures
        stored_track_matches(t, *d),
{
    TrackInfo {
        title: text_or_default(&d.title, "Unknown"),
        artist: text_or_default(&d.artist, "Unknown"),
        path: text_or_default(&d.path, ""),
        duration: num_or_default(d.duration, 0),
        album: text_or_default(&d.album, "Unknown"),
        genre: String::new(),
        sample_rate: num_or_default(d.sample_rate, 44100),
        bit_rate: num_or_default(d.bit_rate, 0),
        bit_depth: num_or_default(d.bit_depth, 0),
    }
}

/// The sort key of a track: its title in lower case.
pub open spec fn title_key(t: TrackInfo) -> Seq<char> {
    spec_lowercase(t.title@)
}

/// `out` is `inp` sorted by title in lower case, tracks with equal keys
/// keeping their order (`sort_by` on the lower-cased titles).
pub open spec fn ordered_by_title(out: Seq<TrackInfo>, inp: Seq<TrackInfo>) -> bool {
    exists|p: Seq<usize>|
        {
            &&& is_index_perm(p, inp.len())
            &&& out.len() == inp.len()
            &&& forall|k: int| 0 <= k < out.len() ==> #[trigger] out[k] == inp[p[k] as int]
            &&& forall|a: int, b: int|
                #![trigger p[a], p[b]]
                0 <= a < b < p.len() ==> text_le(title_key(inp[p[a] as int]), title_key(inp[p[b] as int]))
            &&& forall|a: int, b: int|
                #![trigger p[a], p[b]]
                0 <= a < b < p.len() && text_le(title_key(inp[p[b] as int]), title_key(inp[p[a] as int]))
                    ==> p[a] < p[b]
        }
}

/// Sorts tracks by title, ignoring case, keeping the order of equal titles.
pub fn sort_by_title(tracks: &Vec<TrackInfo>) -> (r: Vec<TrackInfo>)
    ensures
        ordered_by_title(r@, tracks@),
{
    let n = tracks.len();
    let mut keys: Vec<TextKey> = Vec::new();
    let mut i: usize = 0;
    while i < n
        invariant
            i <= n,
            n == tracks@.len(),
            keys@.len() == i,
            forall|j: int| 0 <= j < i ==> (#[trigger] keys@[j]).chars@ == title_key(tracks@[j]),
        decreases n - i,
    {
        let l = lowercase(tracks[i].title.as_str());
        keys.push(TextKey { chars: chars_of(l.as_str()) });
        i = i + 1;
    }
    let p = stable_order(&keys);
    let mut out: Vec<TrackInfo> = Vec::new();
    let mut k: usize = 0;
    while k < n
        invariant
            k <= n,
            n == tracks@.len(),
            n == keys@.len(),
            is_stable_order(p@, keys@),
            out@.len() == k,
            forall|j: int| 0 <= j < k ==> #[trigger] out@[j] == tracks@[p@[j] as int],
        decreases n - k,
    {
        let idx = p[k];
        out.push(tracks[idx].clone());
        k = k + 1;
    }
    proof {
        assert forall|a: int, b: int| #![trigger p@[a], p@[b]] 0 <= a < b < p@.len() implies text_le(
            title_key(tracks@[p@[a] as int]),
            title_key(tracks@[p@[b] as int]),
        ) by {
            assert(TextKey::key_le(keys@[p@[a] as int], keys@[p@[b] as int]));
        }
        assert forall|a: int, b: int| #![trigger p@[a], p@[b]] 0 <= a < b < p@.len() && text_le(
            title_key(tracks@[p@[b] as int]),
            title_key(tracks@[p@[a] as int]),
        ) implies p@[a] < p@[b] by {
            assert(TextKey::key_le(keys@[p@[b] as int], keys@[p@[a] as int]));
        }
    }
    out
}

/// The tracks of the index, in title order: what the library lists.
pub fn tracks_from_stored(docs: &Vec<StoredTrack>) -> (r: Vec<TrackInfo>)
    ensures
        exists|conv: Seq<TrackInfo>|
            {
                &&& conv.len() == docs@.len()
                &&& forall|k: int| 0 <= k < conv.len() ==> stored_track_matches(#[trigger] conv[k], docs@[k])
                &&& ordered_by_title(r@, conv)
            },
{
    let mut conv: Vec<TrackInfo> = Vec::new();
    let mut i: usize = 0;
    while i < docs.len()
        invariant
            i <= docs@.len(),
            conv@.len() == i,
            forall|k: int| 0 <= k < i ==> stored_track_matches(#[trigger] conv@[k], docs@[k]),
        decreases docs@.len() - i,
    {
        conv.push(track_from_stored(&docs[i]));
        i = i + 1;
    }
    sort_by_title(&conv)
}

} // verus!

verus! {

/// The value of a track under a category, as the category browser shows it.
pub open spec fn category_label(t: TrackInfo, c: Categories) -> Seq<char> {
    match c {
        Categories::AlbumArtist => t.artist@,
        Categories::Album => t.album@,
        Categories::Genre => t.genre@,
        Categories::SampleRate => decimal_text(t.sample_rate as nat),
        Categories::BitRate => decimal_text(t.bit_rate as nat),
        Categories::BitDepth => decimal_text(t.bit_depth as nat),
    }
}

pub fn track_category_label(t: &TrackInfo, c: Categories) -> (r: String)
    ensures
        r@ == category_label(*t, c),
{
    match c {
        Categories::AlbumArtist => t.artist.clone(),
        Categories::Album => t.album.clone(),
        Categories::Genre => t.genre.clone(),
        Categories::SampleRate => decimal_string(t.sample_rate as u64),
        Categories::BitRate => decimal_string(t.bit_rate as u64),
        Categories::BitDepth => decimal_string(t.bit_depth as u64),
    }
}

/// The distinct values of a category over some tracks, in order of first appearance.
pub open spec fn distinct_labels(ts: Seq<TrackInfo>, c: Categories) -> Seq<Seq<char>>
    decreases ts.len(),
{
    if ts.len() == 0 {
        Seq::empty()
    } else {
        let prev = distinct_labels(ts.drop_last(), c);
        let l = category_label(ts.last(), c);
        if prev.contains(l) {
            prev
        } else {
            prev.push(l)
        }
    }
}

/// The tracks whose value under the category is `v`, in order.
pub open spec fn in_category(ts: Seq<TrackInfo>, c: Categories, v: Seq<char>) -> Seq<TrackInfo>
    decreases ts.len(),
{
    if ts.len() == 0 {
        Seq::empty()
    } else {
        let prev = in_category(ts.drop_last(), c, v);
        if category_label(ts.last(), c) == v {
            prev.push(ts.last())
        } else {
            prev
        }
    }
}

pub open spec fn texts_view(v: Seq<String>) -> Seq<Seq<char>> {
    v.map_values(|s: String| s@)
}

fn contains_text(v: &Vec<String>, s: &String) -> (r: bool)
    ensures
        r == texts_view(v@).contains(s@),
{
    let mut i: usize = 0;
    while i < v.len()
        invariant
            i <= v@.len(),
            forall|j: int| 0 <= j < i ==> v@[j]@ != s@,
        decreases v@.len() - i,
    {
        if v[i] == *s {
            assert(texts_view(v@)[i as int] == s@);
            return true;
        }
        i = i + 1;
    }
    proof {
        if texts_view(v@).contains(s@) {
            let j = choose|j: int| 0 <= j < texts_view(v@).len() && texts_view(v@)[j] == s@;
            assert(v@[j]@ == s@);
        }
    }
    false
}

/// The values that the category browser lists for a category.
pub fn distinct_category_values(catalog: &Vec<TrackInfo>, c: Categories) -> (r: Vec<String>)
    ensures
        texts_view(r@) == distinct_labels(catalog@, c),
{
    let mut out: Vec<String> = Vec::new();
    let mut i: usize = 0;
    while i < catalog.len()
        invariant
            i <= catalog@.len(),
            texts_view(out@) == distinct_labels(catalog@.take(i as int), c),
        decreases catalog@.len() - i,
    {
        let l = track_category_label(&catalog[i], c);
        assert(catalog@.take(i + 1).drop_last() =~= catalog@.take(i as int));
        assert(catalog@.take(i + 1).last() == catalog@[i as int]);
        if !contains_text(&out, &l) {
            let ghost before = out@;
            out.push(l);
            assert(texts_view(out@) =~= texts_view(before).push(l@));
        }
        i = i + 1;
    }
    assert(catalog@.take(i as int) =~= catalog@);
    out
}

/// The tracks that the category browser lists under the value `v`.
pub fn tracks_in_category(catalog: &Vec<TrackInfo>, c: Categories, v: &str) -> (r: Vec<TrackInfo>)
    ensures
        r@ == in_category(catalog@, c, v@),
{
    let mut out: Vec<TrackInfo> = Vec::new();
    let mut i: usize = 0;
    while i < catalog.len()
        invariant
            i <= catalog@.len(),
            out@ == in_category(catalog@.take(i as int), c, v@),
        decreases catalog@.len() - i,
    {
        let l = track_category_label(&catalog[i], c);
        assert(catalog@.take(i + 1).drop_last() =~= catalog@.take(i as int));
        assert(catalog@.take(i + 1).last() == catalog@[i as int]);
        if l == String::from_str(v) {
            out.push(catalog[i].clone());
        }
        i = i + 1;
    }
    assert(catalog@.take(i as int) =~= catalog@);
    out
}

} // verus!

verus! {

proof fn lemma_distinct_labels(ts: Seq<TrackInfo>, c: Categories)
    ensures
        distinct_labels(ts, c).no_duplicates(),
        forall|i: int| 0 <= i < ts.len() ==> distinct_labels(ts, c).contains(#[trigger] category_label(ts[i], c)),
        forall|v: Seq<char>| #[trigger] distinct_labels(ts, c).contains(v) ==> exists|i: int| 0 <= i < ts.len() && category_label(ts[i], c) == v,
    decreases ts.len(),
{
    if ts.len() > 0 {
        let p = ts.drop_last();
        lemma_distinct_labels(p, c);
        let d = distinct_labels(ts, c);
        let dp = distinct_labels(p, c);
        let l = category_label(ts.last(), c);
        assert forall|i: int| 0 <= i < ts.len() implies d.contains(#[trigger] category_label(ts[i], c)) by {
            if i < ts.len() - 1 {
                assert(ts[i] == p[i]);
                assert(dp.contains(category_label(p[i], c)));
                if !dp.contains(l) {
                    let k = choose|k: int| 0 <= k < dp.len() && dp[k] == category_label(p[i], c);
                    assert(d[k] == dp[k]);
                }
            } else {
                if !dp.contains(l) {
                    assert(d[dp.len() as int] == l);
                }
            }
        }
        assert forall|v: Seq<char>| #[trigger] d.contains(v) implies exists|i: int| 0 <= i < ts.len() && category_label(ts[i], c) == v by {
            if dp.contains(v) {
                let i = choose|i: int| 0 <= i < p.len() && category_label(p[i], c) == v;
                assert(ts[i] == p[i]);
            } else {
                assert(v == l);
                assert(category_label(ts[ts.len() - 1], c) == v);
            }
        }
    }
}

proof fn lemma_in_category_nonempty(ts: Seq<TrackInfo>, c: Categories, v: Seq<char>, i: int)
    requires
        0 <= i < ts.len(),
        category_label(ts[i], c) == v,
    ensures
        in_category(ts, c, v).len() > 0,
    decreases ts.len(),
{
    if i < ts.len() - 1 {
        lemma_in_category_nonempty(ts.drop_last(), c, v, i);
    }
}

/// The category browser lists each value of a category once, lists the value
/// of every track, and every value it lists leads to at least one track.
pub proof fn law_category_browser(ts: Seq<TrackInfo>, c: Categories)
    ensures
        distinct_labels(ts, c).no_duplicates(),
        forall|i: int| 0 <= i < ts.len() ==> distinct_labels(ts, c).contains(#[trigger] category_label(ts[i], c)),
        forall|v: Seq<char>| #[trigger] distinct_labels(ts, c).contains(v) ==> in_category(ts, c, v).len() > 0,
{
    lemma_distinct_labels(ts, c);
    assert forall|v: Seq<char>| #[trigger] distinct_labels(ts, c).contains(v) implies in_category(ts, c, v).len() > 0 by {
        let i = choose|i: int| 0 <= i < ts.len() && category_label(ts[i], c) == v;
        lemma_in_category_nonempty(ts, c, v, i);
    }
}

} // verus!
