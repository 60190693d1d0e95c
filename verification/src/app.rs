use vstd::prelude::*;
use vstd::view::View as _;
use std::collections::BTreeMap;
use fuzzy_matcher::FuzzyMatcher;
use crate::config::UiConfig;
use crate::library::{distinct_category_values, distinct_labels, in_category, texts_view, tracks_in_category};
use crate::sorting::{is_index_perm, stable_order, is_stable_order, ScoreDesc, SortKey};
use crate::lyrics::{lrc_lyrics, lyrics_match, no_lyrics, parse_lyrics, lrc_slices_ok};
use crate::textnum::{pop_char, push_char};
use vstd::string::StringSliceAdditionalSpecFns;
use crate::types::{Categories, DisplayItem, Key, Modal, Settings, SongInfo, TrackInfo, View};

verus! {

/// The score of the fuzzy match of `pattern` in `choice`, if it matches
/// (`SkimMatcherV2::default().fuzzy_match`).
pub uninterp spec fn spec_fuzzy_score(choice: Seq<char>, pattern: Seq<char>) -> Option<i64>;

/// Calls `fuzzy_matcher::skim::SkimMatcherV2::fuzzy_match` with the default
/// matcher; the result is named by `spec_fuzzy_score`.
#[verifier::external_body]
fn fuzzy_score(choice: &str, pattern: &str) -> (r: Option<i64>)
    ensures
        r == spec_fuzzy_score(choice@, pattern@),
{
    fuzzy_matcher::skim::SkimMatcherV2::default().fuzzy_match(choice, pattern)
}

/// What a list line shows and plays.
pub type ItemView = (Seq<char>, Option<TrackInfo>);

pub open spec fn items_view(items: Seq<DisplayItem>) -> Seq<ItemView> {
    items.map_values(|d: DisplayItem| (d.label@, d.track))
}

pub open spec fn menu(labels: Seq<Seq<char>>) -> Seq<ItemView> {
    labels.map_values(|l: Seq<char>| (l, Option::<TrackInfo>::None))
}

/// The line of a track: "title - artist".
pub open spec fn track_line(t: TrackInfo) -> Seq<char> {
    t.title@ + " - "@ + t.artist@
}

pub open spec fn track_items(ts: Seq<TrackInfo>) -> Seq<ItemView> {
    ts.map_values(|t: TrackInfo| (track_line(t), Some(t)))
}

pub open spec fn home_labels() -> Seq<Seq<char>> {
    seq![
        "󰎆 所有歌曲 (AllTracks)"@,
        "󰓠 歌曲分类 (Categories)"@,
        "󰲹 播放列表 (Playlist)"@,
        "⚙ 系统设置 (Settings)"@,
    ]
}

pub open spec fn categories_labels() -> Seq<Seq<char>> {
    seq!["󰠃 专辑艺术家"@, "󰀥 专辑"@, "󰔊 流派"@, "󰓡 采样率"@, "󰈈 比特率"@, "󰾆 位深"@]
}

pub open spec fn settings_labels() -> Seq<Seq<char>> {
    seq!["󰔊 设备选择 (Output Device)"@, " 帮助 (Helps)"@]
}

/// The lines of a screen before any search filter.
pub open spec fn raw_items(v: View, catalog: Seq<TrackInfo>) -> Seq<ItemView> {
    match v {
        View::Home => menu(home_labels()),
        View::CategoriesMenu => menu(categories_labels()),
        View::CategoryList(c) => menu(distinct_labels(catalog, c)),
        View::CategoryTracks(c, val) => track_items(in_category(catalog, c, val@)),
        View::SettingsMenu => menu(settings_labels()),
        View::AllTracks => track_items(catalog),
        _ => Seq::empty(),
    }
}

/// The lines that match the search pattern, with their scores, in order.
pub open spec fn fuzzy_keep(raw: Seq<ItemView>, pat: Seq<char>) -> Seq<(i64, ItemView)>
    decreases raw.len(),
{
    if raw.len() == 0 {
        Seq::empty()
    } else {
        let prev = fuzzy_keep(raw.drop_last(), pat);
        match spec_fuzzy_score(raw.last().0, pat) {
            Some(s) => prev.push((s, raw.last())),
            None => prev,
        }
    }
}

/// `out` is `kept` sorted by descending score, lines of equal score keeping
/// their order.
pub open spec fn ranked(out: Seq<ItemView>, kept: Seq<(i64, ItemView)>) -> bool {
    exists|p: Seq<usize>|
        {
            &&& is_index_perm(p, kept.len())
            &&& out.len() == kept.len()
            &&& forall|k: int| 0 <= k < out.len() ==> #[trigger] out[k] == kept[p[k] as int].1
            &&& forall|a: int, b: int|
                #![trigger p[a], p[b]]
                0 <= a < b < p.len() ==> kept[p[a] as int].0 >= kept[p[b] as int].0
            &&& forall|a: int, b: int|
                #![trigger p[a], p[b]]
                0 <= a < b < p.len() && kept[p[b] as int].0 >= kept[p[a] as int].0 ==> p[a] < p[b]
        }
}

/// The lines of the list pane: the screen's lines, or while a search
/// pattern is typed, the matching ones best first.
pub open spec fn listed(out: Seq<ItemView>, v: View, catalog: Seq<TrackInfo>, modal: Modal, search: Seq<char>) -> bool {
    if modal == Modal::Search && search.len() > 0 {
        ranked(out, fuzzy_keep(raw_items(v, catalog), search))
    } else {
        out == raw_items(v, catalog)
    }
}

/// The selection kept after the list changed: the same line, or the last
/// one if the list got shorter; nothing in an empty list.
pub open spec fn clamp_selection(sel: Option<usize>, len: nat) -> Option<usize> {
    if len > 0 {
        let cur = match sel {
            Some(i) => i as int,
            None => 0,
        };
        Some((if cur < len - 1 { cur } else { len - 1 }) as usize)
    } else {
        None
    }
}

/// The lines that have a score, with their scores, in order; `scores[i]` is
/// the score of line `i` (`None`: the line does not match).
pub open spec fn keep_scored(raw: Seq<ItemView>, scores: Seq<Option<i64>>) -> Seq<(i64, ItemView)>
    decreases raw.len(),
{
    if raw.len() == 0 {
        Seq::empty()
    } else {
        let prev = keep_scored(raw.drop_last(), scores);
        match scores[raw.len() - 1] {
            Some(s) => prev.push((s, raw.last())),
            None => prev,
        }
    }
}

/// The score of the search pattern's match in each line.
pub open spec fn match_scores(raw: Seq<ItemView>, pat: Seq<char>) -> Seq<Option<i64>> {
    raw.map_values(|l: ItemView| spec_fuzzy_score(l.0, pat))
}

proof fn lemma_keep_scored_prefix(raw: Seq<ItemView>, s1: Seq<Option<i64>>, s2: Seq<Option<i64>>)
    requires
        forall|i: int| 0 <= i < raw.len() ==> s1[i] == s2[i],
    ensures
        keep_scored(raw, s1) == keep_scored(raw, s2),
    decreases raw.len(),
{
    if raw.len() > 0 {
        lemma_keep_scored_prefix(raw.drop_last(), s1, s2);
        assert(s1[raw.len() - 1] == s2[raw.len() - 1]);
    }
}

proof fn lemma_keep_scored_fuzzy(raw: Seq<ItemView>, pat: Seq<char>)
    ensures
        keep_scored(raw, match_scores(raw, pat)) == fuzzy_keep(raw, pat),
    decreases raw.len(),
{
    if raw.len() > 0 {
        let prev = raw.drop_last();
        lemma_keep_scored_fuzzy(prev, pat);
        lemma_keep_scored_prefix(prev, match_scores(raw, pat), match_scores(prev, pat));
        assert(match_scores(raw, pat)[raw.len() - 1] == spec_fuzzy_score(raw.last().0, pat));
    }
}

/// The lines that have a score (`scores[i]` is that of line `i`), best
/// score first; lines of equal score keep their order.
pub fn rank_lines(raw: Vec<DisplayItem>, scores: &Vec<Option<i64>>) -> (r: Vec<DisplayItem>)
    requires
        scores@.len() == raw@.len(),
    ensures
        ranked(items_view(r@), keep_scored(items_view(raw@), scores@)),
{
    let mut keys: Vec<ScoreDesc> = Vec::new();
    let mut kept: Vec<DisplayItem> = Vec::new();
    let mut i: usize = 0;
    while i < raw.len()
        invariant
            i <= raw@.len(),
            scores@.len() == raw@.len(),
            keys@.len() == kept@.len(),
            keys@.len() == keep_scored(items_view(raw@.take(i as int)), scores@).len(),
            forall|k: int| 0 <= k < keys@.len() ==> (#[trigger] keys@[k]).score == keep_scored(items_view(raw@.take(i as int)), scores@)[k].0,
            forall|k: int| 0 <= k < kept@.len() ==> (#[trigger] kept@[k]).label@ == keep_scored(items_view(raw@.take(i as int)), scores@)[k].1.0
                && kept@[k].track == keep_scored(items_view(raw@.take(i as int)), scores@)[k].1.1,
        decreases raw@.len() - i,
    {
        let ghost prev = keep_scored(items_view(raw@.take(i as int)), scores@);
        assert(items_view(raw@.take(i + 1)).drop_last() =~= items_view(raw@.take(i as int)));
        assert(items_view(raw@.take(i + 1)).last() == items_view(raw@)[i as int]);
        match scores[i] {
            Some(s) => {
                keys.push(ScoreDesc { score: s });
                kept.push(raw[i].clone());
            },
            None => {},
        }
        i = i + 1;
    }
    assert(raw@.take(i as int) =~= raw@);
    let ghost keep = keep_scored(items_view(raw@), scores@);
    let p = stable_order(&keys);
    let mut out: Vec<DisplayItem> = Vec::new();
    let mut k: usize = 0;
    while k < p.len()
        invariant
            k <= p@.len(),
            p@.len() == keys@.len(),
            keys@.len() == kept@.len(),
            is_stable_order(p@, keys@),
            out@.len() == k,
            forall|j: int| 0 <= j < k ==> #[trigger] out@[j] == kept@[p@[j] as int],
        decreases p@.len() - k,
    {
        let idx = p[k];
        out.push(kept[idx].clone());
        k = k + 1;
    }
    proof {
        assert forall|j: int| 0 <= j < out@.len() implies #[trigger] items_view(out@)[j] == keep[p@[j] as int].1 by {
            assert(kept@[p@[j] as int].label@ == keep[p@[j] as int].1.0);
        }
        assert forall|a: int, b: int| #![trigger p@[a], p@[b]] 0 <= a < b < p@.len() implies keep[p@[a] as int].0 >= keep[p@[b] as int].0 by {
            assert(ScoreDesc::key_le(keys@[p@[a] as int], keys@[p@[b] as int]));
        }
        assert forall|a: int, b: int| #![trigger p@[a], p@[b]] 0 <= a < b < p@.len() && keep[p@[b] as int].0 >= keep[p@[a] as int].0 implies p@[a] < p@[b] by {
            assert(ScoreDesc::key_le(keys@[p@[b] as int], keys@[p@[a] as int]));
        }
    }
    out
}


/// The state of the text interface.
pub struct App {
    pub ui_config: UiConfig,
    pub is_scanning: bool,
    pub spinner_index: usize,
    pub scan_progress: (usize, usize),
    pub view_stack: Vec<View>,
    /// The selected line of the list pane.
    pub selected: Option<usize>,
    /// The selected line of the pop-up list.
    pub modal_selected: Option<usize>,
    pub items: Vec<DisplayItem>,
    pub modal_items: Vec<String>,
    pub modal: Modal,
    pub search_buf: String,
    pub current_song: Option<SongInfo>,
    pub lyrics: BTreeMap<u32, String>,
    pub current_playlist: Vec<TrackInfo>,
    pub current_playlist_idx: usize,
    /// The tracks of the library, in title order.
    pub catalog: Vec<TrackInfo>,
}

impl App {
    /// The screen on top of the stack.
    pub open spec fn top(&self) -> View {
        self.view_stack@.last()
    }

    pub open spec fn wf(&self) -> bool {
        &&& self.view_stack@.len() > 0
        &&& (self.items@.len() > 0 && self.selected is Some) ==> self.selected->0 < self.items@.len()
        &&& self.current_playlist@.len() > 0 ==> self.current_playlist_idx < self.current_playlist@.len()
        &&& (self.modal_items@.len() > 0 && self.modal_selected is Some) ==> self.modal_selected->0 < self.modal_items@.len()
    }

    /// The fields that navigation leaves alone.
    pub open spec fn same_status(&self, other: &App) -> bool {
        &&& self.ui_config == other.ui_config
        &&& self.is_scanning == other.is_scanning
        &&& self.spinner_index == other.spinner_index
        &&& self.scan_progress == other.scan_progress
        &&& self.lyrics@ == other.lyrics@
        &&& self.catalog@ == other.catalog@
    }

    pub open spec fn same_playback(&self, other: &App) -> bool {
        &&& self.current_song == other.current_song
        &&& self.current_playlist@ == other.current_playlist@
        &&& self.current_playlist_idx == other.current_playlist_idx
    }

    pub open spec fn same_browse(&self, other: &App) -> bool {
        &&& self.view_stack@ == other.view_stack@
        &&& self.modal == other.modal
        &&& self.search_buf@ == other.search_buf@
        &&& self.modal_items@ == other.modal_items@
        &&& self.modal_selected == other.modal_selected
    }

    /// `post` is `pre` with its list refreshed for the screen on top.
    pub open spec fn refreshed(pre: &App, post: &App) -> bool {
        &&& listed(items_view(post.items@), pre.top(), pre.catalog@, pre.modal, pre.search_buf@)
        &&& post.selected == clamp_selection(pre.selected, post.items@.len())
        &&& post.same_browse(pre)
        &&& post.same_playback(pre)
        &&& post.same_status(pre)
    }

    fn menu_item(label: &str) -> (r: DisplayItem)
        ensures
            r.label@ == label@,
            r.track is None,
    {
        DisplayItem { label: String::from_str(label), track: None }
    }

    fn label_items(labels: Vec<String>) -> (r: Vec<DisplayItem>)
        ensures
            items_view(r@) == menu(texts_view(labels@)),
    {
        let mut out: Vec<DisplayItem> = Vec::new();
        let mut i: usize = 0;
        while i < labels.len()
            invariant
                i <= labels@.len(),
                out@.len() == i,
                forall|j: int| 0 <= j < i ==> (#[trigger] out@[j]).label@ == labels@[j]@ && out@[j].track is None,
            decreases labels@.len() - i,
        {
            out.push(DisplayItem { label: labels[i].clone(), track: None });
            i = i + 1;
        }
        assert(items_view(out@) =~= menu(texts_view(labels@)));
        out
    }

    fn track_item(t: &TrackInfo) -> (r: DisplayItem)
        ensures
            r.label@ == track_line(*t),
            r.track == Some(*t),
    {
        let label = t.title.clone().concat(" - ").concat(t.artist.as_str());
        DisplayItem { label, track: Some(t.clone()) }
    }

    fn track_list_items(ts: &Vec<TrackInfo>) -> (r: Vec<DisplayItem>)
        ensures
            items_view(r@) == track_items(ts@),
    {
        let mut out: Vec<DisplayItem> = Vec::new();
        let mut i: usize = 0;
        while i < ts.len()
            invariant
                i <= ts@.len(),
                out@.len() == i,
                forall|j: int| 0 <= j < i ==> (#[trigger] out@[j]).label@ == track_line(ts@[j]) && out@[j].track == Some(ts@[j]),
            decreases ts@.len() - i,
        {
            out.push(Self::track_item(&ts[i]));
            i = i + 1;
        }
        assert(items_view(out@) =~= track_items(ts@));
        out
    }

    /// The lines of the screen `v`, before any search filter.
    fn raw_list(&self, v: &View) -> (r: Vec<DisplayItem>)
        ensures
            items_view(r@) == raw_items(*v, self.catalog@),
    {
        match v {
            View::Home => {
                let mut r: Vec<DisplayItem> = Vec::new();
                r.push(Self::menu_item("󰎆 所有歌曲 (AllTracks)"));
                r.push(Self::menu_item("󰓠 歌曲分类 (Categories)"));
                r.push(Self::menu_item("󰲹 播放列表 (Playlist)"));
                r.push(Self::menu_item("⚙ 系统设置 (Settings)"));
                assert(items_view(r@) =~= menu(home_labels()));
                r
            },
            View::CategoriesMenu => {
                let mut r: Vec<DisplayItem> = Vec::new();
                r.push(Self::menu_item("󰠃 专辑艺术家"));
                r.push(Self::menu_item("󰀥 专辑"));
                r.push(Self::menu_item("󰔊 流派"));
                r.push(Self::menu_item("󰓡 采样率"));
                r.push(Self::menu_item("󰈈 比特率"));
                r.push(Self::menu_item("󰾆 位深"));
                assert(items_view(r@) =~= menu(categories_labels()));
                r
            },
            View::CategoryList(c) => Self::label_items(distinct_category_values(&self.catalog, *c)),
            View::CategoryTracks(c, val) => {
                let ts = tracks_in_category(&self.catalog, *c, val.as_str());
                Self::track_list_items(&ts)
            },
            View::SettingsMenu => {
                let mut r: Vec<DisplayItem> = Vec::new();
                r.push(Self::menu_item("󰔊 设备选择 (Output Device)"));
                r.push(Self::menu_item(" 帮助 (Helps)"));
                assert(items_view(r@) =~= menu(settings_labels()));
                r
            },
            View::AllTracks => Self::track_list_items(&self.catalog),
            _ => {
                let r: Vec<DisplayItem> = Vec::new();
                assert(items_view(r@) =~= Seq::<ItemView>::empty());
                r
            },
        }
    }

    /// The lines that match `pat`, best score first.
    fn rank_matches(raw: Vec<DisplayItem>, pat: &str) -> (r: Vec<DisplayItem>)
        ensures
            ranked(items_view(r@), fuzzy_keep(items_view(raw@), pat@)),
    {
        let mut scores: Vec<Option<i64>> = Vec::new();
        let mut i: usize = 0;
        while i < raw.len()
            invariant
                i <= raw@.len(),
                scores@.len() == i,
                forall|k: int| 0 <= k < i ==> #[trigger] scores@[k] == spec_fuzzy_score(raw@[k].label@, pat@),
            decreases raw@.len() - i,
        {
            scores.push(fuzzy_score(raw[i].label.as_str(), pat));
            i = i + 1;
        }
        proof {
            assert(scores@ =~= match_scores(items_view(raw@), pat@));
            lemma_keep_scored_fuzzy(items_view(raw@), pat@);
        }
        rank_lines(raw, &scores)
    }

    /// Rebuilds the list pane for the screen on top, applying the search
    /// pattern while one is typed, and keeps the selection inside the list.
    pub fn update_list(&mut self)
        requires
            old(self).view_stack@.len() > 0,
        ensures
            App::refreshed(old(self), final(self)),
            old(self).wf() ==> final(self).wf(),
    {
        let view = self.view_stack[self.view_stack.len() - 1].clone();
        let raw = self.raw_list(&view);
        let searching = self.modal == Modal::Search && !self.search_buf.as_str().is_empty();
        if searching {
            self.items = Self::rank_matches(raw, self.search_buf.as_str());
        } else {
            self.items = raw;
        }
        if self.items.len() > 0 {
            let curr = match self.selected {
                Some(i) => i,
                None => 0,
            };
            let last = self.items.len() - 1;
            self.selected = Some(if curr < last { curr } else { last });
        } else {
            self.selected = None;
        }
    }
}


/// How the media controls show the player.
#[derive(Clone, Copy, Debug, PartialEq, Eq, Structural)]
pub enum Playback {
    Playing,
    Paused,
    Stopped,
}

/// Work for the host, in the order given: the audio engine, the lyrics file
/// and the system media controls.
pub enum Effect {
    /// Start playing the file.
    EnginePlay(String),
    /// Stop playing.
    EngineStop,
    /// Set the engine's pause flag.
    SetEnginePaused(bool),
    /// Load the lyrics that belong to this music file.
    LoadLyrics(String),
    /// Publish the playing track to the media controls.
    PublishTrack { title: String, artist: String, duration: u32 },
    /// Publish the playback state to the media controls.
    PublishPlayback(Playback),
}

/// A command from the system media controls.
#[derive(Clone, Copy, Debug, PartialEq, Eq, Structural)]
pub enum MediaCommand {
    Next,
    Previous,
    Play,
    Pause,
    Toggle,
    Stop,
    Other,
}

/// The label that the category browser shows for a category it cannot list.
pub open spec fn unlisted_label() -> Seq<char> {
    "(暂未实现此分类)"@
}

pub open spec fn is_track_view(v: View) -> bool {
    v is AllTracks || v is CategoryTracks || v is Playlist
}

/// What the status bar shows for a track that starts playing.
pub open spec fn song_of(t: TrackInfo) -> SongInfo {
    SongInfo {
        title: t.title,
        artist: t.artist,
        sample_rate: t.sample_rate,
        elapsed: 0,
        duration: t.duration,
        bit_rate: t.bit_rate,
        bit_depth: t.bit_depth,
    }
}

/// The work that starting a track gives the host.
pub open spec fn play_effects(t: TrackInfo) -> Seq<Effect> {
    seq![
        Effect::EnginePlay(t.path),
        Effect::LoadLyrics(t.path),
        Effect::PublishTrack { title: t.title, artist: t.artist, duration: t.duration },
        Effect::PublishPlayback(Playback::Playing),
    ]
}

/// The tracks of the lines that have one, in order.
pub open spec fn item_tracks(items: Seq<DisplayItem>) -> Seq<TrackInfo>
    decreases items.len(),
{
    if items.len() == 0 {
        Seq::empty()
    } else {
        let prev = item_tracks(items.drop_last());
        match items.last().track {
            Some(t) => prev.push(t),
            None => prev,
        }
    }
}

pub open spec fn sel_or_zero(sel: Option<usize>) -> int {
    match sel {
        Some(i) => i as int,
        None => 0,
    }
}

/// The line below the selection, wrapping to the first.
pub open spec fn sel_down(sel: Option<usize>, n: nat) -> usize {
    match sel {
        None => 0,
        Some(i) => if i >= (if n > 0 { n - 1 } else { 0 }) { 0 } else { (i + 1) as usize },
    }
}

/// The line above the selection, wrapping to the last.
pub open spec fn sel_up(sel: Option<usize>, n: nat) -> usize {
    match sel {
        None => 0,
        Some(i) => if i == 0 { (if n > 0 { n - 1 } else { 0 }) as usize } else { (i - 1) as usize },
    }
}

/// The screen that each line of the home menu opens.
pub open spec fn home_target(idx: int) -> Option<View> {
    if idx == 0 {
        Some(View::AllTracks)
    } else if idx == 1 {
        Some(View::CategoriesMenu)
    } else if idx == 2 {
        Some(View::Playlist)
    } else if idx == 3 {
        Some(View::SettingsMenu)
    } else {
        None
    }
}

/// The category that each line of the categories menu opens.
pub open spec fn category_at(idx: int) -> Categories {
    if idx == 1 {
        Categories::Album
    } else if idx == 2 {
        Categories::Genre
    } else if idx == 3 {
        Categories::SampleRate
    } else if idx == 4 {
        Categories::BitRate
    } else if idx == 5 {
        Categories::BitDepth
    } else {
        Categories::AlbumArtist
    }
}

pub open spec fn settings_target(idx: int) -> Option<View> {
    if idx == 0 {
        Some(View::SettingsDetail(Settings::SelectOutputDevice))
    } else if idx == 1 {
        Some(View::SettingsDetail(Settings::Helps))
    } else {
        None
    }
}

pub open spec fn same_list(a: App, b: App) -> bool {
    a.items@ == b.items@ && a.selected == b.selected
}

/// Nothing changed.
pub open spec fn unchanged(a: App, b: App) -> bool {
    &&& same_list(a, b)
    &&& a.same_browse(&b)
    &&& a.same_playback(&b)
    &&& a.same_status(&b)
}

/// `post` is `pre` after the track at `idx` of `playlist` started, the
/// playlist having become `playlist`; nothing happens for an empty playlist.
pub open spec fn played(pre: App, playlist: Seq<TrackInfo>, idx: int, post: App, eff: Seq<Effect>) -> bool {
    &&& post.current_playlist@ == playlist
    &&& post.same_browse(&pre)
    &&& post.same_status(&pre)
    &&& post.items@ == pre.items@
    &&& if playlist.len() == 0 {
        &&& post.selected == pre.selected
        &&& post.current_song == pre.current_song
        &&& post.current_playlist_idx == pre.current_playlist_idx
        &&& eff.len() == 0
    } else {
        let s = idx % (playlist.len() as int);
        let t = playlist[s];
        &&& post.current_playlist_idx == s
        &&& post.current_song == Some(song_of(t))
        &&& eff == play_effects(t)
        &&& post.selected == if pre.view_stack@.len() > 0 && is_track_view(pre.top()) && pre.items@.len() == playlist.len() {
            Some(s as usize)
        } else {
            pre.selected
        }
    }
}

/// Play: resume the current track, or start the current track of the
/// playlist when none is loaded.
pub open spec fn forced_play(pre: App, post: App, eff: Seq<Effect>) -> bool {
    if pre.current_song is None {
        if pre.current_playlist@.len() > 0 {
            played(pre, pre.current_playlist@, pre.current_playlist_idx as int, post, eff)
        } else {
            unchanged(pre, post) && eff.len() == 0
        }
    } else {
        unchanged(pre, post) && eff == seq![Effect::SetEnginePaused(false), Effect::PublishPlayback(Playback::Playing)]
    }
}

/// Pause the current track, if one is loaded.
pub open spec fn forced_pause(pre: App, post: App, eff: Seq<Effect>) -> bool {
    &&& unchanged(pre, post)
    &&& if pre.current_song is None {
        eff.len() == 0
    } else {
        eff == seq![Effect::SetEnginePaused(true), Effect::PublishPlayback(Playback::Paused)]
    }
}

/// Play or pause, as the engine's pause flag `paused` calls for.
pub open spec fn toggled(pre: App, paused: bool, post: App, eff: Seq<Effect>) -> bool {
    if paused {
        forced_play(pre, post, eff)
    } else {
        forced_pause(pre, post, eff)
    }
}

pub open spec fn stopped(pre: App, post: App, eff: Seq<Effect>) -> bool {
    &&& same_list(pre, post)
    &&& post.same_browse(&pre)
    &&& post.same_status(&pre)
    &&& post.current_song is None
    &&& post.current_playlist@ == pre.current_playlist@
    &&& post.current_playlist_idx == pre.current_playlist_idx
    &&& eff == seq![Effect::EngineStop, Effect::PublishPlayback(Playback::Stopped)]
}

/// The list pane of `post` is the one for screen `top` with the search
/// state `modal`/`search`, the selection carried over from `sel`.
pub open spec fn list_for(post: App, top: View, catalog: Seq<TrackInfo>, modal: Modal, search: Seq<char>, sel: Option<usize>) -> bool {
    &&& listed(items_view(post.items@), top, catalog, modal, search)
    &&& post.selected == clamp_selection(sel, post.items@.len())
}

/// `post` is `pre` with `pushed` opened (if any) and the list rebuilt; the
/// first line is selected on a new screen.
pub open spec fn navigated(pre: App, pushed: Option<View>, post: App) -> bool {
    let stack = match pushed {
        Some(v) => pre.view_stack@.push(v),
        None => pre.view_stack@,
    };
    &&& post.view_stack@ == stack
    &&& listed(items_view(post.items@), stack.last(), pre.catalog@, pre.modal, pre.search_buf@)
    &&& post.selected == if pushed is Some { Some(0usize) } else { clamp_selection(pre.selected, post.items@.len()) }
    &&& post.modal == pre.modal
    &&& post.search_buf@ == pre.search_buf@
    &&& post.modal_items@ == pre.modal_items@
    &&& post.modal_selected == pre.modal_selected
    &&& post.same_playback(&pre)
    &&& post.same_status(&pre)
}

/// Enter on the selected line: open what it names, or play it.
pub open spec fn entered(pre: App, post: App, eff: Seq<Effect>) -> bool {
    let idx = sel_or_zero(pre.selected);
    if pre.items@.len() == 0 {
        unchanged(pre, post) && eff.len() == 0
    } else {
        match pre.top() {
            View::Home => navigated(pre, home_target(idx), post) && eff.len() == 0,
            View::CategoriesMenu => navigated(pre, Some(View::CategoryList(category_at(idx))), post) && eff.len() == 0,
            View::CategoryList(c) => eff.len() == 0 && if pre.items@[idx].label@ == unlisted_label() {
                unchanged(pre, post)
            } else {
                navigated(pre, Some(View::CategoryTracks(c, pre.items@[idx].label)), post)
            },
            View::SettingsMenu => navigated(pre, settings_target(idx), post) && eff.len() == 0,
            View::AllTracks => played(pre, item_tracks(pre.items@), idx, post, eff),
            View::CategoryTracks(_, _) => played(pre, item_tracks(pre.items@), idx, post, eff),
            View::Playlist => played(pre, item_tracks(pre.items@), idx, post, eff),
            _ => unchanged(pre, post) && eff.len() == 0,
        }
    }
}

/// The search text after Backspace.
pub open spec fn search_backspace(s: Seq<char>) -> Seq<char> {
    if s.len() > 0 {
        s.drop_last()
    } else {
        s
    }
}

/// `post` is `pre` with only the pop-up state changed to `modal` and `msel`.
pub open spec fn popup_changed(pre: App, post: App, modal: Modal, msel: Option<usize>) -> bool {
    &&& same_list(pre, post)
    &&& post.view_stack@ == pre.view_stack@
    &&& post.search_buf@ == pre.search_buf@
    &&& post.modal_items@ == pre.modal_items@
    &&& post.modal == modal
    &&& post.modal_selected == msel
    &&& post.same_playback(&pre)
    &&& post.same_status(&pre)
}

/// `post` is `pre` with the search text now `search` and the list rebuilt.
pub open spec fn searched(pre: App, post: App, search: Seq<char>) -> bool {
    &&& list_for(post, pre.top(), pre.catalog@, pre.modal, search, pre.selected)
    &&& post.search_buf@ == search
    &&& post.view_stack@ == pre.view_stack@
    &&& post.modal == pre.modal
    &&& post.modal_items@ == pre.modal_items@
    &&& post.modal_selected == pre.modal_selected
    &&& post.same_playback(&pre)
    &&& post.same_status(&pre)
}

/// `post` is `pre` with only the list selection changed to `sel`.
pub open spec fn moved(pre: App, post: App, sel: Option<usize>) -> bool {
    &&& post.items@ == pre.items@
    &&& post.selected == sel
    &&& post.same_browse(&pre)
    &&& post.same_playback(&pre)
    &&& post.same_status(&pre)
}

/// What a key does while a pop-up is open.
pub open spec fn popup_key(pre: App, key: Key, post: App, eff: Seq<Effect>) -> bool {
    let search = pre.modal == Modal::Search;
    let n = pre.modal_items@.len();
    &&& eff.len() == 0
    &&& match key {
        Key::Esc => popup_changed(pre, post, Modal::Closed, pre.modal_selected),
        Key::Char(c) => if search {
            searched(pre, post, pre.search_buf@.push(c))
        } else {
            unchanged(pre, post)
        },
        Key::Backspace => if search {
            searched(pre, post, search_backspace(pre.search_buf@))
        } else {
            unchanged(pre, post)
        },
        Key::Up => if n > 0 {
            popup_changed(pre, post, pre.modal, Some(sel_up(pre.modal_selected, n)))
        } else {
            unchanged(pre, post)
        },
        Key::Down => if n > 0 {
            popup_changed(pre, post, pre.modal, Some(match pre.modal_selected {
                None => 0usize,
                Some(i) => ((i + 1) % (n as int)) as usize,
            }))
        } else {
            unchanged(pre, post)
        },
        Key::Enter => if search {
            popup_changed(pre, post, Modal::Closed, pre.modal_selected)
        } else {
            searched(pre, post, pre.search_buf@)
        },
        _ => unchanged(pre, post),
    }
}

/// What a key does on the main screen; `paused` is the engine's pause flag.
pub open spec fn main_key(pre: App, key: Key, paused: bool, post: App, eff: Seq<Effect>) -> bool {
    let n = pre.current_playlist@.len();
    let i = pre.current_playlist_idx as int;
    if key == Key::Char('f') {
        &&& same_list(pre, post)
        &&& post.view_stack@ == pre.view_stack@
        &&& post.modal == Modal::Search
        &&& post.search_buf@ == Seq::<char>::empty()
        &&& post.modal_items@ == pre.modal_items@
        &&& post.modal_selected == pre.modal_selected
        &&& post.same_playback(&pre)
        &&& post.same_status(&pre)
        &&& eff.len() == 0
    } else if key == Key::Esc || key == Key::Left || key == Key::Char('b') {
        eff.len() == 0 && if pre.view_stack@.len() > 1 {
            &&& post.view_stack@ == pre.view_stack@.drop_last()
            &&& list_for(post, pre.view_stack@.drop_last().last(), pre.catalog@, pre.modal, pre.search_buf@, pre.selected)
            &&& post.modal == pre.modal
            &&& post.search_buf@ == pre.search_buf@
            &&& post.modal_items@ == pre.modal_items@
            &&& post.modal_selected == pre.modal_selected
            &&& post.same_playback(&pre)
            &&& post.same_status(&pre)
        } else {
            unchanged(pre, post)
        }
    } else if key == Key::Char('j') || key == Key::Down {
        moved(pre, post, Some(sel_down(pre.selected, pre.items@.len()))) && eff.len() == 0
    } else if key == Key::Char('k') || key == Key::Up {
        moved(pre, post, Some(sel_up(pre.selected, pre.items@.len()))) && eff.len() == 0
    } else if key == Key::Char('n') || key == Key::TrackNext {
        if n > 0 {
            played(pre, pre.current_playlist@, i + 1, post, eff)
        } else {
            unchanged(pre, post) && eff.len() == 0
        }
    } else if key == Key::Char('p') || key == Key::TrackPrevious {
        if n > 0 {
            played(pre, pre.current_playlist@, if i == 0 { n - 1 } else { i - 1 }, post, eff)
        } else {
            unchanged(pre, post) && eff.len() == 0
        }
    } else if key == Key::Char(' ') || key == Key::PlayPause {
        toggled(pre, paused, post, eff)
    } else if key == Key::Play {
        forced_play(pre, post, eff)
    } else if key == Key::Pause {
        forced_pause(pre, post, eff)
    } else if key == Key::Stop {
        stopped(pre, post, eff)
    } else if key == Key::Enter || key == Key::Right {
        entered(pre, post, eff)
    } else {
        unchanged(pre, post) && eff.len() == 0
    }
}

/// What a key does.
pub open spec fn key_outcome(pre: App, key: Key, paused: bool, post: App, eff: Seq<Effect>) -> bool {
    if pre.modal != Modal::Closed {
        popup_key(pre, key, post, eff)
    } else {
        main_key(pre, key, paused, post, eff)
    }
}

impl App {
    fn items_tracks(items: &Vec<DisplayItem>) -> (r: Vec<TrackInfo>)
        ensures
            r@ == item_tracks(items@),
    {
        let mut out: Vec<TrackInfo> = Vec::new();
        let mut i: usize = 0;
        while i < items.len()
            invariant
                i <= items@.len(),
                out@ == item_tracks(items@.take(i as int)),
            decreases items@.len() - i,
        {
            assert(items@.take(i + 1).drop_last() =~= items@.take(i as int));
            assert(items@.take(i + 1).last() == items@[i as int]);
            match &items[i].track {
                Some(t) => out.push(t.clone()),
                None => {},
            }
            i = i + 1;
        }
        assert(items@.take(i as int) =~= items@);
        out
    }

    /// Starts the track at `idx` of the playlist, wrapping the index around
    /// it; nothing happens while the playlist is empty.
    pub fn play_track_at(&mut self, idx: usize) -> (r: Vec<Effect>)
        ensures
            played(*old(self), old(self).current_playlist@, idx as int, *final(self), r@),
    {
        let mut eff: Vec<Effect> = Vec::new();
        if self.current_playlist.len() == 0 {
            return eff;
        }
        let safe_idx = idx % self.current_playlist.len();
        self.current_playlist_idx = safe_idx;
        let track = self.current_playlist[safe_idx].clone();
        eff.push(Effect::EnginePlay(track.path.clone()));
        self.current_song = Some(SongInfo {
            title: track.title.clone(),
            artist: track.artist.clone(),
            sample_rate: track.sample_rate,
            elapsed: 0,
            duration: track.duration,
            bit_rate: track.bit_rate,
            bit_depth: track.bit_depth,
        });
        eff.push(Effect::LoadLyrics(track.path.clone()));
        eff.push(Effect::PublishTrack { title: track.title.clone(), artist: track.artist.clone(), duration: track.duration });
        eff.push(Effect::PublishPlayback(Playback::Playing));
        let n = self.view_stack.len();
        if n > 0 {
            let top_is_tracks = match &self.view_stack[n - 1] {
                View::AllTracks => true,
                View::CategoryTracks(_, _) => true,
                View::Playlist => true,
                _ => false,
            };
            if top_is_tracks && self.items.len() == self.current_playlist.len() {
                self.selected = Some(safe_idx);
            }
        }
        proof {
            assert(eff@ =~= play_effects(old(self).current_playlist@[safe_idx as int]));
        }
        eff
    }

    /// Resumes the current track, or starts the playlist's current track
    /// when none is loaded.
    pub fn force_play(&mut self) -> (r: Vec<Effect>)
        ensures
            forced_play(*old(self), *final(self), r@),
    {
        if self.current_song.is_none() {
            if self.current_playlist.len() > 0 {
                return self.play_track_at(self.current_playlist_idx);
            }
            return Vec::new();
        }
        let mut eff: Vec<Effect> = Vec::new();
        eff.push(Effect::SetEnginePaused(false));
        eff.push(Effect::PublishPlayback(Playback::Playing));
        proof {
            assert(eff@ =~= seq![Effect::SetEnginePaused(false), Effect::PublishPlayback(Playback::Playing)]);
        }
        eff
    }

    /// Pauses the current track, if one is loaded.
    pub fn force_pause(&mut self) -> (r: Vec<Effect>)
        ensures
            forced_pause(*old(self), *final(self), r@),
    {
        let mut eff: Vec<Effect> = Vec::new();
        if self.current_song.is_none() {
            return eff;
        }
        eff.push(Effect::SetEnginePaused(true));
        eff.push(Effect::PublishPlayback(Playback::Paused));
        proof {
            assert(eff@ =~= seq![Effect::SetEnginePaused(true), Effect::PublishPlayback(Playback::Paused)]);
        }
        eff
    }

    /// Plays if the engine is paused, pauses otherwise.
    pub fn toggle_pause(&mut self, engine_paused: bool) -> (r: Vec<Effect>)
        ensures
            toggled(*old(self), engine_paused, *final(self), r@),
    {
        if engine_paused {
            self.force_play()
        } else {
            self.force_pause()
        }
    }

    /// Stops playback and forgets the current track.
    pub fn stop_playback(&mut self) -> (r: Vec<Effect>)
        ensures
            stopped(*old(self), *final(self), r@),
    {
        let mut eff: Vec<Effect> = Vec::new();
        eff.push(Effect::EngineStop);
        self.current_song = None;
        eff.push(Effect::PublishPlayback(Playback::Stopped));
        proof {
            assert(eff@ =~= seq![Effect::EngineStop, Effect::PublishPlayback(Playback::Stopped)]);
        }
        eff
    }
}

impl App {
    fn open_view(&mut self, v: View)
        requires
            old(self).view_stack@.len() > 0,
        ensures
            navigated(*old(self), Some(v), *final(self)),
    {
        let ghost pre = *self;
        self.view_stack.push(v);
        self.update_list();
        self.selected = Some(0);
    }

    fn open_opt(&mut self, v: Option<View>)
        requires
            old(self).view_stack@.len() > 0,
        ensures
            navigated(*old(self), v, *final(self)),
    {
        match v {
            Some(v) => self.open_view(v),
            None => self.update_list(),
        }
    }

    fn handle_enter(&mut self) -> (r: Vec<Effect>)
        requires
            old(self).wf(),
        ensures
            entered(*old(self), *final(self), r@),
            final(self).wf(),
    {
        let idx = match self.selected {
            Some(i) => i,
            None => 0,
        };
        if self.items.len() == 0 {
            return Vec::new();
        }
        let n = self.view_stack.len();
        let cur_view = self.view_stack[n - 1].clone();
        match cur_view {
            View::Home => {
                let target = if idx == 0 {
                    Some(View::AllTracks)
                } else if idx == 1 {
                    Some(View::CategoriesMenu)
                } else if idx == 2 {
                    Some(View::Playlist)
                } else if idx == 3 {
                    Some(View::SettingsMenu)
                } else {
                    None
                };
                self.open_opt(target);
                Vec::new()
            },
            View::CategoriesMenu => {
                let cat = if idx == 1 {
                    Categories::Album
                } else if idx == 2 {
                    Categories::Genre
                } else if idx == 3 {
                    Categories::SampleRate
                } else if idx == 4 {
                    Categories::BitRate
                } else if idx == 5 {
                    Categories::BitDepth
                } else {
                    Categories::AlbumArtist
                };
                self.open_view(View::CategoryList(cat));
                Vec::new()
            },
            View::CategoryList(cat) => {
                let selected_val = self.items[idx].label.clone();
                if selected_val != String::from_str("(暂未实现此分类)") {
                    self.open_view(View::CategoryTracks(cat, selected_val));
                }
                Vec::new()
            },
            View::SettingsMenu => {
                let target = if idx == 0 {
                    Some(View::SettingsDetail(Settings::SelectOutputDevice))
                } else if idx == 1 {
                    Some(View::SettingsDetail(Settings::Helps))
                } else {
                    None
                };
                self.open_opt(target);
                Vec::new()
            },
            View::AllTracks | View::CategoryTracks(_, _) | View::Playlist => {
                self.current_playlist = Self::items_tracks(&self.items);
                self.play_track_at(idx)
            },
            _ => Vec::new(),
        }
    }
}

impl App {
    /// Acts on a key press; `engine_paused` is the engine's pause flag.
    /// Returns the work for the host, in order.
    pub fn handle_key(&mut self, key: Key, engine_paused: bool) -> (r: Vec<Effect>)
        requires
            old(self).wf(),
        ensures
            key_outcome(*old(self), key, engine_paused, *final(self), r@),
            final(self).wf(),
    {
        if self.modal != Modal::Closed {
            let search = self.modal == Modal::Search;
            match key {
                Key::Esc => {
                    self.modal = Modal::Closed;
                },
                Key::Char(c) => {
                    if search {
                        push_char(&mut self.search_buf, c);
                        self.update_list();
                    }
                },
                Key::Backspace => {
                    if search {
                        pop_char(&mut self.search_buf);
                        self.update_list();
                    }
                },
                Key::Up => {
                    let n = self.modal_items.len();
                    if n > 0 {
                        let i = match self.modal_selected {
                            None => 0,
                            Some(i) => if i == 0 { n - 1 } else { i - 1 },
                        };
                        self.modal_selected = Some(i);
                    }
                },
                Key::Down => {
                    let n = self.modal_items.len();
                    if n > 0 {
                        let i = match self.modal_selected {
                            None => 0,
                            Some(i) => (i + 1) % n,
                        };
                        self.modal_selected = Some(i);
                    }
                },
                Key::Enter => {
                    if search {
                        self.modal = Modal::Closed;
                    } else {
                        self.update_list();
                    }
                },
                _ => {},
            }
            return Vec::new();
        }
        if key == Key::Char('f') {
            self.modal = Modal::Search;
            self.search_buf = String::new();
            Vec::new()
        } else if key == Key::Esc || key == Key::Left || key == Key::Char('b') {
            if self.view_stack.len() > 1 {
                self.view_stack.pop();
                self.update_list();
            }
            Vec::new()
        } else if key == Key::Char('j') || key == Key::Down {
            let len = self.items.len();
            let last = if len > 0 { len - 1 } else { 0 };
            let i = match self.selected {
                None => 0,
                Some(i) => if i >= last { 0 } else { i + 1 },
            };
            self.selected = Some(i);
            Vec::new()
        } else if key == Key::Char('k') || key == Key::Up {
            let len = self.items.len();
            let last = if len > 0 { len - 1 } else { 0 };
            let i = match self.selected {
                None => 0,
                Some(i) => if i == 0 { last } else { i - 1 },
            };
            self.selected = Some(i);
            Vec::new()
        } else if key == Key::Char('n') || key == Key::TrackNext {
            if self.current_playlist.len() > 0 {
                let next = self.current_playlist_idx + 1;
                self.play_track_at(next)
            } else {
                Vec::new()
            }
        } else if key == Key::Char('p') || key == Key::TrackPrevious {
            if self.current_playlist.len() > 0 {
                let prev = if self.current_playlist_idx == 0 {
                    self.current_playlist.len() - 1
                } else {
                    self.current_playlist_idx - 1
                };
                self.play_track_at(prev)
            } else {
                Vec::new()
            }
        } else if key == Key::Char(' ') || key == Key::PlayPause {
            self.toggle_pause(engine_paused)
        } else if key == Key::Play {
            self.force_play()
        } else if key == Key::Pause {
            self.force_pause()
        } else if key == Key::Stop {
            self.stop_playback()
        } else if key == Key::Enter || key == Key::Right {
            self.handle_enter()
        } else {
            Vec::new()
        }
    }
}

/// What the clock does: the status bar shows `elapsed` seconds, and when
/// the track is within its last second the next one starts (or playback
/// stops when there is no playlist).
pub open spec fn clock_outcome(pre: App, elapsed: u32, post: App, eff: Seq<Effect>) -> bool {
    match pre.current_song {
        None => unchanged(pre, post) && eff.len() == 0,
        Some(song) => {
            let last = if song.duration > 0 { song.duration - 1 } else { 0 };
            if elapsed >= last && song.duration > 0 {
                if pre.current_playlist@.len() > 0 {
                    played(pre, pre.current_playlist@, pre.current_playlist_idx + 1, post, eff)
                } else {
                    stopped(pre, post, eff)
                }
            } else {
                &&& same_list(pre, post)
                &&& post.same_browse(&pre)
                &&& post.same_status(&pre)
                &&& post.current_song == Some(SongInfo { elapsed, ..song })
                &&& post.current_playlist@ == pre.current_playlist@
                &&& post.current_playlist_idx == pre.current_playlist_idx
                &&& eff.len() == 0
            }
        },
    }
}

/// What a command of the system media controls does.
pub open spec fn media_outcome(pre: App, cmd: MediaCommand, paused: bool, post: App, eff: Seq<Effect>) -> bool {
    let n = pre.current_playlist@.len();
    let i = pre.current_playlist_idx as int;
    match cmd {
        MediaCommand::Next => if n > 0 {
            played(pre, pre.current_playlist@, i + 1, post, eff)
        } else {
            unchanged(pre, post) && eff.len() == 0
        },
        MediaCommand::Previous => if n > 0 {
            played(pre, pre.current_playlist@, if i == 0 { n - 1 } else { i - 1 }, post, eff)
        } else {
            unchanged(pre, post) && eff.len() == 0
        },
        MediaCommand::Play => forced_play(pre, post, eff),
        MediaCommand::Pause => forced_pause(pre, post, eff),
        MediaCommand::Toggle => toggled(pre, paused, post, eff),
        MediaCommand::Stop => stopped(pre, post, eff),
        MediaCommand::Other => unchanged(pre, post) && eff.len() == 0,
    }
}

impl App {
    /// A fresh interface on the home screen, scanning the library, whose
    /// tracks so far are `catalog`.
    pub fn new(ui_config: UiConfig, catalog: Vec<TrackInfo>) -> (r: App)
        ensures
            r.wf(),
            r.ui_config == ui_config,
            r.catalog@ == catalog@,
            r.is_scanning,
            r.spinner_index == 0,
            r.scan_progress == (0usize, 0usize),
            r.view_stack@ == seq![View::Home],
            items_view(r.items@) == menu(home_labels()),
            r.selected == Some(0usize),
            r.modal_selected is None,
            r.modal_items@.len() == 0,
            r.modal == Modal::Closed,
            r.search_buf@.len() == 0,
            r.current_song is None,
            r.lyrics@.is_empty(),
            r.current_playlist@.len() == 0,
            r.current_playlist_idx == 0,
    {
        let mut view_stack: Vec<View> = Vec::new();
        view_stack.push(View::Home);
        let mut app = App {
            ui_config,
            is_scanning: true,
            spinner_index: 0,
            scan_progress: (0, 0),
            view_stack,
            selected: Some(0),
            modal_selected: None,
            items: Vec::new(),
            modal_items: Vec::new(),
            modal: Modal::Closed,
            search_buf: String::new(),
            current_song: None,
            lyrics: BTreeMap::new(),
            current_playlist: Vec::new(),
            current_playlist_idx: 0,
            catalog,
        };
        app.update_list();
        proof {
            assert(app.view_stack@ =~= seq![View::Home]);
            assert(menu(home_labels()).len() == 4);
            assert(items_view(app.items@).len() == app.items@.len());
        }
        app
    }

    /// Replaces the lyrics with those of a `.lrc` text; `None` where the
    /// file could not be read.
    pub fn load_lrc(&mut self, content: Option<&str>)
        requires
            content matches Some(c) ==> lrc_slices_ok(c.spec_bytes()),
        ensures
            lyrics_match(final(self).lyrics@, match content {
                Some(c) => lrc_lyrics(c.spec_bytes()),
                None => no_lyrics(),
            }),
            same_list(*old(self), *final(self)),
            final(self).same_browse(old(self)),
            final(self).same_playback(old(self)),
            final(self).ui_config == old(self).ui_config,
            final(self).is_scanning == old(self).is_scanning,
            final(self).spinner_index == old(self).spinner_index,
            final(self).scan_progress == old(self).scan_progress,
            final(self).catalog@ == old(self).catalog@,
    {
        match content {
            Some(c) => {
                self.lyrics = parse_lyrics(c);
            },
            None => {
                let mut m: BTreeMap<u32, String> = BTreeMap::new();
                m.insert(0, String::from_str("暂无歌词"));
                m.insert(5, String::from_str("..."));
                proof {
                    broadcast use vstd::laws_cmp::group_laws_cmp;
                    assert(m@.dom() =~= no_lyrics().dom());
                }
                self.lyrics = m;
            },
        }
    }

    /// Records the indexer's progress.
    pub fn on_scan_progress(&mut self, current: usize, total: usize)
        ensures
            final(self).scan_progress == (current, total),
            same_list(*old(self), *final(self)),
            final(self).same_browse(old(self)),
            final(self).same_playback(old(self)),
            final(self).ui_config == old(self).ui_config,
            final(self).is_scanning == old(self).is_scanning,
            final(self).spinner_index == old(self).spinner_index,
            final(self).lyrics@ == old(self).lyrics@,
            final(self).catalog@ == old(self).catalog@,
    {
        self.scan_progress = (current, total);
    }

    /// The scan has finished: `catalog` is the library's content; the list
    /// is rebuilt from it.
    pub fn on_scan_finished(&mut self, catalog: Vec<TrackInfo>)
        requires
            old(self).wf(),
        ensures
            final(self).wf(),
            !final(self).is_scanning,
            final(self).catalog@ == catalog@,
            list_for(*final(self), old(self).top(), catalog@, old(self).modal, old(self).search_buf@, old(self).selected),
            final(self).same_browse(old(self)),
            final(self).same_playback(old(self)),
            final(self).ui_config == old(self).ui_config,
            final(self).spinner_index == old(self).spinner_index,
            final(self).scan_progress == old(self).scan_progress,
            final(self).lyrics@ == old(self).lyrics@,
    {
        self.is_scanning = false;
        self.catalog = catalog;
        self.update_list();
    }

    /// Advances the scanning animation while the library is being scanned.
    pub fn spin(&mut self)
        ensures
            final(self).spinner_index == if old(self).is_scanning {
                (if old(self).spinner_index == usize::MAX { 0 } else { old(self).spinner_index + 1 }) as usize
            } else {
                old(self).spinner_index
            },
            same_list(*old(self), *final(self)),
            final(self).same_browse(old(self)),
            final(self).same_playback(old(self)),
            final(self).ui_config == old(self).ui_config,
            final(self).is_scanning == old(self).is_scanning,
            final(self).scan_progress == old(self).scan_progress,
            final(self).lyrics@ == old(self).lyrics@,
            final(self).catalog@ == old(self).catalog@,
    {
        if self.is_scanning {
            self.spinner_index = if self.spinner_index == usize::MAX { 0 } else { self.spinner_index + 1 };
        }
    }

    /// The engine has played `elapsed_secs` seconds of the current track.
    pub fn on_clock(&mut self, elapsed_secs: u32) -> (r: Vec<Effect>)
        requires
            old(self).wf(),
        ensures
            clock_outcome(*old(self), elapsed_secs, *final(self), r@),
            final(self).wf(),
    {
        let advance = match &mut self.current_song {
            None => false,
            Some(song) => {
                song.elapsed = elapsed_secs;
                let last = if song.duration > 0 { song.duration - 1 } else { 0 };
                song.elapsed >= last && song.duration > 0
            },
        };
        if advance {
            if self.current_playlist.len() > 0 {
                let next = self.current_playlist_idx + 1;
                self.play_track_at(next)
            } else {
                self.stop_playback()
            }
        } else {
            Vec::new()
        }
    }

    /// Acts on a command of the system media controls.
    pub fn on_media_command(&mut self, cmd: MediaCommand, engine_paused: bool) -> (r: Vec<Effect>)
        requires
            old(self).wf(),
        ensures
            media_outcome(*old(self), cmd, engine_paused, *final(self), r@),
            final(self).wf(),
    {
        match cmd {
            MediaCommand::Next => {
                if self.current_playlist.len() > 0 {
                    let next = self.current_playlist_idx + 1;
                    self.play_track_at(next)
                } else {
                    Vec::new()
                }
            },
            MediaCommand::Previous => {
                if self.current_playlist.len() > 0 {
                    let prev = if self.current_playlist_idx == 0 {
                        self.current_playlist.len() - 1
                    } else {
                        self.current_playlist_idx - 1
                    };
                    self.play_track_at(prev)
                } else {
                    Vec::new()
                }
            },
            MediaCommand::Play => self.force_play(),
            MediaCommand::Pause => self.force_pause(),
            MediaCommand::Toggle => self.toggle_pause(engine_paused),
            MediaCommand::Stop => self.stop_playback(),
            MediaCommand::Other => Vec::new(),
        }
    }
}

/// Going back after Enter opened a screen returns to the screen stack as it
/// was.
pub proof fn law_back_undoes_enter(a: App, b: App, c: App, e1: Seq<Effect>, e2: Seq<Effect>, paused: bool)
    requires
        a.wf(),
        a.modal == Modal::Closed,
        entered(a, b, e1),
        b.view_stack@.len() > a.view_stack@.len(),
        key_outcome(b, Key::Esc, paused, c, e2),
    ensures
        c.view_stack@ == a.view_stack@,
        e2.len() == 0,
{
    let idx = sel_or_zero(a.selected);
    assert(a.items@.len() > 0);
    match a.top() {
        View::Home => {
            assert(home_target(idx) is Some);
        },
        View::SettingsMenu => {
            assert(settings_target(idx) is Some);
        },
        View::CategoryList(_) => {
            assert(a.items@[idx].label@ != unlisted_label());
        },
        _ => {},
    }
    assert(b.view_stack@.drop_last() =~= a.view_stack@);
}

/// The next track and then the previous one bring the playlist back to the
/// track it was on.
pub proof fn law_previous_undoes_next(a: App, b: App, c: App, e1: Seq<Effect>, e2: Seq<Effect>)
    requires
        a.current_playlist@.len() > 0,
        a.current_playlist_idx < a.current_playlist@.len(),
        played(a, a.current_playlist@, a.current_playlist_idx + 1, b, e1),
        played(b, b.current_playlist@, if b.current_playlist_idx == 0 {
            b.current_playlist@.len() - 1
        } else {
            b.current_playlist_idx - 1
        }, c, e2),
    ensures
        c.current_playlist_idx == a.current_playlist_idx,
        c.current_playlist@ == a.current_playlist@,
{
    let n = a.current_playlist@.len() as int;
    let i = a.current_playlist_idx as int;
    if i + 1 < n {
        vstd::arithmetic::div_mod::lemma_small_mod((i + 1) as nat, n as nat);
        vstd::arithmetic::div_mod::lemma_small_mod(i as nat, n as nat);
    } else {
        assert((i + 1) % n == 0) by (nonlinear_arith)
            requires
                i + 1 == n,
                n > 0,
        ;
        vstd::arithmetic::div_mod::lemma_small_mod((n - 1) as nat, n as nat);
    }
}

/// Pausing a loaded track and pressing play again changes nothing but the
/// engine's pause flag, which is set and then cleared.
pub proof fn law_play_undoes_pause(a: App, b: App, c: App, e1: Seq<Effect>, e2: Seq<Effect>)
    requires
        a.current_song is Some,
        forced_pause(a, b, e1),
        forced_play(b, c, e2),
    ensures
        unchanged(a, c),
        e1 == seq![Effect::SetEnginePaused(true), Effect::PublishPlayback(Playback::Paused)],
        e2 == seq![Effect::SetEnginePaused(false), Effect::PublishPlayback(Playback::Playing)],
{
}

/// Stopping and then pressing play starts again the track of the playlist
/// that was current.
pub proof fn law_play_after_stop_restarts(a: App, b: App, c: App, e1: Seq<Effect>, e2: Seq<Effect>)
    requires
        a.wf(),
        a.current_playlist@.len() > 0,
        stopped(a, b, e1),
        forced_play(b, c, e2),
    ensures
        c.current_playlist@ == a.current_playlist@,
        c.current_playlist_idx == a.current_playlist_idx,
        c.current_song == Some(song_of(a.current_playlist@[a.current_playlist_idx as int])),
        e2 == play_effects(a.current_playlist@[a.current_playlist_idx as int]),
{
    vstd::arithmetic::div_mod::lemma_small_mod(a.current_playlist_idx as nat, a.current_playlist@.len());
}

proof fn lemma_fuzzy_keep_matches(raw: Seq<ItemView>, pat: Seq<char>)
    ensures
        forall|j: int| #![trigger fuzzy_keep(raw, pat)[j]] 0 <= j < fuzzy_keep(raw, pat).len() ==> {
            &&& raw.contains(fuzzy_keep(raw, pat)[j].1)
            &&& spec_fuzzy_score(fuzzy_keep(raw, pat)[j].1.0, pat) == Some(fuzzy_keep(raw, pat)[j].0)
        },
    decreases raw.len(),
{
    if raw.len() > 0 {
        let prev = raw.drop_last();
        lemma_fuzzy_keep_matches(prev, pat);
        let k = fuzzy_keep(raw, pat);
        let kp = fuzzy_keep(prev, pat);
        assert forall|j: int| #![trigger k[j]] 0 <= j < k.len() implies raw.contains(k[j].1) && spec_fuzzy_score(k[j].1.0, pat) == Some(k[j].0) by {
            if j < kp.len() {
                assert(k[j] == kp[j]);
                let w = choose|w: int| 0 <= w < prev.len() && prev[w] == kp[j].1;
                assert(raw[w] == prev[w]);
            } else {
                assert(raw[raw.len() - 1] == raw.last());
            }
        }
    }
}

/// A search lists only lines of the screen, each one a line that the pattern
/// matches.
pub proof fn law_search_lists_matches(out: Seq<ItemView>, raw: Seq<ItemView>, pat: Seq<char>)
    requires
        ranked(out, fuzzy_keep(raw, pat)),
    ensures
        forall|k: int| 0 <= k < out.len() ==> raw.contains(#[trigger] out[k]) && spec_fuzzy_score(out[k].0, pat) is Some,
{
    let keep = fuzzy_keep(raw, pat);
    lemma_fuzzy_keep_matches(raw, pat);
    let p = choose|p: Seq<usize>|
        {
            &&& is_index_perm(p, keep.len())
            &&& out.len() == keep.len()
            &&& forall|k: int| 0 <= k < out.len() ==> #[trigger] out[k] == keep[p[k] as int].1
            &&& forall|a: int, b: int|
                #![trigger p[a], p[b]]
                0 <= a < b < p.len() ==> keep[p[a] as int].0 >= keep[p[b] as int].0
            &&& forall|a: int, b: int|
                #![trigger p[a], p[b]]
                0 <= a < b < p.len() && keep[p[b] as int].0 >= keep[p[a] as int].0 ==> p[a] < p[b]
        };
    assert forall|k: int| 0 <= k < out.len() implies raw.contains(#[trigger] out[k]) && spec_fuzzy_score(out[k].0, pat) is Some by {
        assert(p[k] < keep.len());
        assert(out[k] == keep[p[k] as int].1);
    }
}

/// The line of the categories menu that names each category.
pub open spec fn category_menu_label(c: Categories) -> Seq<char> {
    match c {
        Categories::AlbumArtist => "󰠃 专辑艺术家"@,
        Categories::Album => "󰀥 专辑"@,
        Categories::Genre => "󰔊 流派"@,
        Categories::SampleRate => "󰓡 采样率"@,
        Categories::BitRate => "󰈈 比特率"@,
        Categories::BitDepth => "󰾆 位深"@,
    }
}

/// Enter on a line of the categories menu opens the list of the category
/// that the line's label names, on top of the menu, listing that category's
/// values.
pub proof fn law_categories_menu_opens_named(pre: App, post: App, eff: Seq<Effect>, paused: bool, i: usize)
    requires
        pre.wf(),
        pre.modal == Modal::Closed,
        pre.top() == View::CategoriesMenu,
        items_view(pre.items@) == menu(categories_labels()),
        pre.selected == Some(i),
        key_outcome(pre, Key::Enter, paused, post, eff),
    ensures
        post.view_stack@.len() == pre.view_stack@.len() + 1,
        post.view_stack@.drop_last() == pre.view_stack@,
        post.top() matches View::CategoryList(c) && category_menu_label(c) == categories_labels()[i as int],
        post.top() matches View::CategoryList(c) && category_menu_label(c) == pre.items@[i as int].label@,
        post.top() matches View::CategoryList(c) && items_view(post.items@) == menu(distinct_labels(pre.catalog@, c)),
        eff.len() == 0,
{
    assert(items_view(pre.items@).len() == pre.items@.len());
    assert(pre.items@.len() == 6);
    assert(i < 6);
    assert(items_view(pre.items@)[i as int].0 == pre.items@[i as int].label@);
    assert(post.view_stack@.drop_last() =~= pre.view_stack@);
}

/// The clock moves on to the next track only in the song's last second:
/// before it, only the song's elapsed time changes; in it, the next track of
/// the playlist starts (or playback stops when there is no playlist).
pub proof fn law_clock_advances_in_last_second(pre: App, elapsed: u32, post: App, eff: Seq<Effect>)
    requires
        pre.wf(),
        pre.current_song is Some,
        clock_outcome(pre, elapsed, post, eff),
    ensures
        pre.current_song->0.duration == 0 || elapsed + 1 < pre.current_song->0.duration ==> {
            &&& eff.len() == 0
            &&& post.current_playlist@ == pre.current_playlist@
            &&& post.current_playlist_idx == pre.current_playlist_idx
            &&& post.current_song == Some(SongInfo { elapsed, ..pre.current_song->0 })
        },
        pre.current_song->0.duration > 0 && elapsed + 1 >= pre.current_song->0.duration
            && pre.current_playlist@.len() > 0 ==> {
            let n = pre.current_playlist@.len() as int;
            let next = (pre.current_playlist_idx + 1) % n;
            &&& post.current_playlist_idx == next
            &&& post.current_song == Some(song_of(pre.current_playlist@[next]))
            &&& eff == play_effects(pre.current_playlist@[next])
        },
        pre.current_song->0.duration > 0 && elapsed + 1 >= pre.current_song->0.duration
            && pre.current_playlist@.len() == 0 ==> {
            &&& post.current_song is None
            &&& eff == seq![Effect::EngineStop, Effect::PublishPlayback(Playback::Stopped)]
        },
{
}

/// A Play command of the media controls never pauses: with a song loaded it
/// clears the engine's pause flag and shows the player playing, whatever the
/// flag was, and changes nothing else; it does what the Play key does.
pub proof fn law_media_play_never_pauses(pre: App, paused: bool, post: App, eff: Seq<Effect>)
    requires
        media_outcome(pre, MediaCommand::Play, paused, post, eff),
    ensures
        pre.current_song is Some ==> unchanged(pre, post)
            && eff == seq![Effect::SetEnginePaused(false), Effect::PublishPlayback(Playback::Playing)],
        pre.modal == Modal::Closed ==> key_outcome(pre, Key::Play, paused, post, eff),
{
}

} // verus!
