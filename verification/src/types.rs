use vstd::prelude::*;
use vstd::view::View as _;

verus! {

/// One track of the music library.
pub struct TrackInfo {
    pub title: String,
    pub artist: String,
    pub path: String,
    pub duration: u32,
    pub album: String,
    pub genre: String,
    pub sample_rate: u32,
    pub bit_rate: u32,
    pub bit_depth: u32,
}

impl Clone for TrackInfo {
    fn clone(&self) -> (r: Self)
        ensures
            r == *self,
    {
        TrackInfo {
            title: self.title.clone(),
            artist: self.artist.clone(),
            path: self.path.clone(),
            duration: self.duration,
            album: self.album.clone(),
            genre: self.genre.clone(),
            sample_rate: self.sample_rate,
            bit_rate: self.bit_rate,
            bit_depth: self.bit_depth,
        }
    }
}

/// Category of the media browser.
#[derive(Clone, Copy, Debug, PartialEq, Eq, Structural)]
pub enum Categories {
    AlbumArtist,
    Album,
    Genre,
    SampleRate,
    BitRate,
    BitDepth,
}

/// Entry of the settings menu.
#[derive(Clone, Copy, Debug, PartialEq, Eq, Structural)]
pub enum Settings {
    SelectOutputDevice,
    Helps,
}

/// A screen of the interface; the interface keeps a stack of them.
pub enum View {
    Home,
    AllTracks,
    CategoriesMenu,
    CategoryList(Categories),
    CategoryTracks(Categories, String),
    SettingsMenu,
    SettingsDetail(Settings),
    Playlist,
}

impl Clone for View {
    fn clone(&self) -> (r: Self)
        ensures
            r == *self,
    {
        match self {
            View::Home => View::Home,
            View::AllTracks => View::AllTracks,
            View::CategoriesMenu => View::CategoriesMenu,
            View::CategoryList(c) => View::CategoryList(*c),
            View::CategoryTracks(c, s) => View::CategoryTracks(*c, s.clone()),
            View::SettingsMenu => View::SettingsMenu,
            View::SettingsDetail(s) => View::SettingsDetail(*s),
            View::Playlist => View::Playlist,
        }
    }
}

/// The title of each screen, as shown in the header.
pub open spec fn view_title(v: View) -> Seq<char> {
    match v {
        View::Home => "主菜单"@,
        View::AllTracks => "所有曲目"@,
        View::Playlist => "播放列表"@,
        View::CategoriesMenu => "媒体分类"@,
        View::CategoryList(c) => match c {
            Categories::AlbumArtist => "歌曲分类"@,
            Categories::Album => "专辑"@,
            Categories::Genre => "流派"@,
            Categories::SampleRate => "采样率"@,
            Categories::BitRate => "比特率"@,
            Categories::BitDepth => "位深"@,
        },
        View::CategoryTracks(_, name) => "正在查看: "@ + name@,
        View::SettingsMenu => "系统设置"@,
        View::SettingsDetail(s) => match s {
            Settings::SelectOutputDevice => "选择输出设备"@,
            Settings::Helps => "帮助"@,
        },
    }
}

/// The first character of each screen's title.
pub open spec fn title_head(v: View) -> char {
    match v {
        View::Home => '主',
        View::AllTracks => '所',
        View::Playlist => '播',
        View::CategoriesMenu => '媒',
        View::CategoryList(c) => match c {
            Categories::AlbumArtist => '歌',
            Categories::Album => '专',
            Categories::Genre => '流',
            Categories::SampleRate => '采',
            Categories::BitRate => '比',
            Categories::BitDepth => '位',
        },
        View::CategoryTracks(_, _) => '正',
        View::SettingsMenu => '系',
        View::SettingsDetail(s) => match s {
            Settings::SelectOutputDevice => '选',
            Settings::Helps => '帮',
        },
    }
}

proof fn lemma_title_head(v: View)
    ensures
        view_title(v).len() > 0,
        view_title(v)[0] == title_head(v),
{
    reveal_strlit("主菜单");
    reveal_strlit("所有曲目");
    reveal_strlit("播放列表");
    reveal_strlit("媒体分类");
    reveal_strlit("歌曲分类");
    reveal_strlit("专辑");
    reveal_strlit("流派");
    reveal_strlit("采样率");
    reveal_strlit("比特率");
    reveal_strlit("位深");
    reveal_strlit("正在查看: ");
    reveal_strlit("系统设置");
    reveal_strlit("选择输出设备");
    reveal_strlit("帮助");
}

/// Two screens that show the same title: the same screen, or two track
/// screens for the same value.
pub open spec fn same_screen_name(v1: View, v2: View) -> bool {
    match (v1, v2) {
        (View::CategoryTracks(_, n1), View::CategoryTracks(_, n2)) => n1@ == n2@,
        _ => v1 == v2,
    }
}

/// Every screen has a title, and two screens show the same title exactly
/// when they are the same screen or track screens for the same value.
pub proof fn law_screen_titles_distinct(v1: View, v2: View)
    ensures
        view_title(v1).len() > 0,
        view_title(v1) == view_title(v2) <==> same_screen_name(v1, v2),
{
    lemma_title_head(v1);
    lemma_title_head(v2);
    reveal_strlit("正在查看: ");
    if view_title(v1) == view_title(v2) {
        assert(title_head(v1) == title_head(v2));
        match (v1, v2) {
            (View::CategoryTracks(_, n1), View::CategoryTracks(_, n2)) => {
                let pre = "正在查看: "@;
                assert(n1@ =~= view_title(v1).skip(pre.len() as int));
                assert(n2@ =~= view_title(v2).skip(pre.len() as int));
            },
            _ => {},
        }
    }
}

impl View {
    pub fn display_name(&self) -> (r: String)
        ensures
            r@ == view_title(*self),
    {
        match self {
            View::Home => String::from_str("主菜单"),
            View::AllTracks => String::from_str("所有曲目"),
            View::Playlist => String::from_str("播放列表"),
            View::CategoriesMenu => String::from_str("媒体分类"),
            View::CategoryList(c) => match c {
                Categories::AlbumArtist => String::from_str("歌曲分类"),
                Categories::Album => String::from_str("专辑"),
                Categories::Genre => String::from_str("流派"),
                Categories::SampleRate => String::from_str("采样率"),
                Categories::BitRate => String::from_str("比特率"),
                Categories::BitDepth => String::from_str("位深"),
            },
            View::CategoryTracks(_, name) => String::from_str("正在查看: ").concat(name.as_str()),
            View::SettingsMenu => String::from_str("系统设置"),
            View::SettingsDetail(s) => match s {
                Settings::SelectOutputDevice => String::from_str("选择输出设备"),
                Settings::Helps => String::from_str("帮助"),
            },
        }
    }
}

} // verus!

verus! {

/// A key of the keyboard or of a media remote, as the interface reads it.
#[derive(Clone, Copy, Debug, PartialEq, Eq, Structural)]
pub enum Key {
    Char(char),
    Esc,
    Enter,
    Backspace,
    Left,
    Right,
    Up,
    Down,
    TrackNext,
    TrackPrevious,
    PlayPause,
    Play,
    Pause,
    Stop,
    Other,
}

/// An event for the interface's main loop.
pub enum AppEvent {
    ScanProgress { current: usize, total: usize },
    ScanFinished,
    Key(Key),
    ThemeChanged,
}

/// One line of the list pane: its label, and the track it plays, if any.
pub struct DisplayItem {
    pub label: String,
    pub track: Option<TrackInfo>,
}

impl Clone for DisplayItem {
    fn clone(&self) -> (r: Self)
        ensures
            r == *self,
    {
        DisplayItem {
            label: self.label.clone(),
            track: match &self.track {
                Some(t) => Some(t.clone()),
                None => None,
            },
        }
    }
}

/// The pop-up over the list pane; `Closed` when there is none.
#[derive(Clone, Copy, Debug, PartialEq, Eq, Structural)]
pub enum Modal {
    Closed,
    Search,
    DeviceSelect,
    ExclusiveToggle,
}

/// The track being played, as the status bar shows it.
pub struct SongInfo {
    pub title: String,
    pub artist: String,
    pub sample_rate: u32,
    pub elapsed: u32,
    pub duration: u32,
    pub bit_rate: u32,
    pub bit_depth: u32,
}

} // verus!
