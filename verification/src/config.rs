use vstd::prelude::*;
use vstd::view::View as _;

verus! {

/// Where the music and the search index live.
pub struct LibraryConfig {
    pub music_dir: String,
    pub index_path: String,
}

/// The sound output device.
pub struct AudioConfig {
    pub device: String,
}

/// How often the interface redraws.
#[derive(Clone, Copy, Debug, PartialEq, Eq, Structural)]
pub struct UiConfig {
    pub fps: u32,
}

/// The player's configuration file.
pub struct Config {
    pub library: LibraryConfig,
    pub audio: AudioConfig,
    pub ui: UiConfig,
}

} // verus!

verus! {

/// A colour given by its red, green and blue parts.
#[derive(Clone, Copy, Debug, PartialEq, Eq, Structural)]
pub struct Rgb {
    pub r: u8,
    pub g: u8,
    pub b: u8,
}

/// Whether `s` starts with a `~` that stands for the home directory: alone
/// or followed by `/`.
pub open spec fn home_prefixed(s: Seq<char>) -> bool {
    s.len() > 0 && s[0] == '~' && (s.len() == 1 || s[1] == '/')
}

/// Whether `shellexpand` leaves a text as it is whatever the home
/// directory: it does not start with `~`, or the `~` is followed by
/// something other than a path separator (`/`, or `\` on Windows).
pub open spec fn tilde_kept(s: Seq<char>) -> bool {
    !(s.len() > 0 && s[0] == '~') || (s.len() > 1 && s[1] != '/' && s[1] != '\\')
}

/// What a path becomes with its home `~` replaced by the home directory
/// `home`: the path itself where it starts with no home `~` or where there is
/// no home directory.
pub open spec fn with_home(s: Seq<char>, home: Option<String>) -> Seq<char> {
    match home {
        Some(h) => if home_prefixed(s) { h@ + s.skip(1) } else { s },
        None => s,
    }
}

/// Calls `shellexpand::tilde_with_context` with `home` as the home
/// directory. Where a home `~` starts the text and there is a home
/// directory, the `~` is replaced by it; a text that `tilde_kept` describes,
/// or any text where there is no home directory, is returned unchanged.
/// Nothing is said of a `~` followed by `\`, which only Windows expands.
#[verifier::external_body]
fn tilde_with_home(s: &str, home: &Option<String>) -> (r: String)
    ensures
        home_prefixed(s@) && home is Some ==> r@ == home->0@ + s@.skip(1),
        tilde_kept(s@) || home is None ==> r@ == s@,
{
    shellexpand::tilde_with_context(s, || home.as_deref()).to_string()
}

impl Config {
    /// Replaces a leading home `~` in the library's paths by the home
    /// directory `home` (none where the system gives none).
    pub fn expand_paths(&mut self, home: Option<String>)
        ensures
            !(old(self).library.index_path@.len() > 1 && old(self).library.index_path@[0] == '~'
                && old(self).library.index_path@[1] == '\\') ==> final(self).library.index_path@ == with_home(
                old(self).library.index_path@,
                home,
            ),
            !(old(self).library.music_dir@.len() > 1 && old(self).library.music_dir@[0] == '~'
                && old(self).library.music_dir@[1] == '\\') ==> final(self).library.music_dir@ == with_home(
                old(self).library.music_dir@,
                home,
            ),
            final(self).audio.device@ == old(self).audio.device@,
            final(self).ui == old(self).ui,
    {
        let expanded_index = tilde_with_home(self.library.index_path.as_str(), &home);
        self.library.index_path = expanded_index;
        let expanded_music = tilde_with_home(self.library.music_dir.as_str(), &home);
        self.library.music_dir = expanded_music;
    }
}

/// The colours of the interface: each named colour with its `#RRGGBB` text,
/// each name once.
pub struct Theme {
    colors: Vec<(String, String)>,
}

/// No name occurs twice among the named colours.
pub open spec fn names_distinct(c: Seq<(String, String)>) -> bool {
    forall|i: int, j: int| 0 <= i < j < c.len() ==> (#[trigger] c[i]).0@ != (#[trigger] c[j]).0@
}

/// The text of the colour named `key`.
pub open spec fn color_lookup(c: Seq<(String, String)>, key: Seq<char>) -> Option<Seq<char>>
    decreases c.len(),
{
    if c.len() == 0 {
        None
    } else if c[0].0@ == key {
        Some(c[0].1@)
    } else {
        color_lookup(c.drop_first(), key)
    }
}

pub open spec fn or_full(o: Option<u8>) -> u8 {
    match o {
        Some(v) => v,
        None => 255,
    }
}

/// A colour written `#RRGGBB`: seven bytes starting with `#`; each part that
/// is not hexadecimal counts as 255. Other text gives no colour.
pub open spec fn style_color(hex: Seq<u8>) -> Option<Rgb> {
    if hex.len() == 7 && hex[0] == 35 {
        Some(Rgb {
            r: or_full(crate::textnum::hex_pair_spec(hex[1], hex[2])),
            g: or_full(crate::textnum::hex_pair_spec(hex[3], hex[4])),
            b: or_full(crate::textnum::hex_pair_spec(hex[5], hex[6])),
        })
    } else {
        None
    }
}

/// The parts of a seven-byte colour text can be cut apart: bytes 1, 3 and 5
/// each start a character.
pub open spec fn style_color_cuttable(hex: Seq<u8>) -> bool {
    (hex.len() == 7 && hex[0] == 35) ==> {
        &&& !vstd::utf8::is_continuation_byte(hex[1])
        &&& !vstd::utf8::is_continuation_byte(hex[3])
        &&& !vstd::utf8::is_continuation_byte(hex[5])
    }
}

proof fn lemma_lookup_absent(c: Seq<(String, String)>, k: Seq<char>)
    requires
        forall|i: int| 0 <= i < c.len() ==> (#[trigger] c[i]).0@ != k,
    ensures
        color_lookup(c, k) is None,
    decreases c.len(),
{
    if c.len() > 0 {
        assert(c[0].0@ != k);
        assert forall|i: int| 0 <= i < c.drop_first().len() implies (#[trigger] c.drop_first()[i]).0@ != k by {
            assert(c.drop_first()[i] == c[i + 1]);
        }
        lemma_lookup_absent(c.drop_first(), k);
    }
}

proof fn lemma_lookup_at(c: Seq<(String, String)>, k: Seq<char>, i: int)
    requires
        0 <= i < c.len(),
        c[i].0@ == k,
        forall|j: int| 0 <= j < i ==> (#[trigger] c[j]).0@ != k,
    ensures
        color_lookup(c, k) == Some(c[i].1@),
    decreases c.len(),
{
    if i > 0 {
        assert(c[0].0@ != k);
        assert forall|j: int| 0 <= j < i - 1 implies (#[trigger] c.drop_first()[j]).0@ != k by {
            assert(c.drop_first()[j] == c[j + 1]);
        }
        assert(c.drop_first()[i - 1] == c[i]);
        lemma_lookup_at(c.drop_first(), k, i - 1);
    }
}

/// With distinct names, the colour named `k` is the one at the index that
/// holds that name, if any.
proof fn lemma_lookup_distinct(c: Seq<(String, String)>, k: Seq<char>)
    requires
        names_distinct(c),
    ensures
        forall|i: int| 0 <= i < c.len() && (#[trigger] c[i]).0@ == k ==> color_lookup(c, k) == Some(c[i].1@),
        (forall|i: int| 0 <= i < c.len() ==> (#[trigger] c[i]).0@ != k) ==> color_lookup(c, k) is None,
{
    assert forall|i: int| 0 <= i < c.len() && (#[trigger] c[i]).0@ == k implies color_lookup(c, k) == Some(c[i].1@) by {
        assert forall|j: int| 0 <= j < i implies (#[trigger] c[j]).0@ != k by {
            assert(c[j].0@ != c[i].0@);
        }
        lemma_lookup_at(c, k, i);
    }
    if forall|i: int| 0 <= i < c.len() ==> (#[trigger] c[i]).0@ != k {
        lemma_lookup_absent(c, k);
    }
}

impl Theme {
    #[verifier::type_invariant]
    spec fn names_once(self) -> bool {
        names_distinct(self.colors@)
    }

    /// The named colours, in the order in which their names were first set.
    pub closed spec fn entries(&self) -> Seq<(String, String)> {
        self.colors@
    }

    /// A theme without colours.
    pub fn new() -> (r: Theme)
        ensures
            r.entries().len() == 0,
    {
        Theme { colors: Vec::new() }
    }

    /// The named colours, each name once.
    pub fn pairs(&self) -> (r: &Vec<(String, String)>)
        ensures
            r@ == self.entries(),
            names_distinct(r@),
    {
        proof {
            use_type_invariant(self);
        }
        &self.colors
    }

    /// Sets the colour named `name` to `hex`, replacing the one it had, as a
    /// map's insert does.
    pub fn set(&mut self, name: String, hex: String)
        ensures
            forall|k: Seq<char>|
                #[trigger] color_lookup(final(self).entries(), k) == if k == name@ {
                    Some(hex@)
                } else {
                    color_lookup(old(self).entries(), k)
                },
    {
        proof {
            use_type_invariant(&*self);
        }
        let ghost c0 = self.colors@;
        let mut c: Vec<(String, String)> = Vec::new();
        std::mem::swap(&mut c, &mut self.colors);
        assert(c@ == c0);
        let mut i: usize = 0;
        while i < c.len()
            invariant
                c@ == c0,
                i <= c0.len(),
                forall|j: int| 0 <= j < i ==> (#[trigger] c0[j]).0@ != name@,
            ensures
                c@ == c0,
                i <= c0.len(),
                forall|j: int| 0 <= j < i ==> (#[trigger] c0[j]).0@ != name@,
                i < c0.len() ==> c0[i as int].0@ == name@,
            decreases c0.len() - i,
        {
            if c[i].0 == name {
                break;
            }
            i = i + 1;
        }
        let ghost nm = name@;
        let ghost hx = hex@;
        if i < c.len() {
            assert(c0[i as int].0@ == nm);
            c.set(i, (name, hex));
            let ghost c1 = c@;
            assert(c1 == c0.update(i as int, c1[i as int]));
            assert forall|a: int, b: int| 0 <= a < b < c1.len() implies (#[trigger] c1[a]).0@ != (#[trigger] c1[b]).0@ by {
                assert(c1[a].0@ == c0[a].0@);
                assert(c1[b].0@ == c0[b].0@);
                assert(c0[a].0@ != c0[b].0@);
            }
            proof {
                lemma_lookup_distinct(c0, nm);
                lemma_lookup_distinct(c1, nm);
                assert forall|k: Seq<char>| #[trigger] color_lookup(c1, k) == if k == nm { Some(hx) } else { color_lookup(c0, k) } by {
                    lemma_lookup_distinct(c0, k);
                    lemma_lookup_distinct(c1, k);
                    if k == nm {
                        assert(c1[i as int].0@ == k);
                    } else {
                        if exists|j: int| 0 <= j < c0.len() && (#[trigger] c0[j]).0@ == k {
                            let j = choose|j: int| 0 <= j < c0.len() && (#[trigger] c0[j]).0@ == k;
                            assert(c1[j] == c0[j]);
                        } else {
                            assert forall|j: int| 0 <= j < c1.len() implies (#[trigger] c1[j]).0@ != k by {
                                assert(c1[j].0@ == c0[j].0@);
                            }
                        }
                    }
                }
            }
        } else {
            c.push((name, hex));
            let ghost c1 = c@;
            assert forall|a: int, b: int| 0 <= a < b < c1.len() implies (#[trigger] c1[a]).0@ != (#[trigger] c1[b]).0@ by {
                if b < c0.len() {
                    assert(c0[a].0@ != c0[b].0@);
                } else {
                    assert(c1[a] == c0[a]);
                }
            }
            proof {
                assert forall|k: Seq<char>| #[trigger] color_lookup(c1, k) == if k == nm { Some(hx) } else { color_lookup(c0, k) } by {
                    lemma_lookup_distinct(c0, k);
                    lemma_lookup_distinct(c1, k);
                    if k == nm {
                        assert(c1[c0.len() as int].0@ == k);
                    } else {
                        if exists|j: int| 0 <= j < c0.len() && (#[trigger] c0[j]).0@ == k {
                            let j = choose|j: int| 0 <= j < c0.len() && (#[trigger] c0[j]).0@ == k;
                            assert(c1[j] == c0[j]);
                        } else {
                            assert forall|j: int| 0 <= j < c1.len() implies (#[trigger] c1[j]).0@ != k by {
                                if j < c0.len() {
                                    assert(c1[j] == c0[j]);
                                }
                            }
                        }
                    }
                }
            }
        }
        self.colors = c;
    }
}

/// Colours are looked up by name in a theme.
pub struct StyleEngine {
    pub theme: Theme,
}

fn lookup_color<'a>(c: &'a Vec<(String, String)>, key: &str) -> (r: Option<&'a String>)
    ensures
        match color_lookup(c@, key@) {
            Some(v) => r matches Some(s) && s@ == v,
            None => r is None,
        },
{
    let mut i: usize = 0;
    assert(c@.skip(0) =~= c@);
    while i < c.len()
        invariant
            0 <= i <= c@.len(),
            color_lookup(c@, key@) == color_lookup(c@.skip(i as int), key@),
        decreases c@.len() - i,
    {
        assert(c@.skip(i as int).drop_first() =~= c@.skip(i + 1));
        assert(c@.skip(i as int)[0] == c@[i as int]);
        if c[i].0 == String::from_str(key) {
            return Some(&c[i].1);
        }
        i = i + 1;
    }
    assert(c@.skip(i as int) =~= Seq::<(String, String)>::empty());
    None
}

impl StyleEngine {
    pub fn new(theme: Theme) -> (r: StyleEngine)
        ensures
            r.theme.entries() == theme.entries(),
    {
        StyleEngine { theme }
    }

    /// Whether `get` can read the colour named `key`: it is missing, or not
    /// of the form `#` and six bytes, or those bytes are cut where characters
    /// start.
    pub fn can_get(&self, key: &str) -> (r: bool)
        ensures
            r == (color_lookup(self.theme.entries(), key@) matches Some(h) ==> style_color_cuttable(vstd::utf8::encode_utf8(h))),
    {
        match lookup_color(&self.theme.colors, key) {
            None => true,
            Some(hex) => {
                let b = hex.as_str().as_bytes();
                if b.len() == 7 && b[0] == 35 {
                    crate::textnum::starts_char(b[1]) && crate::textnum::starts_char(b[3]) && crate::textnum::starts_char(b[5])
                } else {
                    true
                }
            },
        }
    }

    /// The colour named `key`, if the theme gives it as `#RRGGBB`; the
    /// interface shows the default style otherwise.
    pub fn get(&self, key: &str) -> (r: Option<Rgb>)
        requires
            color_lookup(self.theme.entries(), key@) matches Some(h) ==> style_color_cuttable(vstd::utf8::encode_utf8(h)),
        ensures
            r == match color_lookup(self.theme.entries(), key@) {
                Some(h) => style_color(vstd::utf8::encode_utf8(h)),
                None => None,
            },
    {
        match lookup_color(&self.theme.colors, key) {
            None => None,
            Some(hex) => {
                let b = hex.as_str().as_bytes();
                if b.len() == 7 && b[0] == 35 {
                    Some(Rgb {
                        r: match crate::textnum::hex_pair(b[1], b[2]) {
                            Some(v) => v,
                            None => 255,
                        },
                        g: match crate::textnum::hex_pair(b[3], b[4]) {
                            Some(v) => v,
                            None => 255,
                        },
                        b: match crate::textnum::hex_pair(b[5], b[6]) {
                            Some(v) => v,
                            None => 255,
                        },
                    })
                } else {
                    None
                }
            },
        }
    }
}

} // verus!
