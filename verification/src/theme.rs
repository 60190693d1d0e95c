use vstd::prelude::*;
use vstd::view::View as _;
use vstd::string::StringSliceAdditionalSpecFns;
use crate::config::{or_full, Rgb};
use crate::textnum::{hex_pair, hex_pair_spec, starts_char};

verus! {

/// The fixed colours of the status line.
pub struct Theme {
    pub header: Rgb,
    pub status_play: Rgb,
    pub status_stop: Rgb,
    pub warning: Rgb,
}

/// The number of `#` bytes that a text starts with.
pub open spec fn hashes(b: Seq<u8>) -> nat
    decreases b.len(),
{
    if b.len() > 0 && b[0] == 35 {
        1 + hashes(b.drop_first())
    } else {
        0
    }
}

/// The colour that `RRGGBB` gives, after any leading `#`s; a part that is not
/// hexadecimal counts as 255.
pub open spec fn hex_color(b: Seq<u8>) -> Rgb {
    let t = b.skip(hashes(b) as int);
    Rgb {
        r: or_full(hex_pair_spec(t[0], t[1])),
        g: or_full(hex_pair_spec(t[2], t[3])),
        b: or_full(hex_pair_spec(t[4], t[5])),
    }
}

/// After its leading `#`s a colour text has at least six bytes, and bytes
/// 2, 4 and 6 of the rest (if any) start characters, so the parts can be cut.
pub open spec fn hex_cuttable(b: Seq<u8>) -> bool {
    let t = b.skip(hashes(b) as int);
    &&& t.len() >= 6
    &&& !vstd::utf8::is_continuation_byte(t[2])
    &&& !vstd::utf8::is_continuation_byte(t[4])
    &&& t.len() > 6 ==> !vstd::utf8::is_continuation_byte(t[6])
}

proof fn lemma_hashes(b: Seq<u8>, i: int)
    requires
        0 <= i <= b.len(),
        forall|j: int| 0 <= j < i ==> b[j] == 35,
    ensures
        hashes(b) == i + hashes(b.skip(i)),
    decreases i,
{
    if i > 0 {
        assert(b[0] == 35);
        lemma_hashes(b.drop_first(), i - 1);
        assert(b.drop_first().skip(i - 1) =~= b.skip(i));
    } else {
        assert(b.skip(0) =~= b);
    }
}

/// Reads a colour written `#RRGGBB` (any number of leading `#`s).
pub fn hex_to_rgb(hex: &str) -> (r: Rgb)
    requires
        hex_cuttable(hex.spec_bytes()),
    ensures
        r == hex_color(hex.spec_bytes()),
{
    let b = hex.as_bytes();
    let mut i: usize = 0;
    while i < b.len() && b[i] == 35
        invariant
            i <= b@.len(),
            forall|j: int| 0 <= j < i ==> b@[j] == 35,
        decreases b@.len() - i,
    {
        i = i + 1;
    }
    proof {
        lemma_hashes(b@, i as int);
        let rest = b@.skip(i as int);
        if rest.len() > 0 {
            assert(rest[0] == b@[i as int]);
            assert(rest[0] != 35);
        }
        assert(hashes(rest) == 0);
    }
    let rr = match hex_pair(b[i], b[i + 1]) {
        Some(v) => v,
        None => 255,
    };
    let gg = match hex_pair(b[i + 2], b[i + 3]) {
        Some(v) => v,
        None => 255,
    };
    let bb = match hex_pair(b[i + 4], b[i + 5]) {
        Some(v) => v,
        None => 255,
    };
    Rgb { r: rr, g: gg, b: bb }
}

/// Whether `hex_to_rgb` can read the text: after its leading `#`s it has at
/// least six bytes, cut where characters start.
pub fn hex_readable(hex: &str) -> (r: bool)
    ensures
        r == hex_cuttable(hex.spec_bytes()),
{
    let b = hex.as_bytes();
    let mut i: usize = 0;
    while i < b.len() && b[i] == 35
        invariant
            i <= b@.len(),
            forall|j: int| 0 <= j < i ==> b@[j] == 35,
        decreases b@.len() - i,
    {
        i = i + 1;
    }
    proof {
        lemma_hashes(b@, i as int);
        let rest = b@.skip(i as int);
        if rest.len() > 0 {
            assert(rest[0] == b@[i as int]);
            assert(rest[0] != 35);
        }
        assert(hashes(rest) == 0);
    }
    if b.len() - i < 6 {
        return false;
    }
    starts_char(b[i + 2]) && starts_char(b[i + 4]) && (b.len() - i == 6 || starts_char(b[i + 6]))
}

impl Theme {
    /// The theme whose colours are written in these texts.
    pub fn from_hex_colors(header: &str, status_play: &str, status_stop: &str, warning: &str) -> (r: Theme)
        requires
            hex_cuttable(header.spec_bytes()),
            hex_cuttable(status_play.spec_bytes()),
            hex_cuttable(status_stop.spec_bytes()),
            hex_cuttable(warning.spec_bytes()),
        ensures
            r.header == hex_color(header.spec_bytes()),
            r.status_play == hex_color(status_play.spec_bytes()),
            r.status_stop == hex_color(status_stop.spec_bytes()),
            r.warning == hex_color(warning.spec_bytes()),
    {
        Theme {
            header: hex_to_rgb(header),
            status_play: hex_to_rgb(status_play),
            status_stop: hex_to_rgb(status_stop),
            warning: hex_to_rgb(warning),
        }
    }
}

} // verus!
