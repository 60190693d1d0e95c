use vstd::prelude::*;
use vstd::view::View as _;
use vstd::utf8::*;
use vstd::string::StringSliceAdditionalSpecFns;
use std::collections::BTreeMap;
use crate::textnum::{all_digits, starts_char, chars_of, digit_val, digits_value, is_digit, parse_u32, parse_u32_spec, spec_trim, trimmed, unsigned_digits};

verus! {

broadcast use vstd::laws_cmp::group_laws_cmp;

/// Splitting bytes into lines after the first `n` of them: the byte ranges
/// of the lines ended so far (without their `\n`, nor a `\r` before it),
/// and where the open line starts.
pub open spec fn scan_lines(b: Seq<u8>, n: int) -> (Seq<(int, int)>, int)
    decreases n,
{
    if n <= 0 {
        (Seq::empty(), 0)
    } else {
        let (done, st) = scan_lines(b, n - 1);
        if b[n - 1] == 10 {
            let e = n - 1;
            let e2 = if e > st && b[e - 1] == 13 { e - 1 } else { e };
            (done.push((st, e2)), n)
        } else {
            (done, st)
        }
    }
}

/// The byte ranges of the lines of a text, as `str::lines` splits it: at
/// each `\n`, dropping a `\r` just before it; a last line that is not ended
/// counts when it is not empty.
pub open spec fn line_ranges(b: Seq<u8>) -> Seq<(int, int)> {
    let (done, st) = scan_lines(b, b.len() as int);
    if st < b.len() {
        done.push((st, b.len() as int))
    } else {
        done
    }
}

pub open spec fn or_zero(o: Option<u32>) -> u32 {
    match o {
        Some(v) => v,
        None => 0,
    }
}

/// The timed lyric line that the line `b[s..e]` holds, if any: a line longer
/// than ten bytes that starts with `[`, minutes in bytes 1..3, seconds in
/// bytes 4..6 (0 where unreadable), the text from byte 10 on, trimmed and
/// not empty.
pub open spec fn lyric_entry(b: Seq<u8>, s: int, e: int) -> Option<(u32, Seq<char>)> {
    if e - s > 10 && b[s] == 91 {
        let mins = or_zero(parse_u32_spec(decode_utf8(b.subrange(s + 1, s + 3))));
        let secs = or_zero(parse_u32_spec(decode_utf8(b.subrange(s + 4, s + 6))));
        let txt = spec_trim(decode_utf8(b.subrange(s + 10, e)));
        if txt.len() > 0 {
            Some(((mins * 60 + secs) as u32, txt))
        } else {
            None
        }
    } else {
        None
    }
}

/// Where a timed line is cut, bytes 1, 3, 4, 6 and 10 must each start a
/// character.
pub open spec fn slices_ok(b: Seq<u8>, s: int, e: int) -> bool {
    (e - s > 10 && b[s] == 91) ==> {
        &&& !is_continuation_byte(b[s + 1])
        &&& !is_continuation_byte(b[s + 3])
        &&& !is_continuation_byte(b[s + 4])
        &&& !is_continuation_byte(b[s + 6])
        &&& !is_continuation_byte(b[s + 10])
    }
}

/// The lyrics read from the lines `r` of `b`, a later line replacing an
/// earlier one with the same time.
pub open spec fn lyric_map(b: Seq<u8>, r: Seq<(int, int)>) -> Map<u32, Seq<char>>
    decreases r.len(),
{
    if r.len() == 0 {
        Map::empty()
    } else {
        let m = lyric_map(b, r.drop_last());
        match lyric_entry(b, r.last().0, r.last().1) {
            Some((k, v)) => m.insert(k, v),
            None => m,
        }
    }
}

/// The placeholder shown when there are no lyrics.
pub open spec fn no_lyrics() -> Map<u32, Seq<char>> {
    Map::empty().insert(0u32, "暂无歌词"@).insert(5u32, "..."@)
}

/// The lyrics of a `.lrc` text.
pub open spec fn lrc_lyrics(b: Seq<u8>) -> Map<u32, Seq<char>> {
    let m = lyric_map(b, line_ranges(b));
    if m.is_empty() {
        no_lyrics()
    } else {
        m
    }
}

/// Every timed line of `b` can be cut where the format says.
pub open spec fn lrc_slices_ok(b: Seq<u8>) -> bool {
    forall|k: int| 0 <= k < line_ranges(b).len() ==> slices_ok(b, #[trigger] line_ranges(b)[k].0, line_ranges(b)[k].1)
}

/// A map of texts holds the texts `s`.
pub open spec fn lyrics_match(m: Map<u32, String>, s: Map<u32, Seq<char>>) -> bool {
    &&& m.dom() == s.dom()
    &&& forall|k: u32| #[trigger] m.contains_key(k) ==> m[k]@ == s[k]
}

proof fn lemma_scan_prefix(b: Seq<u8>, i: int, j: int)
    requires
        0 <= i <= j <= b.len(),
    ensures
        scan_lines(b, i).0.len() <= scan_lines(b, j).0.len(),
        forall|k: int| 0 <= k < scan_lines(b, i).0.len() ==> #[trigger] scan_lines(b, j).0[k] == scan_lines(b, i).0[k],
    decreases j - i,
{
    if i < j {
        lemma_scan_prefix(b, i, j - 1);
    }
}

proof fn lemma_scan_bounds(b: Seq<u8>, n: int)
    requires
        0 <= n <= b.len(),
    ensures
        0 <= scan_lines(b, n).1 <= n,
        n > 0 && scan_lines(b, n).1 < n ==> b[n - 1] != 10,
        forall|k: int| #![trigger scan_lines(b, n).0[k]] 0 <= k < scan_lines(b, n).0.len() ==> {
            let (s, e) = scan_lines(b, n).0[k];
            &&& 0 <= s <= e < n
            &&& (b[e] == 10 || b[e] == 13)
        },
    decreases n,
{
    if n > 0 {
        lemma_scan_bounds(b, n - 1);
    }
}

proof fn lemma_encode_len(cs: Seq<char>)
    ensures
        encode_utf8(cs).len() >= cs.len(),
    decreases cs.len(),
{
    if cs.len() > 0 {
        lemma_encode_len(cs.drop_first());
    }
}

proof fn lemma_short_number(s: Seq<char>)
    requires
        s.len() <= 2,
    ensures
        or_zero(parse_u32_spec(s)) <= 99,
{
    let d = unsigned_digits(s);
    if d.len() > 0 && all_digits(d) && digits_value(d) <= u32::MAX {
        assert(is_digit(d[d.len() - 1]));
        assert(digit_val(d.last()) <= 9);
        if d.len() == 2 {
            let d1 = d.drop_last();
            assert(d1.len() == 1);
            assert(d1.last() == d[0]);
            assert(is_digit(d[0]));
            assert(d1.drop_last().len() == 0);
            assert(digits_value(d1.drop_last()) == 0);
            assert(digit_val(d[0]) <= 9);
            assert(digits_value(d1) == digits_value(d1.drop_last()) * 10 + digit_val(d1.last()));
            assert(digits_value(d1) <= 9);
            assert(digits_value(d) == digits_value(d1) * 10 + digit_val(d.last()));
            assert(digits_value(d) <= 99);
        } else {
            assert(d.drop_last().len() == 0);
            assert(digits_value(d.drop_last()) == 0);
            assert(digits_value(d) == digits_value(d.drop_last()) * 10 + digit_val(d.last()));
            assert(digits_value(d) <= 9);
        }
    }
}

/// The text of the bytes `p..q` of `s`, cut where characters start.
fn sub_str(s: &str, p: usize, q: usize) -> (r: &str)
    requires
        p <= q <= s.spec_bytes().len(),
        p < s.spec_bytes().len() ==> !is_continuation_byte(s.spec_bytes()[p as int]),
        q < s.spec_bytes().len() ==> !is_continuation_byte(s.spec_bytes()[q as int]),
    ensures
        r@ == decode_utf8(s.spec_bytes().subrange(p as int, q as int)),
        r@.len() <= q - p,
{
    broadcast use encode_utf8_valid_utf8, encode_utf8_decode_utf8, is_char_boundary_start_end_of_seq, is_char_boundary_iff_not_is_continuation_byte, valid_utf8_split;

    let ghost b = s.spec_bytes();
    assert(valid_utf8(b));
    assert(is_char_boundary(b, p as int));
    let (_, tail) = s.split_at(p);
    let ghost tb = tail.spec_bytes();
    assert(tb =~= b.subrange(p as int, b.len() as int));
    assert(valid_utf8(b.subrange(p as int, b.len() as int)));
    proof {
        if q < b.len() {
            assert(tb[q - p] == b[q as int]);
        }
    }
    assert(is_char_boundary(tb, (q - p) as int));
    let (mid, _) = tail.split_at(q - p);
    assert(mid.spec_bytes() =~= b.subrange(p as int, q as int));
    proof {
        lemma_encode_len(mid@);
    }
    mid
}

/// Reads the lyric line `b[s..e]` of `content` into `m`.
fn read_line(content: &str, s: usize, e: usize, m: &mut BTreeMap<u32, String>)
    requires
        s <= e <= content.spec_bytes().len(),
        e < content.spec_bytes().len() ==> !is_continuation_byte(content.spec_bytes()[e as int]),
        slices_ok(content.spec_bytes(), s as int, e as int),
    ensures
        final(m)@ == match lyric_entry(content.spec_bytes(), s as int, e as int) {
            Some((k, v)) => old(m)@.insert(k, final(m)@[k]),
            None => old(m)@,
        },
        lyric_entry(content.spec_bytes(), s as int, e as int) matches Some((k, v)) ==> final(m)@[k]@ == v,
{
    let ghost b = content.spec_bytes();
    let bytes = content.as_bytes();
    if e - s > 10 && bytes[s] == 91 {
        let mins_text = chars_of(sub_str(content, s + 1, s + 3));
        let secs_text = chars_of(sub_str(content, s + 4, s + 6));
        let mins: u32 = match parse_u32(mins_text.as_slice()) {
            Some(v) => v,
            None => 0,
        };
        let secs: u32 = match parse_u32(secs_text.as_slice()) {
            Some(v) => v,
            None => 0,
        };
        proof {
            lemma_short_number(mins_text@);
            lemma_short_number(secs_text@);
        }
        let txt = trimmed(sub_str(content, s + 10, e));
        if !txt.is_empty() {
            let key = mins * 60 + secs;
            m.insert(key, String::from_str(txt));
        }
    }
}

/// Whether the line `b[s..e]` can be cut where a timed line is cut.
fn line_cuttable(bytes: &[u8], s: usize, e: usize) -> (r: bool)
    requires
        s <= e <= bytes@.len(),
    ensures
        r == slices_ok(bytes@, s as int, e as int),
{
    if e - s > 10 && bytes[s] == 91 {
        starts_char(bytes[s + 1]) && starts_char(bytes[s + 3]) && starts_char(bytes[s + 4])
            && starts_char(bytes[s + 6]) && starts_char(bytes[s + 10])
    } else {
        true
    }
}

/// Whether every timed line of a `.lrc` text can be cut where the format
/// says, so that `parse_lyrics` may read it.
pub fn lrc_cuttable(content: &str) -> (r: bool)
    ensures
        r == lrc_slices_ok(content.spec_bytes()),
{
    let ghost b = content.spec_bytes();
    let bytes = content.as_bytes();
    let n = bytes.len();
    let mut start: usize = 0;
    let mut i: usize = 0;
    while i < n
        invariant
            n == b.len(),
            b == content.spec_bytes(),
            bytes@ == b,
            i <= n,
            scan_lines(b, i as int).1 == start as int,
            forall|k: int| 0 <= k < scan_lines(b, i as int).0.len() ==> slices_ok(b, #[trigger] scan_lines(b, i as int).0[k].0, scan_lines(b, i as int).0[k].1),
        decreases n - i,
    {
        proof {
            lemma_scan_bounds(b, i as int);
        }
        if bytes[i] == 10 {
            let e = if i > start && bytes[i - 1] == 13 { i - 1 } else { i };
            let ghost done = scan_lines(b, i + 1).0;
            assert(done.last() == (start as int, e as int));
            assert(done.drop_last() =~= scan_lines(b, i as int).0);
            if !line_cuttable(bytes, start, e) {
                proof {
                    lemma_scan_prefix(b, i + 1, n as int);
                    let k = done.len() - 1;
                    assert(scan_lines(b, n as int).0[k] == done[k]);
                    assert(line_ranges(b)[k] == done[k]);
                    assert(0 <= k < line_ranges(b).len());
                    assert(!slices_ok(b, line_ranges(b)[k].0, line_ranges(b)[k].1));
                }
                return false;
            }
            proof {
                assert forall|k: int| 0 <= k < done.len() implies slices_ok(b, #[trigger] done[k].0, done[k].1) by {
                    if k < done.len() - 1 {
                        assert(done[k] == done.drop_last()[k]);
                    }
                }
            }
            start = i + 1;
        }
        i = i + 1;
    }
    proof {
        lemma_scan_bounds(b, n as int);
    }
    let ghost done = scan_lines(b, n as int).0;
    if start < n {
        let last_ok = line_cuttable(bytes, start, n);
        proof {
            let k = done.len() as int;
            assert(line_ranges(b)[k] == (start as int, n as int));
            if last_ok {
                assert forall|j: int| 0 <= j < line_ranges(b).len() implies slices_ok(b, #[trigger] line_ranges(b)[j].0, line_ranges(b)[j].1) by {
                    if j < k {
                        assert(line_ranges(b)[j] == done[j]);
                    }
                }
            } else {
                assert(!slices_ok(b, line_ranges(b)[k].0, line_ranges(b)[k].1));
            }
        }
        last_ok
    } else {
        assert(line_ranges(b) == done);
        assert forall|j: int| 0 <= j < line_ranges(b).len() implies slices_ok(b, #[trigger] line_ranges(b)[j].0, line_ranges(b)[j].1) by {
            assert(line_ranges(b)[j] == done[j]);
        }
        true
    }
}

/// The lyrics of a `.lrc` text: one line per time stamp; a placeholder where
/// the text holds none.
pub fn parse_lyrics(content: &str) -> (r: BTreeMap<u32, String>)
    requires
        lrc_slices_ok(content.spec_bytes()),
    ensures
        lyrics_match(r@, lrc_lyrics(content.spec_bytes())),
{
    let ghost b = content.spec_bytes();
    let bytes = content.as_bytes();
    let n = bytes.len();
    let mut m: BTreeMap<u32, String> = BTreeMap::new();
    let mut start: usize = 0;
    let mut i: usize = 0;
    while i < n
        invariant
            n == b.len(),
            b == content.spec_bytes(),
            bytes@ == b,
            i <= n,
            scan_lines(b, i as int).1 == start as int,
            lrc_slices_ok(b),
            lyrics_match(m@, lyric_map(b, scan_lines(b, i as int).0)),
        decreases n - i,
    {
        proof {
            lemma_scan_bounds(b, i as int);
        }
        if bytes[i] == 10 {
            let e = if i > start && bytes[i - 1] == 13 { i - 1 } else { i };
            proof {
                let done = scan_lines(b, i + 1).0;
                assert(done.last() == (start as int, e as int));
                assert(done.drop_last() =~= scan_lines(b, i as int).0);
                lemma_scan_prefix(b, i + 1, n as int);
                let k = done.len() - 1;
                assert(line_ranges(b)[k] == done[k]);
                assert(slices_ok(b, line_ranges(b)[k].0, line_ranges(b)[k].1));
                assert(slices_ok(b, start as int, e as int));
                assert(b[e as int] == 10 || b[e as int] == 13);
                assert(!is_continuation_byte(b[e as int]));
            }
            let ghost before = m@;
            read_line(content, start, e, &mut m);
            proof {
                let done = scan_lines(b, i + 1).0;
                let prev = lyric_map(b, scan_lines(b, i as int).0);
                match lyric_entry(b, start as int, e as int) {
                    Some((k, v)) => {
                        assert(lyric_map(b, done) == prev.insert(k, v));
                        assert(m@.dom() =~= lyric_map(b, done).dom());
                    },
                    None => {
                        assert(lyric_map(b, done) == prev);
                    },
                }
            }
            start = i + 1;
        }
        i = i + 1;
    }
    proof {
        lemma_scan_bounds(b, n as int);
    }
    if start < n {
        proof {
            let done = scan_lines(b, n as int).0;
            let k = done.len() as int;
            assert(line_ranges(b)[k] == (start as int, n as int));
            assert(slices_ok(b, line_ranges(b)[k].0, line_ranges(b)[k].1));
            assert(line_ranges(b).drop_last() =~= done);
        }
        read_line(content, start, n, &mut m);
        proof {
            let prev = lyric_map(b, scan_lines(b, n as int).0);
            match lyric_entry(b, start as int, n as int) {
                Some((k, v)) => {
                    assert(lyric_map(b, line_ranges(b)) == prev.insert(k, v));
                    assert(m@.dom() =~= lyric_map(b, line_ranges(b)).dom());
                },
                None => {
                    assert(lyric_map(b, line_ranges(b)) == prev);
                },
            }
        }
    } else {
        assert(line_ranges(b) == scan_lines(b, n as int).0);
    }
    if m.is_empty() {
        m.insert(0, String::from_str("暂无歌词"));
        m.insert(5, String::from_str("..."));
        proof {
            assert(m@.dom() =~= no_lyrics().dom());
        }
    }
    m
}

/// A byte that is a decimal digit in ASCII.
pub open spec fn is_ascii_digit_byte(x: u8) -> bool {
    48 <= x <= 57
}

proof fn lemma_ascii_char(x: Seq<u8>)
    requires
        x.len() >= 1,
        x[0] <= 0x7f,
    ensures
        valid_first_scalar(x),
        decode_first_scalar(x) == x[0] as u32,
        pop_first_scalar(x) == x.subrange(1, x.len() as int),
{
    let b = x[0];
    assert(b & 0x7f == b) by (bit_vector)
        requires
            b <= 0x7f,
    ;
}

proof fn lemma_two_digits(x: Seq<u8>)
    requires
        x.len() == 2,
        is_ascii_digit_byte(x[0]),
        is_ascii_digit_byte(x[1]),
    ensures
        or_zero(parse_u32_spec(decode_utf8(x))) == 10 * (x[0] - 48) + (x[1] - 48),
{
    lemma_ascii_char(x);
    let y = x.subrange(1, 2);
    lemma_ascii_char(y);
    let z = y.subrange(1, 1);
    assert(z.len() == 0);
    assert(valid_utf8(z));
    assert(decode_utf8(z) == Seq::<char>::empty());
    assert(valid_utf8(y));
    assert(decode_utf8(y) == seq![x[1] as u32 as char] + decode_utf8(z));
    assert(valid_utf8(x));
    assert(decode_utf8(x) == seq![x[0] as u32 as char] + decode_utf8(y));
    let d = decode_utf8(x);
    assert(d =~= seq![x[0] as u32 as char, x[1] as u32 as char]);
    let c0 = x[0] as u32 as char;
    let c1 = x[1] as u32 as char;
    assert(c0 as int == x[0] as int);
    assert(c1 as int == x[1] as int);
    assert(is_digit(c0) && is_digit(c1));
    assert(unsigned_digits(d) == d);
    assert(all_digits(d));
    assert(d.drop_last() =~= seq![c0]);
    assert(d.drop_last().drop_last() =~= Seq::<char>::empty());
    assert(digits_value(d.drop_last()) == digits_value(d.drop_last().drop_last()) * 10 + digit_val(c0));
    assert(digits_value(d) == digits_value(d.drop_last()) * 10 + digit_val(c1));
}

/// The key of a timed line is its minutes times sixty plus its seconds, each
/// read as a two-digit decimal number: for `[MM:SS.xx] text` with decimal
/// digits and text that is not blank, the line `b[s..e]` gives the key
/// `60 * MM + SS`.
pub proof fn law_lyric_key(b: Seq<u8>, s: int, e: int)
    requires
        0 <= s,
        e <= b.len(),
        e - s > 10,
        b[s] == 91,
        is_ascii_digit_byte(b[s + 1]),
        is_ascii_digit_byte(b[s + 2]),
        is_ascii_digit_byte(b[s + 4]),
        is_ascii_digit_byte(b[s + 5]),
        spec_trim(decode_utf8(b.subrange(s + 10, e))).len() > 0,
    ensures
        lyric_entry(b, s, e) matches Some((k, t)) && k == 60 * (10 * (b[s + 1] - 48) + (b[s + 2] - 48)) + 10 * (
        b[s + 4] - 48) + (b[s + 5] - 48) && t == spec_trim(decode_utf8(b.subrange(s + 10, e))),
{
    let m = b.subrange(s + 1, s + 3);
    let c = b.subrange(s + 4, s + 6);
    assert(m[0] == b[s + 1] && m[1] == b[s + 2]);
    assert(c[0] == b[s + 4] && c[1] == b[s + 5]);
    lemma_two_digits(m);
    lemma_two_digits(c);
}

proof fn lemma_no_newline(b: Seq<u8>, n: int)
    requires
        0 <= n <= b.len(),
        forall|i: int| 0 <= i < b.len() ==> b[i] != 10,
    ensures
        scan_lines(b, n) == (Seq::<(int, int)>::empty(), 0int),
    decreases n,
{
    if n > 0 {
        lemma_no_newline(b, n - 1);
    }
}

/// A text that is one timed line `[MM:SS.xx] text`, with decimal digits and
/// text that is not blank, gives exactly one lyric: the text under the key
/// `60 * MM + SS`.
pub proof fn law_one_timed_line(b: Seq<u8>)
    requires
        forall|i: int| 0 <= i < b.len() ==> b[i] != 10,
        b.len() > 10,
        b[0] == 91,
        is_ascii_digit_byte(b[1]),
        is_ascii_digit_byte(b[2]),
        is_ascii_digit_byte(b[4]),
        is_ascii_digit_byte(b[5]),
        spec_trim(decode_utf8(b.subrange(10, b.len() as int))).len() > 0,
    ensures
        lrc_lyrics(b) == Map::<u32, Seq<char>>::empty().insert(
            (60 * (10 * (b[1] - 48) + (b[2] - 48)) + 10 * (b[4] - 48) + (b[5] - 48)) as u32,
            spec_trim(decode_utf8(b.subrange(10, b.len() as int))),
        ),
{
    lemma_no_newline(b, b.len() as int);
    let r = line_ranges(b);
    assert(r == seq![(0int, b.len() as int)]);
    law_lyric_key(b, 0, b.len() as int);
    assert(r.drop_last() =~= Seq::<(int, int)>::empty());
    assert(lyric_map(b, r.drop_last()) == Map::<u32, Seq<char>>::empty());
    let m = lyric_map(b, r);
    assert(m.dom().contains((60 * (10 * (b[1] - 48) + (b[2] - 48)) + 10 * (b[4] - 48) + (b[5] - 48)) as u32));
}

} // verus!
