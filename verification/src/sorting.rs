use vstd::prelude::*;

verus! {

/// A key by which items are put in order: `key_le(a, b)` says that an item
/// with key `a` may stand before one with key `b`. It is a total preorder.
pub trait SortKey: Sized {
    spec fn key_le(a: Self, b: Self) -> bool;

    proof fn lemma_total(a: Self, b: Self)
        ensures
            Self::key_le(a, b) || Self::key_le(b, a),
    ;

    proof fn lemma_trans(a: Self, b: Self, c: Self)
        requires
            Self::key_le(a, b),
            Self::key_le(b, c),
        ensures
            Self::key_le(a, c),
    ;

    fn key_leq(&self, other: &Self) -> (r: bool)
        ensures
            r == Self::key_le(*self, *other),
    ;
}

/// `p` lists each index below `n` exactly once.
pub open spec fn is_index_perm(p: Seq<usize>, n: nat) -> bool {
    &&& p.len() == n
    &&& forall|a: int| 0 <= a < p.len() ==> #[trigger] p[a] < n
    &&& p.no_duplicates()
}

/// Taking the items in the order `p` puts their keys in order.
pub open spec fn sorted_by_key<K: SortKey>(p: Seq<usize>, keys: Seq<K>) -> bool {
    forall|a: int, b: int|
        #![trigger p[a], p[b]]
        0 <= a < b < p.len() ==> K::key_le(keys[p[a] as int], keys[p[b] as int])
}

/// Items with equal keys keep their relative order under `p`.
pub open spec fn stable_by_key<K: SortKey>(p: Seq<usize>, keys: Seq<K>) -> bool {
    forall|a: int, b: int|
        #![trigger p[a], p[b]]
        0 <= a < b < p.len() && K::key_le(keys[p[b] as int], keys[p[a] as int]) ==> p[a] < p[b]
}

/// `p` is the order of a stable sort of items with the keys `keys`.
pub open spec fn is_stable_order<K: SortKey>(p: Seq<usize>, keys: Seq<K>) -> bool {
    &&& is_index_perm(p, keys.len())
    &&& sorted_by_key(p, keys)
    &&& stable_by_key(p, keys)
}

proof fn lemma_insert_keeps_order<K: SortKey>(p: Seq<usize>, keys: Seq<K>, i: usize, lo: int)
    requires
        i < keys.len(),
        is_index_perm(p, i as nat),
        forall|a: int| 0 <= a < p.len() ==> #[trigger] p[a] < keys.len(),
        sorted_by_key(p, keys),
        stable_by_key(p, keys),
        0 <= lo <= p.len(),
        forall|j: int| 0 <= j < lo ==> K::key_le(#[trigger] keys[p[j] as int], keys[i as int]),
        forall|j: int| lo <= j < p.len() ==> !K::key_le(#[trigger] keys[p[j] as int], keys[i as int]),
    ensures
        is_index_perm(p.insert(lo, i), (i + 1) as nat),
        sorted_by_key(p.insert(lo, i), keys),
        stable_by_key(p.insert(lo, i), keys),
{
    let q = p.insert(lo, i);
    p.insert_ensures(lo, i);
    assert forall|x: int| 0 <= x < q.len() implies #[trigger] q[x] < i + 1 by {
        if x < lo {
            assert(q[x] == p[x]);
        } else if x > lo {
            assert(q[x] == p[x - 1]);
        }
    }
    assert forall|x: int, y: int| 0 <= x < q.len() && 0 <= y < q.len() && x != y implies q[x] != q[y] by {
        if x != lo && y != lo {
            let px = if x < lo { x } else { x - 1 };
            let py = if y < lo { y } else { y - 1 };
            assert(q[x] == p[px]);
            assert(q[y] == p[py]);
        } else if x == lo {
            let py = if y < lo { y } else { y - 1 };
            assert(q[y] == p[py]);
        } else {
            let px = if x < lo { x } else { x - 1 };
            assert(q[x] == p[px]);
        }
    }
    assert forall|a: int, b: int| #![trigger q[a], q[b]] 0 <= a < b < q.len() implies K::key_le(keys[q[a] as int], keys[q[b] as int]) by {
        if b < lo {
            assert(q[a] == p[a] && q[b] == p[b]);
        } else if a > lo {
            assert(q[a] == p[a - 1] && q[b] == p[b - 1]);
        } else if a < lo && b > lo {
            assert(q[a] == p[a] && q[b] == p[b - 1]);
        } else if a < lo && b == lo {
            assert(q[a] == p[a]);
        } else {
            assert(a == lo && b > lo);
            assert(q[b] == p[b - 1]);
            assert(!K::key_le(keys[p[b - 1] as int], keys[i as int]));
            K::lemma_total(keys[p[b - 1] as int], keys[i as int]);
        }
    }
    assert forall|a: int, b: int| #![trigger q[a], q[b]] 0 <= a < b < q.len() && K::key_le(keys[q[b] as int], keys[q[a] as int]) implies q[a] < q[b] by {
        if b < lo {
            assert(q[a] == p[a] && q[b] == p[b]);
        } else if a > lo {
            assert(q[a] == p[a - 1] && q[b] == p[b - 1]);
        } else if a < lo && b > lo {
            assert(q[a] == p[a] && q[b] == p[b - 1]);
        } else if a < lo && b == lo {
            assert(q[a] == p[a]);
        } else {
            assert(q[b] == p[b - 1]);
        }
    }
}

/// The order of a stable sort of items by their keys.
pub fn stable_order<K: SortKey>(keys: &Vec<K>) -> (p: Vec<usize>)
    ensures
        is_stable_order(p@, keys@),
{
    let n = keys.len();
    let mut p: Vec<usize> = Vec::new();
    let mut i: usize = 0;
    while i < n
        invariant
            i <= n,
            n == keys@.len(),
            is_index_perm(p@, i as nat),
            sorted_by_key(p@, keys@),
            stable_by_key(p@, keys@),
        decreases n - i,
    {
        let mut lo: usize = 0;
        let mut hi: usize = p.len();
        while lo < hi
            invariant
                0 <= lo <= hi <= p@.len(),
                i < n,
                n == keys@.len(),
                is_index_perm(p@, i as nat),
                sorted_by_key(p@, keys@),
                forall|j: int| 0 <= j < lo ==> K::key_le(#[trigger] keys@[p@[j] as int], keys@[i as int]),
                forall|j: int| hi <= j < p@.len() ==> !K::key_le(#[trigger] keys@[p@[j] as int], keys@[i as int]),
            decreases hi - lo,
        {
            let mid = lo + (hi - lo) / 2;
            let pm = p[mid];
            if keys[pm].key_leq(&keys[i]) {
                assert forall|j: int| 0 <= j < mid + 1 implies K::key_le(#[trigger] keys@[p@[j] as int], keys@[i as int]) by {
                    if j >= lo && j < mid {
                        assert(K::key_le(keys@[p@[j] as int], keys@[p@[mid as int] as int]));
                        K::lemma_trans(keys@[p@[j] as int], keys@[p@[mid as int] as int], keys@[i as int]);
                    }
                }
                lo = mid + 1;
            } else {
                assert forall|j: int| mid <= j < p@.len() implies !K::key_le(#[trigger] keys@[p@[j] as int], keys@[i as int]) by {
                    if j > mid && j < hi {
                        assert(K::key_le(keys@[p@[mid as int] as int], keys@[p@[j] as int]));
                        if K::key_le(keys@[p@[j] as int], keys@[i as int]) {
                            K::lemma_trans(keys@[p@[mid as int] as int], keys@[p@[j] as int], keys@[i as int]);
                        }
                    }
                }
                hi = mid;
            }
        }
        proof {
            lemma_insert_keeps_order(p@, keys@, i, lo as int);
        }
        p.insert(lo, i);
        i = i + 1;
    }
    p
}

} // verus!

verus! {

/// Lexicographic order of texts by code point: the order of `str`'s `Ord`.
pub open spec fn text_le(a: Seq<char>, b: Seq<char>) -> bool
    decreases a.len(),
{
    if a.len() == 0 {
        true
    } else if b.len() == 0 {
        false
    } else if a[0] != b[0] {
        a[0] < b[0]
    } else {
        text_le(a.drop_first(), b.drop_first())
    }
}

pub proof fn lemma_text_le_total(a: Seq<char>, b: Seq<char>)
    ensures
        text_le(a, b) || text_le(b, a),
    decreases a.len(),
{
    if a.len() > 0 && b.len() > 0 && a[0] == b[0] {
        lemma_text_le_total(a.drop_first(), b.drop_first());
    }
}

pub proof fn lemma_text_le_trans(a: Seq<char>, b: Seq<char>, c: Seq<char>)
    requires
        text_le(a, b),
        text_le(b, c),
    ensures
        text_le(a, c),
    decreases a.len(),
{
    if a.len() > 0 && b.len() > 0 && c.len() > 0 && a[0] == b[0] && b[0] == c[0] {
        lemma_text_le_trans(a.drop_first(), b.drop_first(), c.drop_first());
    }
}

/// Whether `a` stands before or equal to `b` in lexicographic order.
pub fn text_leq(a: &[char], b: &[char]) -> (r: bool)
    ensures
        r == text_le(a@, b@),
{
    let mut i: usize = 0;
    assert(a@.skip(0) =~= a@);
    assert(b@.skip(0) =~= b@);
    while i < a.len() && i < b.len()
        invariant
            i <= a@.len(),
            i <= b@.len(),
            text_le(a@, b@) == text_le(a@.skip(i as int), b@.skip(i as int)),
        decreases a@.len() - i,
    {
        assert(a@.skip(i as int)[0] == a@[i as int]);
        assert(b@.skip(i as int)[0] == b@[i as int]);
        if a[i] != b[i] {
            return a[i] < b[i];
        }
        assert(a@.skip(i as int).drop_first() =~= a@.skip(i + 1));
        assert(b@.skip(i as int).drop_first() =~= b@.skip(i + 1));
        i = i + 1;
    }
    i == a.len()
}

/// A text key, ordered lexicographically.
pub struct TextKey {
    pub chars: Vec<char>,
}

impl SortKey for TextKey {
    open spec fn key_le(a: Self, b: Self) -> bool {
        text_le(a.chars@, b.chars@)
    }

    proof fn lemma_total(a: Self, b: Self) {
        lemma_text_le_total(a.chars@, b.chars@);
    }

    proof fn lemma_trans(a: Self, b: Self, c: Self) {
        lemma_text_le_trans(a.chars@, b.chars@, c.chars@);
    }

    fn key_leq(&self, other: &Self) -> (r: bool) {
        text_leq(self.chars.as_slice(), other.chars.as_slice())
    }
}

/// A score key: higher scores come first.
pub struct ScoreDesc {
    pub score: i64,
}

impl SortKey for ScoreDesc {
    open spec fn key_le(a: Self, b: Self) -> bool {
        a.score >= b.score
    }

    proof fn lemma_total(a: Self, b: Self) {
    }

    proof fn lemma_trans(a: Self, b: Self, c: Self) {
    }

    fn key_leq(&self, other: &Self) -> (r: bool) {
        self.score >= other.score
    }
}

} // verus!
