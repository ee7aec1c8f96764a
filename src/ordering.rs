//! Order on texts (character by character, by code point, a prefix first)
//! and a stable sort that yields the order of positions of a list of keys.

use vstd::prelude::*;
use vstd::string::*;

verus! {

/// Whether `a` comes before `b` or equals it, comparing by code point and
/// putting a prefix first.
pub open spec fn text_le(a: Seq<char>, b: Seq<char>) -> bool
    decreases a.len(),
{
    if a.len() == 0 {
        true
    } else if b.len() == 0 {
        false
    } else if a[0] == b[0] {
        text_le(a.drop_first(), b.drop_first())
    } else {
        a[0] < b[0]
    }
}

/// The order on keys that put the flagged ones first: `(true, _)` before
/// `(false, _)`, and by text within each group.
pub open spec fn key_le(a: (bool, Seq<char>), b: (bool, Seq<char>)) -> bool {
    (a.0 && !b.0) || (a.0 == b.0 && text_le(a.1, b.1))
}

/// Of two texts, one comes before the other or equals it.
pub proof fn lemma_text_le_total(a: Seq<char>, b: Seq<char>)
    ensures
        text_le(a, b) || text_le(b, a),
    decreases a.len(),
{
    if a.len() > 0 && b.len() > 0 && a[0] == b[0] {
        lemma_text_le_total(a.drop_first(), b.drop_first());
    }
}

/// Of two keys, one comes before the other or equals it.
pub proof fn lemma_key_le_total(a: (bool, Seq<char>), b: (bool, Seq<char>))
    ensures
        key_le(a, b) || key_le(b, a),
{
    lemma_text_le_total(a.1, b.1);
}

/// Whether `a` comes before `b` or equals it.
pub fn text_le_exec(a: &str, b: &str) -> (r: bool)
    ensures
        r == text_le(a@, b@),
{
    let n = a.unicode_len();
    let m = b.unicode_len();
    let mut i: usize = 0;
    assert(a@.skip(0) =~= a@);
    assert(b@.skip(0) =~= b@);
    while i < n && i < m
        invariant
            n == a@.len(),
            m == b@.len(),
            i <= n,
            i <= m,
            text_le(a@, b@) == text_le(a@.skip(i as int), b@.skip(i as int)),
        decreases n - i,
    {
        let x = a.get_char(i);
        let y = b.get_char(i);
        assert(a@.skip(i as int)[0] == x);
        assert(b@.skip(i as int)[0] == y);
        if x != y {
            return x < y;
        }
        assert(a@.skip(i as int).drop_first() =~= a@.skip(i + 1));
        assert(b@.skip(i as int).drop_first() =~= b@.skip(i + 1));
        i = i + 1;
    }
    i == n
}

/// Whether the positions in `order` are distinct and each below `n`.
pub open spec fn distinct_below(order: Seq<usize>, n: nat) -> bool {
    &&& forall|k: int| 0 <= k < order.len() ==> order[k] < n
    &&& forall|j: int, k: int| 0 <= j < order.len() && 0 <= k < order.len() && j != k ==> order[j] != order[k]
}

/// Whether `order` lists every position below `n` once.
pub open spec fn is_arrangement(order: Seq<usize>, n: nat) -> bool {
    &&& order.len() == n
    &&& distinct_below(order, n)
    &&& covers(order, n)
}

/// Whether every position below `n` occurs in `order`.
pub open spec fn covers(order: Seq<usize>, n: nat) -> bool {
    forall|x: int| 0 <= x < n ==> #[trigger] occurs(order, x)
}

/// Whether the position `x` occurs in `order`.
pub open spec fn occurs(order: Seq<usize>, x: int) -> bool {
    exists|k: int| 0 <= k < order.len() && order[k] == x
}

/// The key of position `i`: its flag and its text.
pub open spec fn key_at(keys: Seq<String>, first: Seq<bool>, i: int) -> (bool, Seq<char>) {
    (first[i], keys[i]@)
}

/// Whether the keys, taken in the order of `order`, never decrease.
pub open spec fn sorted_by_keys(order: Seq<usize>, keys: Seq<String>, first: Seq<bool>) -> bool {
    forall|k: int|
        0 <= k < order.len() - 1 ==> key_le(
            #[trigger] key_at(keys, first, order[k] as int),
            key_at(keys, first, order[k + 1] as int),
        )
}

/// The positions of `keys`, arranged so that their keys never decrease:
/// flagged positions first, then by text.
pub fn sort_order(keys: &Vec<String>, first: &Vec<bool>) -> (r: Vec<usize>)
    requires
        keys.len() == first.len(),
    ensures
        is_arrangement(r@, keys.len() as nat),
        sorted_by_keys(r@, keys@, first@),
{
    let n = keys.len();
    let mut r: Vec<usize> = Vec::new();
    let mut i: usize = 0;
    while i < n
        invariant
            n == keys.len(),
            n == first.len(),
            i <= n,
            r.len() == i,
            distinct_below(r@, i as nat),
            covers(r@, i as nat),
            sorted_by_keys(r@, keys@, first@),
        decreases n - i,
    {
        let mut p: usize = 0;
        while p < r.len() && key_le_exec(keys, first, r[p], i)
            invariant
                n == keys.len(),
                n == first.len(),
                i < n,
                r.len() == i,
                distinct_below(r@, i as nat),
                p <= r.len(),
                p > 0 ==> key_le(key_at(keys@, first@, r@[p - 1] as int), key_at(keys@, first@, i as int)),
            decreases r.len() - p,
        {
            p = p + 1;
        }
        proof {
            if p < r.len() {
                lemma_key_le_total(key_at(keys@, first@, r@[p as int] as int), key_at(keys@, first@, i as int));
            }
        }
        let ghost old_r = r@;
        r.insert(p, i);
        proof {
            lemma_insert_position(old_r, p as int, i as int, keys@, first@);
        }
        i = i + 1;
    }
    r
}


/// Inserting position `i` at `p` of a sorted list of the positions below
/// `i`, where the keys before `p` do not exceed `i`'s and the key at `p`
/// does not come before it, gives a sorted list of the positions below
/// `i + 1`.
proof fn lemma_insert_position(old_r: Seq<usize>, p: int, i: int, keys: Seq<String>, first: Seq<bool>)
    requires
        0 <= i < keys.len(),
        keys.len() == first.len(),
        old_r.len() == i,
        0 <= p <= i,
        i + 1 <= usize::MAX,
        distinct_below(old_r, i as nat),
        covers(old_r, i as nat),
        sorted_by_keys(old_r, keys, first),
        p > 0 ==> key_le(key_at(keys, first, old_r[p - 1] as int), key_at(keys, first, i)),
        p < i ==> key_le(key_at(keys, first, i), key_at(keys, first, old_r[p] as int)),
    ensures
        distinct_below(old_r.insert(p, i as usize), (i + 1) as nat),
        covers(old_r.insert(p, i as usize), (i + 1) as nat),
        sorted_by_keys(old_r.insert(p, i as usize), keys, first),
{
    let r = old_r.insert(p, i as usize);
        assert forall|k: int| 0 <= k < r.len() - 1 implies key_le(
            #[trigger] key_at(keys, first, r[k] as int),
            key_at(keys, first, r[k + 1] as int),
        ) by {
            if k + 1 < p {
                assert(r[k] == old_r[k] && r[k + 1] == old_r[k + 1]);
            } else if k + 1 == p {
            } else if k == p {
            } else {
                assert(r[k] == old_r[k - 1] && r[k + 1] == old_r[k]);
            }
        }
        assert forall|j: int, k: int| 0 <= j < r.len() && 0 <= k < r.len() && j != k implies r[j] != r[k] by {
            if j != p && k != p {
                let jj = if j < p { j } else { j - 1 };
                let kk = if k < p { k } else { k - 1 };
                assert(r[j] == old_r[jj] && r[k] == old_r[kk]);
            } else if j == p {
                let kk = if k < p { k } else { k - 1 };
                assert(r[k] == old_r[kk]);
            } else {
                let jj = if j < p { j } else { j - 1 };
                assert(r[j] == old_r[jj]);
            }
        }
        assert forall|x: int| 0 <= x < i + 1 implies #[trigger] occurs(r, x) by {
            if x == i {
                assert(r[p as int] == x);
            } else {
                assert(occurs(old_r, x));
                let k = choose|k: int| 0 <= k < old_r.len() && old_r[k] == x;
                if k < p {
                    assert(r[k] == x);
                } else {
                    assert(r[k + 1] == x);
                }
            }
        }
        assert forall|k: int| 0 <= k < r.len() implies r[k] < i + 1 by {
            if k < p {
                assert(r[k] == old_r[k]);
            } else if k > p {
                assert(r[k] == old_r[k - 1]);
            }
        }
}

/// Whether the key at position `a` comes before the key at `b` or equals it.
fn key_le_exec(keys: &Vec<String>, first: &Vec<bool>, a: usize, b: usize) -> (r: bool)
    requires
        keys.len() == first.len(),
        a < keys.len(),
        b < keys.len(),
    ensures
        r == key_le(key_at(keys@, first@, a as int), key_at(keys@, first@, b as int)),
{
    if first[a] != first[b] {
        first[a]
    } else {
        text_le_exec(keys[a].as_str(), keys[b].as_str())
    }
}

} // verus!
