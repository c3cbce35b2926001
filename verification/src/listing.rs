//! Ordering and paging of what is listed to the caller.
//!
//! A list is ordered by a key that is taken from each entry: a number or a
//! text. Entries with keys that rank the same keep the order in which they
//! were given, in both directions.

use vstd::prelude::*;
use vstd::string::*;
use vstd::utf8::encode_utf8;

use crate::config::{bytes_at_most, bytes_le, lemma_bytes_le_total, lemma_bytes_le_transitive};

verus! {

/// What an entry is ranked by.
#[derive(Debug, Clone, PartialEq, Eq)]
pub enum SortKey {
    Number(i64),
    Text(String),
}

/// The mathematical content of a [`SortKey`].
pub enum SortKeyView {
    Number(i64),
    Text(Seq<char>),
}

impl View for SortKey {
    type V = SortKeyView;

    open spec fn view(&self) -> SortKeyView {
        match *self {
            SortKey::Number(n) => SortKeyView::Number(n),
            SortKey::Text(t) => SortKeyView::Text(t@),
        }
    }
}

/// The contents of a list of keys, element by element.
pub open spec fn key_views(keys: Seq<SortKey>) -> Seq<SortKeyView> {
    Seq::new(keys.len(), |i: int| keys[i]@)
}

/// `a` ranks no higher than `b`: numbers rank by size, texts by the order
/// of their UTF-8 encodings, and every number ranks below every text.
pub open spec fn key_le(a: SortKeyView, b: SortKeyView) -> bool {
    match (a, b) {
        (SortKeyView::Number(x), SortKeyView::Number(y)) => x <= y,
        (SortKeyView::Number(_), SortKeyView::Text(_)) => true,
        (SortKeyView::Text(_), SortKeyView::Number(_)) => false,
        (SortKeyView::Text(x), SortKeyView::Text(y)) => bytes_le(encode_utf8(x), encode_utf8(y)),
    }
}

/// The entry at index `a` comes before the entry at index `b`: its key
/// ranks lower, or higher where the order is descending; where the two
/// keys rank the same, the entry that was given first comes first.
pub open spec fn precedes(keys: Seq<SortKeyView>, ascending: bool, a: int, b: int) -> bool {
    let ab = key_le(keys[a], keys[b]);
    let ba = key_le(keys[b], keys[a]);
    if ab && ba {
        a < b
    } else if ascending {
        ab
    } else {
        ba
    }
}

/// `order` lists the indices of some of the keys, each at most once, in
/// the order in which their entries come.
pub open spec fn ordered(keys: Seq<SortKeyView>, ascending: bool, order: Seq<usize>) -> bool {
    &&& forall|i: int| 0 <= i < order.len() ==> (#[trigger] order[i]) < keys.len()
    &&& forall|i: int, j: int|
        0 <= i < j < order.len() ==> precedes(
            keys,
            ascending,
            (#[trigger] order[i]) as int,
            (#[trigger] order[j]) as int,
        )
}

/// `order` is the order of all the entries: it lists every index once.
pub open spec fn is_ordering(keys: Seq<SortKeyView>, ascending: bool, order: Seq<usize>) -> bool {
    &&& order.len() == keys.len()
    &&& ordered(keys, ascending, order)
}

/// Of two keys one ranks no higher than the other.
pub proof fn lemma_key_le_total(a: SortKeyView, b: SortKeyView)
    ensures
        key_le(a, b) || key_le(b, a),
{
    match (a, b) {
        (SortKeyView::Text(x), SortKeyView::Text(y)) => {
            lemma_bytes_le_total(encode_utf8(x), encode_utf8(y));
        },
        _ => {},
    }
}

/// The ranking of keys is transitive.
pub proof fn lemma_key_le_transitive(a: SortKeyView, b: SortKeyView, c: SortKeyView)
    requires
        key_le(a, b),
        key_le(b, c),
    ensures
        key_le(a, c),
{
    match (a, b, c) {
        (SortKeyView::Text(x), SortKeyView::Text(y), SortKeyView::Text(z)) => {
            lemma_bytes_le_transitive(encode_utf8(x), encode_utf8(y), encode_utf8(z));
        },
        _ => {},
    }
}

/// Of two different entries one comes before the other.
pub proof fn lemma_precedes_total(keys: Seq<SortKeyView>, ascending: bool, a: int, b: int)
    requires
        a != b,
    ensures
        precedes(keys, ascending, a, b) || precedes(keys, ascending, b, a),
{
    lemma_key_le_total(keys[a], keys[b]);
}

/// Coming before is transitive.
pub proof fn lemma_precedes_transitive(
    keys: Seq<SortKeyView>,
    ascending: bool,
    a: int,
    b: int,
    c: int,
)
    requires
        precedes(keys, ascending, a, b),
        precedes(keys, ascending, b, c),
    ensures
        precedes(keys, ascending, a, c),
{
    let (x, y, z) = (keys[a], keys[b], keys[c]);
    lemma_key_le_total(x, y);
    lemma_key_le_total(y, z);
    lemma_key_le_total(x, z);
    if key_le(x, y) && key_le(y, z) {
        lemma_key_le_transitive(x, y, z);
    }
    if key_le(z, y) && key_le(y, x) {
        lemma_key_le_transitive(z, y, x);
    }
    if key_le(y, z) && key_le(z, x) {
        lemma_key_le_transitive(y, z, x);
    }
    if key_le(z, x) && key_le(x, y) {
        lemma_key_le_transitive(z, x, y);
    }
    if key_le(x, z) && key_le(z, y) {
        lemma_key_le_transitive(x, z, y);
    }
    if key_le(y, x) && key_le(x, z) {
        lemma_key_le_transitive(y, x, z);
    }
}

/// Whether `a` ranks no higher than `b`.
pub fn key_at_most(a: &SortKey, b: &SortKey) -> (r: bool)
    ensures
        r == key_le(a@, b@),
{
    match (a, b) {
        (SortKey::Number(x), SortKey::Number(y)) => *x <= *y,
        (SortKey::Number(_), SortKey::Text(_)) => true,
        (SortKey::Text(_), SortKey::Number(_)) => false,
        (SortKey::Text(x), SortKey::Text(y)) => bytes_at_most(
            x.as_str().as_bytes(),
            y.as_str().as_bytes(),
        ),
    }
}

/// Whether the entry at index `a` comes before the entry at index `b`.
fn comes_before(keys: &Vec<SortKey>, ascending: bool, a: usize, b: usize) -> (r: bool)
    requires
        a < keys.len(),
        b < keys.len(),
    ensures
        r == precedes(key_views(keys@), ascending, a as int, b as int),
{
    let ab = key_at_most(&keys[a], &keys[b]);
    let ba = key_at_most(&keys[b], &keys[a]);
    if ab && ba {
        a < b
    } else if ascending {
        ab
    } else {
        ba
    }
}

/// The order of the entries with the keys `keys`: the indices of the
/// entries, each once, such that every entry comes before those behind
/// it.
pub fn sort_with_direction(keys: &Vec<SortKey>, ascending: bool) -> (order: Vec<usize>)
    ensures
        is_ordering(key_views(keys@), ascending, order@),
{
    let ghost ks = key_views(keys@);
    let mut order: Vec<usize> = Vec::new();
    let mut n: usize = 0;
    while n < keys.len()
        invariant
            n <= keys.len(),
            ks == key_views(keys@),
            order@.len() == n,
            ordered(ks, ascending, order@),
            forall|i: int| 0 <= i < order@.len() ==> (#[trigger] order@[i]) < n,
        decreases keys.len() - n,
    {
        let mut k: usize = 0;
        while k < order.len() && comes_before(keys, ascending, order[k], n)
            invariant
                k <= order.len(),
                n < keys.len(),
                ks == key_views(keys@),
                forall|i: int| 0 <= i < order@.len() ==> (#[trigger] order@[i]) < n,
                forall|i: int|
                    0 <= i < k ==> precedes(ks, ascending, (#[trigger] order@[i]) as int, n as int),
            decreases order.len() - k,
        {
            k += 1;
        }
        let ghost before = order@;
        order.insert(k, n);
        proof {
            assert forall|i: int, j: int| 0 <= i < j < order@.len() implies precedes(
                ks,
                ascending,
                (#[trigger] order@[i]) as int,
                (#[trigger] order@[j]) as int,
            ) by {
                let a = order@[i] as int;
                let b = order@[j] as int;
                if j == k {
                    assert(order@[i] == before[i]);
                } else if i == k {
                    assert(order@[j] == before[j - 1]);
                    // The entry found at the place of insertion does not come before
                    // the new one, so the new one comes before it and all behind it.
                    let at = before[k as int] as int;
                    assert(at < n);
                    lemma_precedes_total(ks, ascending, at, n as int);
                    if j - 1 > k {
                        assert(precedes(ks, ascending, before[k as int] as int, before[j - 1] as int));
                        lemma_precedes_transitive(ks, ascending, n as int, at, b);
                    }
                } else {
                    let i0 = if i < k {
                        i
                    } else {
                        i - 1
                    };
                    let j0 = if j < k {
                        j
                    } else {
                        j - 1
                    };
                    assert(order@[i] == before[i0]);
                    assert(order@[j] == before[j0]);
                }
            }
            assert forall|i: int| 0 <= i < order@.len() implies (#[trigger] order@[i]) < n + 1 by {
                if i < k {
                    assert(order@[i] == before[i]);
                } else if i > k {
                    assert(order@[i] == before[i - 1]);
                }
            }
        }
        n += 1;
    }
    order
}

/// The page of a list of `len` entries: the index of its first entry and
/// the index behind its last.
pub open spec fn page_of(len: nat, offset: usize, limit: usize) -> (int, int) {
    let from = if offset <= len {
        offset as int
    } else {
        len as int
    };
    let to = if limit <= len - from {
        from + limit
    } else {
        len as int
    };
    (from, to)
}

/// The bounds of the page of a list of `len` entries that skips the first
/// `offset` and holds at most `limit`.
pub fn page_bounds(len: usize, offset: usize, limit: usize) -> (r: (usize, usize))
    ensures
        r.0 <= r.1 <= len,
        (r.0 as int, r.1 as int) == page_of(len as nat, offset, limit),
{
    let from: usize = if offset <= len {
        offset
    } else {
        len
    };
    let to: usize = if limit <= len - from {
        from + limit
    } else {
        len
    };
    (from, to)
}

/// The strings of `v` in ascending order, each once.
pub open spec fn distinct_ascending(v: Seq<Seq<char>>) -> bool {
    forall|i: int, j: int|
        #![trigger v[i], v[j]]
        0 <= i < j < v.len() ==> crate::config::text_le(v[i], v[j]) && v[i] != v[j]
}

/// A list with one more entry holds what it held before, and that entry.
pub proof fn lemma_push_contains<A>(v: Seq<A>, x: A, s: A)
    ensures
        v.push(x).contains(s) <==> v.contains(s) || x == s,
{
    let w = v.push(x);
    if v.contains(s) {
        let i = choose|i: int| 0 <= i < v.len() && v[i] == s;
        assert(w[i] == s);
    }
    if x == s {
        assert(w[v.len() as int] == s);
    }
    if w.contains(s) {
        let i = choose|i: int| 0 <= i < w.len() && w[i] == s;
        if i < v.len() {
            assert(v[i] == s);
        }
    }
}

/// The different strings of `v` in ascending order.
pub fn sorted_distinct(v: &Vec<String>) -> (out: Vec<String>)
    ensures
        distinct_ascending(crate::text::views(out@)),
        forall|s: Seq<char>|
            crate::text::views(out@).contains(s) <==> crate::text::views(v@).contains(s),
{
    let sorted = crate::config::sorted_copy(v);
    let ghost all = crate::text::views(sorted@);
    let mut out: Vec<String> = Vec::new();
    let mut i: usize = 0;
    assert(all.take(0) =~= Seq::<Seq<char>>::empty());
    while i < sorted.len()
        invariant
            i <= sorted.len(),
            all == crate::text::views(sorted@),
            crate::config::ascending(all),
            distinct_ascending(crate::text::views(out@)),
            forall|s: Seq<char>|
                crate::text::views(out@).contains(s) <==> all.take(i as int).contains(s),
            out@.len() > 0 ==> i > 0 && out@[out@.len() - 1]@ == all[i - 1],
            out@.len() == 0 ==> i == 0,
        decreases sorted.len() - i,
    {
        let ghost before = crate::text::views(out@);
        let ghost kept = out@;
        let ghost upto = all.take(i as int);
        let ghost next = all.take(i + 1);
        let ghost x = all[i as int];
        let fresh = if out.len() == 0 {
            true
        } else {
            !crate::config::same_text(out[out.len() - 1].as_str(), sorted[i].as_str())
        };
        proof {
            assert(next =~= upto.push(x));
            assert(x == sorted@[i as int]@);
            assert forall|s: Seq<char>| next.contains(s) <==> upto.contains(s) || x == s by {
                lemma_push_contains(upto, x, s);
            }
        }
        if fresh {
            out.push(sorted[i].clone());
            proof {
                let now = crate::text::views(out@);
                assert(now =~= before.push(x));
                assert forall|s: Seq<char>| now.contains(s) <==> next.contains(s) by {
                    lemma_push_contains(before, x, s);
                }
                assert forall|a: int, b: int| 0 <= a < b < now.len() implies crate::config::text_le(
                    now[a],
                    now[b],
                ) && now[a] != now[b] by {
                    if b == now.len() - 1 {
                        // What was kept before lies among the first `i` strings, which
                        // come before the new one; the last kept is the last of them.
                        assert(now[b] == x);
                        assert(now[a] == before[a]);
                        assert(before.contains(before[a]));
                        assert(upto.contains(before[a]));
                        let w = choose|w: int| 0 <= w < upto.len() && upto[w] == before[a];
                        assert(all[w] == before[a]);
                        assert(crate::config::text_le(all[w], all[i as int]));
                        let last = before[before.len() - 1];
                        assert(last == kept[kept.len() - 1]@);
                        assert(last == all[i - 1]);
                        assert(last != x);
                        if before[a] == x {
                            if a < before.len() - 1 {
                                assert(crate::config::text_le(before[a], last));
                            }
                            assert(crate::config::text_le(all[i - 1], all[i as int]));
                            lemma_text_le_antisymmetric(last, x);
                        }
                    } else {
                        assert(now[a] == before[a]);
                        assert(now[b] == before[b]);
                        assert(crate::config::text_le(before[a], before[b]) && before[a]
                            != before[b]);
                    }
                }
            }
        } else {
            proof {
                let last = before[before.len() - 1];
                assert(last == x);
                assert(before.contains(last));
            }
        }
        i += 1;
    }
    proof {
        assert(all.take(all.len() as int) =~= all);
        assert forall|s: Seq<char>| all.contains(s) <==> crate::text::views(v@).contains(s) by {
            vstd::seq_lib::to_multiset_contains(all, s);
            vstd::seq_lib::to_multiset_contains(crate::text::views(v@), s);
        }
    }
    out
}

/// Two byte strings of which each comes before the other or is it are the
/// same.
pub proof fn lemma_bytes_le_antisymmetric(a: Seq<u8>, b: Seq<u8>)
    requires
        bytes_le(a, b),
        bytes_le(b, a),
    ensures
        a == b,
    decreases a.len(),
{
    if a.len() > 0 && b.len() > 0 {
        lemma_bytes_le_antisymmetric(a.drop_first(), b.drop_first());
        assert(a =~= seq![a[0]] + a.drop_first());
        assert(b =~= seq![b[0]] + b.drop_first());
    } else {
        assert(a =~= b);
    }
}

/// Two texts of which each comes before the other or is it are the same.
pub proof fn lemma_text_le_antisymmetric(a: Seq<char>, b: Seq<char>)
    requires
        crate::config::text_le(a, b),
        crate::config::text_le(b, a),
    ensures
        a == b,
{
    lemma_bytes_le_antisymmetric(encode_utf8(a), encode_utf8(b));
    vstd::utf8::encode_utf8_decode_utf8(a);
    vstd::utf8::encode_utf8_decode_utf8(b);
}

/// The sum of two sizes, kept within the numbers that a size can take.
pub open spec fn clamped_sum(a: i64, b: i64) -> i64 {
    if a + b > i64::MAX {
        i64::MAX
    } else if a + b < i64::MIN {
        i64::MIN
    } else {
        (a + b) as i64
    }
}

/// The sum of two sizes, kept within bounds.
pub fn add_sizes(a: i64, b: i64) -> (sum: i64)
    ensures
        sum == clamped_sum(a, b),
{
    if b > 0 && a > i64::MAX - b {
        i64::MAX
    } else if b < 0 && a < i64::MIN - b {
        i64::MIN
    } else {
        a + b
    }
}

} // verus!
