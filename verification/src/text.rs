//! Texts: what strings hold, how they are ordered, and how names are sorted
//! for display.

use vstd::prelude::*;

verus! {

/// The texts of a sequence of strings.
pub open spec fn texts(names: Seq<String>) -> Seq<Seq<char>> {
    names.map_values(|s: String| s@)
}

/// A text that is among those of the names stands at some index, which is
/// returned.
pub proof fn lemma_listed_has_index(names: Seq<String>, k: Seq<char>) -> (j: int)
    requires
        texts(names).to_set().contains(k),
    ensures
        0 <= j < names.len(),
        names[j]@ == k,
{
    let ts = texts(names);
    assert(ts.contains(k));
    choose|j: int| 0 <= j < ts.len() && ts[j] == k
}

/// The text at an index is among those of the names.
pub proof fn lemma_index_is_listed(names: Seq<String>, j: int)
    requires
        0 <= j < names.len(),
    ensures
        texts(names).to_set().contains(names[j]@),
{
    assert(texts(names)[j] == names[j]@);
}

/// The lowercase form of a text, as `str::to_lowercase` gives it.
pub uninterp spec fn lowercase(text: Seq<char>) -> Seq<char>;

/// The order of texts: position by position, by the characters' code points;
/// a text comes before every text that it begins.
pub open spec fn text_le(a: Seq<char>, b: Seq<char>) -> bool
    decreases a.len(),
{
    if a.len() == 0 {
        true
    } else if b.len() == 0 {
        false
    } else if a[0] == b[0] {
        text_le(a.skip(1), b.skip(1))
    } else {
        (a[0] as int) < (b[0] as int)
    }
}

/// The order in which names are displayed: by their lowercase forms.
pub open spec fn display_le(a: Seq<char>, b: Seq<char>) -> bool {
    text_le(lowercase(a), lowercase(b))
}

/// A sequence of names in display order.
pub open spec fn display_sorted(names: Seq<Seq<char>>) -> bool {
    forall|i: int, j: int| 0 <= i < j < names.len() ==> display_le(names[i], names[j])
}

/// Of two texts one comes before the other, or they are equal.
pub proof fn lemma_text_le_total(a: Seq<char>, b: Seq<char>)
    ensures
        text_le(a, b) || text_le(b, a),
    decreases a.len(),
{
    if a.len() != 0 && b.len() != 0 && a[0] == b[0] {
        lemma_text_le_total(a.skip(1), b.skip(1));
    }
}

/// The order of texts is transitive.
pub proof fn lemma_text_le_transitive(a: Seq<char>, b: Seq<char>, c: Seq<char>)
    requires
        text_le(a, b),
        text_le(b, c),
    ensures
        text_le(a, c),
    decreases a.len(),
{
    if a.len() != 0 && b.len() != 0 && c.len() != 0 && a[0] == b[0] && b[0] == c[0] {
        lemma_text_le_transitive(a.skip(1), b.skip(1), c.skip(1));
    }
}

/// Calls `str::to_lowercase`.
///
/// Trusted: the result is the lowercase form of the argument, which depends
/// on the argument's text alone.
#[verifier::external_body]
pub(crate) fn to_lowercase(s: &str) -> (out: String)
    ensures
        out@ == lowercase(s@),
{
    s.to_lowercase()
}

/// Compares two strings with `<=`.
///
/// Trusted: strings are ordered lexicographically by their bytes, which for
/// UTF-8 is the order of their code points, position by position.
#[verifier::external_body]
pub(crate) fn le(a: &str, b: &str) -> (out: bool)
    ensures
        out == text_le(a@, b@),
{
    a <= b
}

/// A sequence of `n` different indices below `n`: each index below `n`, once.
pub open spec fn is_arrangement(order: Seq<int>, n: int) -> bool {
    &&& order.len() == n
    &&& forall|p: int| 0 <= p < n ==> 0 <= #[trigger] order[p] < n
    &&& forall|p: int, q: int| 0 <= p < q < n ==> order[p] != order[q]
}

/// The items in the order that the indices give.
pub open spec fn arranged(items: Seq<Seq<char>>, order: Seq<int>) -> Seq<Seq<char>> {
    Seq::new(order.len(), |p: int| items[order[p]])
}

/// The indices put the keys in ascending order, and keys that are equal in
/// the order in which they were given.
pub open spec fn sorts(order: Seq<int>, keys: Seq<Seq<char>>) -> bool {
    &&& is_arrangement(order, keys.len() as int)
    &&& forall|a: int, b: int|
        0 <= a < b < order.len() ==> text_le(keys[#[trigger] order[a]], keys[#[trigger] order[b]])
    &&& forall|a: int, b: int|
        0 <= a < b < order.len() && text_le(keys[#[trigger] order[b]], keys[#[trigger] order[a]])
            ==> order[a] < order[b]
}

/// `out` holds the names, rearranged so that their keys ascend; names with
/// equal keys keep the order in which they were given.
pub open spec fn sorted_by_keys(
    names: Seq<Seq<char>>,
    keys: Seq<Seq<char>>,
    out: Seq<Seq<char>>,
) -> bool {
    exists|order: Seq<int>| #[trigger] sorts(order, keys) && out == arranged(names, order)
}

/// The lowercase forms of a sequence of texts.
pub open spec fn lowercased(names: Seq<Seq<char>>) -> Seq<Seq<char>> {
    names.map_values(|t: Seq<char>| lowercase(t))
}

/// Sorts names by keys, where `keys[i]` is the key of `names[i]`: ascending
/// by key, names with equal keys in the order in which they were given.
pub fn sort_by_keys(names: Vec<String>, keys: Vec<String>) -> (out: Vec<String>)
    requires
        names.len() == keys.len(),
    ensures
        sorted_by_keys(texts(names@), texts(keys@), texts(out@)),
        texts(out@).to_multiset() == texts(names@).to_multiset(),
{
    let mut out: Vec<String> = Vec::new();
    let mut lows: Vec<String> = Vec::new();
    let ghost mut order: Seq<int> = Seq::empty();
    let mut i: usize = 0;
    proof {
        assert(texts(out@) =~= texts(names@).take(0));
    }
    while i < names.len()
        invariant
            i <= names.len(),
            names.len() == keys.len(),
            out.len() == i,
            lows.len() == i,
            order.len() == i,
            forall|p: int| 0 <= p < i ==> 0 <= #[trigger] order[p] < i,
            forall|p: int, q: int| 0 <= p < q < i ==> order[p] != order[q],
            forall|p: int|
                0 <= p < i ==> (#[trigger] out[p])@ == names[order[p]]@ && lows[p]@
                    == keys[order[p]]@,
            forall|a: int, b: int| 0 <= a < b < i ==> text_le(lows[a]@, lows[b]@),
            forall|a: int, b: int|
                0 <= a < b < i && text_le(lows[b]@, lows[a]@) ==> #[trigger] order[a]
                    < #[trigger] order[b],
            texts(out@).to_multiset() == texts(names@).take(i as int).to_multiset(),
        decreases names.len() - i,
    {
        let name = names[i].clone();
        let low = keys[i].clone();
        let mut p: usize = 0;
        while p < lows.len() && le(lows[p].as_str(), low.as_str())
            invariant
                p <= lows.len(),
                forall|j: int| 0 <= j < p ==> text_le((#[trigger] lows[j])@, low@),
            decreases lows.len() - p,
        {
            p += 1;
        }
        proof {
            assert forall|j: int| p <= j < lows.len() implies !text_le(
                (#[trigger] lows[j])@,
                low@,
            ) && text_le(low@, lows[j]@) by {
                if text_le(lows[j]@, low@) && p < j {
                    lemma_text_le_transitive(lows[p as int]@, lows[j]@, low@);
                }
                lemma_text_le_total(lows[j]@, low@);
            }
        }
        let ghost old_out = out@;
        let ghost old_lows = lows@;
        let ghost old_order = order;
        out.insert(p, name);
        lows.insert(p, low);
        proof {
            let n = p as int;
            order = old_order.insert(n, i as int);
            assert forall|j: int| 0 <= j < lows.len() implies {
                let b = if j < n { j } else { j - 1 };
                if j == n {
                    #[trigger] order[j] == i && lows[j]@ == keys[i as int]@ && out[j]@
                        == names[i as int]@
                } else {
                    order[j] == old_order[b] && lows[j] == old_lows[b] && out[j] == old_out[b]
                }
            } by {}
            assert forall|q: int| 0 <= q < lows.len() implies 0 <= #[trigger] order[q] < i + 1 by {
                let b = if q < n { q } else { q - 1 };
                if q != n {
                    assert(order[q] == old_order[b]);
                }
            }
            assert forall|a: int, b: int| 0 <= a < b < lows.len() implies order[a] != order[b]
                && text_le(lows[a]@, lows[b]@) && (text_le(lows[b]@, lows[a]@) ==> order[a]
                < order[b]) by {
                let x = if a < n { a } else { a - 1 };
                let y = if b < n { b } else { b - 1 };
                if a != n {
                    assert(order[a] == old_order[x] && lows[a] == old_lows[x]);
                    assert(0 <= old_order[x] < i);
                }
                if b != n {
                    assert(order[b] == old_order[y] && lows[b] == old_lows[y]);
                    assert(0 <= old_order[y] < i);
                }
            }
            assert forall|q: int| 0 <= q < lows.len() implies (#[trigger] out[q])@
                == names[order[q]]@ && lows[q]@ == keys[order[q]]@ by {
                let b = if q < n { q } else { q - 1 };
                if q != n {
                    assert(order[q] == old_order[b] && lows[q] == old_lows[b] && out[q]
                        == old_out[b]);
                }
            }
            let before = texts(names@).take(i as int);
            let after = texts(names@).take(i as int + 1);
            assert(after =~= before.push(names[i as int]@));
            assert(texts(out@) =~= texts(old_out).insert(n, names[i as int]@));
            vstd::seq_lib::to_multiset_insert(texts(old_out), n, names[i as int]@);
            vstd::seq_lib::to_multiset_build(before, names[i as int]@);
        }
        i += 1;
    }
    proof {
        assert(texts(names@).take(i as int) =~= texts(names@));
        let ks = texts(keys@);
        assert forall|a: int, b: int| 0 <= a < b < order.len() implies text_le(
            ks[#[trigger] order[a]],
            ks[#[trigger] order[b]],
        ) && (text_le(ks[order[b]], ks[order[a]]) ==> order[a] < order[b]) by {
            assert(out[a]@ == names[order[a]]@ && lows[a]@ == keys[order[a]]@);
            assert(out[b]@ == names[order[b]]@ && lows[b]@ == keys[order[b]]@);
        }
        assert(sorts(order, ks));
        assert(texts(out@) =~= arranged(texts(names@), order));
    }
    out
}

/// Sorts names for display: ascending by their lowercase forms, names with
/// equal lowercase forms in the order in which they were given.
pub fn sort_names(names: Vec<String>) -> (out: Vec<String>)
    ensures
        sorted_by_keys(texts(names@), lowercased(texts(names@)), texts(out@)),
        texts(out@).to_multiset() == texts(names@).to_multiset(),
        display_sorted(texts(out@)),
{
    let mut keys: Vec<String> = Vec::new();
    let mut i: usize = 0;
    while i < names.len()
        invariant
            i <= names.len(),
            keys.len() == i,
            forall|j: int| 0 <= j < i ==> (#[trigger] keys[j])@ == lowercase(names[j]@),
        decreases names.len() - i,
    {
        keys.push(to_lowercase(names[i].as_str()));
        i += 1;
    }
    proof {
        assert(texts(keys@) =~= lowercased(texts(names@)));
    }
    let ghost given = texts(names@);
    let ghost lowered = texts(keys@);
    let out = sort_by_keys(names, keys);
    proof {
        assert(sorted_by_keys(given, lowered, texts(out@)));
        assert(lowered == lowercased(given));
        let order = choose|order: Seq<int>| #[trigger]
            sorts(order, lowered) && texts(out@) == arranged(given, order);
        assert(sorts(order, lowered) && texts(out@) == arranged(given, order));
        assert(arranged(given, order).len() == order.len());
        assert forall|a: int, b: int| 0 <= a < b < out.len() implies display_le(
            texts(out@)[a],
            texts(out@)[b],
        ) by {
            assert(arranged(given, order)[a] == given[order[a]]);
            assert(arranged(given, order)[b] == given[order[b]]);
            assert(lowercased(given)[order[a]] == lowercase(given[order[a]]));
            assert(lowercased(given)[order[b]] == lowercase(given[order[b]]));
        }
    }
    out
}

} // verus!
