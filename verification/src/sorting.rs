//! Stable ordering of records by a text key, in the order of character
//! codes.
use vstd::prelude::*;
use crate::library::spec_chars_le;
use crate::text::spec_lowercase;

verus! {

/// The character sequences of a list of character vectors.
pub open spec fn spec_char_vecs(v: Seq<Vec<char>>) -> Seq<Seq<char>> {
    v.map_values(|k: Vec<char>| k@)
}

/// The lowercase forms of a list of texts, used as sort keys.
pub open spec fn spec_lowercase_keys(v: Seq<Seq<char>>) -> Seq<Seq<char>> {
    v.map_values(|n: Seq<char>| spec_lowercase(n))
}

/// Whether `a` comes strictly before `b` by character codes.
pub open spec fn spec_text_lt(a: Seq<char>, b: Seq<char>) -> bool {
    spec_chars_le(a, b) && a != b
}

/// Whether record `a` comes before record `b` when ordered by their keys:
/// a smaller key first, records with equal keys in their original order.
pub open spec fn spec_key_before(keys: Seq<Seq<char>>, a: usize, b: usize) -> bool {
    spec_text_lt(keys[a as int], keys[b as int]) || (keys[a as int] == keys[b as int] && a < b)
}

/// Whether `order` lists every record index once, ordered by key with ties
/// in original order (a stable sort by key).
pub open spec fn spec_is_key_order(keys: Seq<Seq<char>>, order: Seq<usize>) -> bool {
    &&& order.len() == keys.len()
    &&& forall|k: int| 0 <= k < order.len() ==> (#[trigger] order[k] as int) < keys.len()
    &&& forall|i: int, j: int|
        0 <= i < j < order.len() ==> spec_key_before(keys, #[trigger] order[i], #[trigger] order[j])
    &&& forall|c: usize| (c as int) < keys.len() ==> order.contains(c)
}

/// Any two texts are ordered one way or the other.
pub proof fn lemma_chars_le_total(a: Seq<char>, b: Seq<char>)
    ensures
        spec_chars_le(a, b) || spec_chars_le(b, a),
    decreases a.len(),
{
    if a.len() > 0 && b.len() > 0 && a[0] == b[0] {
        lemma_chars_le_total(a.subrange(1, a.len() as int), b.subrange(1, b.len() as int));
    }
}

/// Texts ordered both ways are equal.
pub proof fn lemma_chars_le_antisymmetric(a: Seq<char>, b: Seq<char>)
    requires
        spec_chars_le(a, b),
        spec_chars_le(b, a),
    ensures
        a == b,
    decreases a.len(),
{
    if a.len() > 0 && b.len() > 0 {
        let ta = a.subrange(1, a.len() as int);
        let tb = b.subrange(1, b.len() as int);
        lemma_chars_le_antisymmetric(ta, tb);
        assert(a =~= seq![a[0]] + ta);
        assert(b =~= seq![b[0]] + tb);
    }
}

/// The order of texts is transitive.
pub proof fn lemma_chars_le_transitive(a: Seq<char>, b: Seq<char>, c: Seq<char>)
    requires
        spec_chars_le(a, b),
        spec_chars_le(b, c),
    ensures
        spec_chars_le(a, c),
    decreases a.len(),
{
    if a.len() > 0 && b.len() > 0 && c.len() > 0 && a[0] == b[0] && b[0] == c[0] {
        lemma_chars_le_transitive(
            a.subrange(1, a.len() as int),
            b.subrange(1, b.len() as int),
            c.subrange(1, c.len() as int),
        );
    }
}

/// Of two distinct records, exactly one comes first.
proof fn lemma_key_before_asymmetric(keys: Seq<Seq<char>>, x: usize, y: usize)
    requires
        (x as int) < keys.len(),
        (y as int) < keys.len(),
        spec_key_before(keys, x, y),
    ensures
        !spec_key_before(keys, y, x),
        x != y,
{
    if spec_text_lt(keys[y as int], keys[x as int]) && spec_text_lt(keys[x as int], keys[y as int]) {
        lemma_chars_le_antisymmetric(keys[x as int], keys[y as int]);
    }
}

/// Positions before `k` hold the same record in two key orders.
proof fn lemma_key_orders_agree_below(keys: Seq<Seq<char>>, o1: Seq<usize>, o2: Seq<usize>, k: int)
    requires
        spec_is_key_order(keys, o1),
        spec_is_key_order(keys, o2),
        0 <= k <= o1.len(),
    ensures
        forall|i: int| 0 <= i < k ==> o1[i] == o2[i],
    decreases k,
{
    if k > 0 {
        lemma_key_orders_agree_below(keys, o1, o2, k - 1);
        let t = k - 1;
        let x = o1[t];
        let y = o2[t];
        if x != y {
            assert(o2.contains(x));
            let m = choose|m: int| 0 <= m < o2.len() && o2[m] == x;
            assert(o1.contains(y));
            let j = choose|j: int| 0 <= j < o1.len() && o1[j] == y;
            if m < t {
                assert(o1[m] == x);
                assert(spec_key_before(keys, o1[m], o1[t]));
                lemma_key_before_asymmetric(keys, o1[m], o1[t]);
            }
            if j < t {
                assert(o2[j] == y);
                assert(spec_key_before(keys, o2[j], o2[t]));
                lemma_key_before_asymmetric(keys, o2[j], o2[t]);
            }
            assert(m > t && j > t);
            assert(spec_key_before(keys, o2[t], o2[m]));
            assert(spec_key_before(keys, o1[t], o1[j]));
            lemma_key_before_asymmetric(keys, x, y);
        }
    }
}

/// The stable order by key is unique: two orders that both satisfy
/// `spec_is_key_order` for the same keys are equal.
pub proof fn lemma_key_order_unique(keys: Seq<Seq<char>>, o1: Seq<usize>, o2: Seq<usize>)
    requires
        spec_is_key_order(keys, o1),
        spec_is_key_order(keys, o2),
    ensures
        o1 == o2,
{
    lemma_key_orders_agree_below(keys, o1, o2, o1.len() as int);
    assert(o1 =~= o2);
}

/// Whether `a` comes at or before `b` by character codes.
pub fn chars_le(a: &[char], b: &[char]) -> (r: bool)
    ensures
        r == spec_chars_le(a@, b@),
{
    let mut i: usize = 0;
    assert(a@.subrange(0, a@.len() as int) =~= a@);
    assert(b@.subrange(0, b@.len() as int) =~= b@);
    while i < a.len() && i < b.len() && a[i] == b[i]
        invariant
            i <= a@.len(),
            i <= b@.len(),
            spec_chars_le(a@, b@) == spec_chars_le(
                a@.subrange(i as int, a@.len() as int),
                b@.subrange(i as int, b@.len() as int),
            ),
        decreases a@.len() - i,
    {
        proof {
            let sa = a@.subrange(i as int, a@.len() as int);
            let sb = b@.subrange(i as int, b@.len() as int);
            assert(sa.subrange(1, sa.len() as int) =~= a@.subrange(i + 1, a@.len() as int));
            assert(sb.subrange(1, sb.len() as int) =~= b@.subrange(i + 1, b@.len() as int));
        }
        i = i + 1;
    }
    if i == a.len() {
        true
    } else if i == b.len() {
        false
    } else {
        a[i] < b[i]
    }
}

/// The stable order of records by key (see `spec_is_key_order`).
pub fn key_order(keys: &Vec<Vec<char>>) -> (r: Vec<usize>)
    ensures
        spec_is_key_order(spec_char_vecs(keys@), r@),
{
    let ghost ks = spec_char_vecs(keys@);
    let n = keys.len();
    let mut out: Vec<usize> = Vec::new();
    let mut i: usize = 0;
    while i < n
        invariant
            n == keys@.len(),
            ks == spec_char_vecs(keys@),
            ks.len() == n,
            i <= n,
            out@.len() == i,
            forall|k: int| 0 <= k < out@.len() ==> (#[trigger] out@[k] as int) < i,
            forall|a: int, b: int|
                0 <= a < b < out@.len() ==> spec_key_before(ks, #[trigger] out@[a], #[trigger] out@[b]),
            forall|c: usize| (c as int) < i ==> out@.contains(c),
        decreases n - i,
    {
        let key = &keys[i];
        assert(ks[i as int] == key@);
        let mut p: usize = 0;
        while p < out.len() && chars_le(keys[out[p]].as_slice(), key.as_slice())
            invariant
                p <= out@.len(),
                n == keys@.len(),
                ks == spec_char_vecs(keys@),
                ks.len() == n,
                forall|k: int| 0 <= k < out@.len() ==> (#[trigger] out@[k] as int) < i,
                i < n,
                key@ == ks[i as int],
                forall|k: int| 0 <= k < p ==> spec_chars_le(ks[#[trigger] out@[k] as int], key@),
            decreases out@.len() - p,
        {
            assert(ks[out@[p as int] as int] == keys@[out@[p as int] as int]@);
            p = p + 1;
        }
        let ghost old_out = out@;
        proof {
            if p < old_out.len() {
                let q = old_out[p as int] as int;
                assert(ks[q] == keys@[q]@);
                assert(!spec_chars_le(ks[q], key@));
                lemma_chars_le_total(ks[q], key@);
            }
            assert forall|k: int| p <= k < old_out.len() implies spec_text_lt(
                key@,
                ks[#[trigger] old_out[k] as int],
            ) by {
                let q = old_out[p as int] as int;
                if k > p {
                    assert(spec_key_before(ks, old_out[p as int], old_out[k]));
                    let r = old_out[k] as int;
                    if spec_text_lt(ks[q], ks[r]) {
                        lemma_chars_le_transitive(key@, ks[q], ks[r]);
                        if key@ == ks[r] {
                            lemma_chars_le_antisymmetric(key@, ks[q]);
                        }
                    }
                }
            }
        }
        out.insert(p, i);
        proof {
            assert(out@ == old_out.subrange(0, p as int).push(i).add(
                old_out.subrange(p as int, old_out.len() as int),
            ));
            assert forall|k: int| 0 <= k < out@.len() implies (#[trigger] out@[k] as int) < i + 1 by {
                if k < p {
                    assert(out@[k] == old_out[k]);
                } else if k > p {
                    assert(out@[k] == old_out[k - 1]);
                }
            }
            assert forall|a: int, b: int|
                0 <= a < b < out@.len() implies spec_key_before(
                ks,
                #[trigger] out@[a],
                #[trigger] out@[b],
            ) by {
                if b < p {
                    assert(out@[a] == old_out[a] && out@[b] == old_out[b]);
                } else if b == p {
                    assert(out@[a] == old_out[a]);
                    assert(spec_chars_le(ks[old_out[a] as int], key@));
                } else if a < p {
                    assert(out@[a] == old_out[a] && out@[b] == old_out[b - 1]);
                } else if a == p {
                    assert(out@[b] == old_out[b - 1]);
                } else {
                    assert(out@[a] == old_out[a - 1] && out@[b] == old_out[b - 1]);
                }
            }
            assert forall|c: usize| (c as int) < i + 1 implies out@.contains(c) by {
                if (c as int) == i {
                    assert(out@[p as int] == c);
                } else {
                    assert(old_out.contains(c));
                    let k = choose|k: int| 0 <= k < old_out.len() && old_out[k] == c;
                    if k < p {
                        assert(out@[k] == c);
                    } else {
                        assert(out@[k + 1] == c);
                    }
                }
            }
        }
        i = i + 1;
    }
    out
}

} // verus!
