//! Order of texts and sorting by it.

use crate::text::{chars_of, texts_of};
use vstd::prelude::*;
use vstd::relations::sorted_by;
use vstd::seq_lib::{to_multiset_build, to_multiset_insert};

verus! {

/// `a` comes before `b` or equals it, in the lexicographic order of their
/// characters by code point.  This is the order of `str`.
pub open spec fn text_le(a: Seq<char>, b: Seq<char>) -> bool
    decreases a.len(),
{
    if a.len() == 0 {
        true
    } else if b.len() == 0 {
        false
    } else if a[0] != b[0] {
        (a[0] as u32) < (b[0] as u32)
    } else {
        text_le(a.skip(1), b.skip(1))
    }
}

/// The order of texts as a relation.
pub open spec fn by_text() -> spec_fn(Seq<char>, Seq<char>) -> bool {
    |a: Seq<char>, b: Seq<char>| text_le(a, b)
}

/// `b` comes before `a` or equals it.
pub open spec fn by_text_down() -> spec_fn(Seq<char>, Seq<char>) -> bool {
    |a: Seq<char>, b: Seq<char>| text_le(b, a)
}

/// Of two texts, one comes before the other or equals it.
pub proof fn lemma_text_le_total(a: Seq<char>, b: Seq<char>)
    ensures
        text_le(a, b) || text_le(b, a),
    decreases a.len(),
{
    if a.len() > 0 && b.len() > 0 {
        if a[0] == b[0] {
            lemma_text_le_total(a.skip(1), b.skip(1));
        } else {
            vstd::utf8::char_u32_cast(a[0], a[0] as u32);
            vstd::utf8::char_u32_cast(b[0], b[0] as u32);
        }
    }
}

/// The order of texts is transitive.
pub proof fn lemma_text_le_transitive(a: Seq<char>, b: Seq<char>, c: Seq<char>)
    requires
        text_le(a, b),
        text_le(b, c),
    ensures
        text_le(a, c),
    decreases a.len(),
{
    if a.len() > 0 && b.len() > 0 && c.len() > 0 && a[0] == b[0] && b[0] == c[0] {
        lemma_text_le_transitive(a.skip(1), b.skip(1), c.skip(1));
    }
}

/// Two texts that come before each other are equal.
pub proof fn lemma_text_le_antisymmetric(a: Seq<char>, b: Seq<char>)
    requires
        text_le(a, b),
        text_le(b, a),
    ensures
        a == b,
    decreases a.len(),
{
    if a.len() > 0 && b.len() > 0 {
        lemma_text_le_antisymmetric(a.skip(1), b.skip(1));
        assert(a =~= seq![a[0]] + a.skip(1));
        assert(b =~= seq![b[0]] + b.skip(1));
    } else {
        assert(a =~= b);
    }
}

/// The order of texts is a total order.
pub proof fn lemma_text_order_is_total()
    ensures
        vstd::relations::total_ordering(by_text()),
{
    let le = by_text();
    assert forall|x: Seq<char>| #[trigger] le(x, x) by {
        lemma_text_le_total(x, x);
    }
    assert forall|x: Seq<char>, y: Seq<char>| #[trigger] le(x, y) && #[trigger] le(y, x) implies x
        == y by {
        lemma_text_le_antisymmetric(x, y);
    }
    assert forall|x: Seq<char>, y: Seq<char>, z: Seq<char>| #[trigger] le(x, y) && #[trigger] le(
        y,
        z,
    ) implies le(x, z) by {
        lemma_text_le_transitive(x, y, z);
    }
    assert forall|x: Seq<char>, y: Seq<char>| #[trigger] le(x, y) || #[trigger] le(y, x) by {
        lemma_text_le_total(x, y);
    }
}

/// Whether `a` comes before `b` or equals it.
pub fn text_before_or_equal(a: &Vec<char>, b: &Vec<char>) -> (r: bool)
    ensures
        r == text_le(a@, b@),
{
    let mut i: usize = 0;
    assert(a@.skip(0) == a@ && b@.skip(0) == b@);
    while i < a.len() && i < b.len() && a[i] == b[i]
        invariant
            i <= a.len(),
            i <= b.len(),
            text_le(a@, b@) == text_le(a@.skip(i as int), b@.skip(i as int)),
        decreases a.len() - i,
    {
        assert(a@.skip(i as int).skip(1) == a@.skip(i + 1));
        assert(b@.skip(i as int).skip(1) == b@.skip(i + 1));
        i += 1;
    }
    if i >= a.len() {
        true
    } else if i >= b.len() {
        false
    } else {
        let x: u32 = a[i] as u32;
        let y: u32 = b[i] as u32;
        x < y
    }
}

/// The texts in ascending order.
pub fn sort_texts(v: &Vec<String>) -> (r: Vec<String>)
    ensures
        sorted_by(texts_of(r@), by_text()),
        texts_of(r@).to_multiset() == texts_of(v@).to_multiset(),
        texts_of(r@) == texts_of(v@).sort_by(by_text()),
{
    let mut out: Vec<String> = Vec::new();
    let mut i: usize = 0;
    proof {
        assert(texts_of(out@) =~= texts_of(v@).take(0));
    }
    while i < v.len()
        invariant
            i <= v.len(),
            sorted_by(texts_of(out@), by_text()),
            texts_of(out@).to_multiset() == texts_of(v@).take(i as int).to_multiset(),
        decreases v.len() - i,
    {
        let x = v[i].clone();
        let key = chars_of(x.as_str());
        let mut j: usize = 0;
        while j < out.len() && text_before_or_equal(&chars_of(out[j].as_str()), &key)
            invariant
                j <= out.len(),
                key@ == x@,
                forall|k: int| 0 <= k < j ==> text_le(#[trigger] texts_of(out@)[k], x@),
            decreases out.len() - j,
        {
            j += 1;
        }
        let ghost before = texts_of(out@);
        out.insert(j, x);
        proof {
            let after = texts_of(out@);
            assert(after =~= before.insert(j as int, x@));
            to_multiset_insert(before, j as int, x@);
            assert(texts_of(v@).take(i + 1) =~= texts_of(v@).take(i as int).push(x@));
            to_multiset_build(texts_of(v@).take(i as int), x@);
            assert forall|p: int, q: int| 0 <= p < q < after.len() implies text_le(
                after[p],
                after[q],
            ) by {
                if q < j {
                    assert(after[p] == before[p] && after[q] == before[q]);
                    assert(by_text()(before[p], before[q]));
                } else if q == j {
                    assert(after[p] == before[p]);
                } else if p == j {
                    assert(after[q] == before[q - 1]);
                    lemma_text_le_total(before[j as int], x@);
                    if q - 1 > j {
                        assert(by_text()(before[j as int], before[q - 1]));
                        lemma_text_le_transitive(x@, before[j as int], before[q - 1]);
                    }
                } else if p < j {
                    assert(after[p] == before[p] && after[q] == before[q - 1]);
                    assert(by_text()(before[p], before[q - 1]));
                } else {
                    assert(after[p] == before[p - 1] && after[q] == before[q - 1]);
                    assert(by_text()(before[p - 1], before[q - 1]));
                }
            }
        }
        i += 1;
    }
    proof {
        assert(texts_of(v@).take(v@.len() as int) == texts_of(v@));
        lemma_text_order_is_total();
        texts_of(v@).lemma_sort_by_ensures(by_text());
        vstd::seq_lib::lemma_sorted_unique(
            texts_of(out@),
            texts_of(v@).sort_by(by_text()),
            by_text(),
        );
    }
    out
}

/// The texts in the opposite order.
pub fn reverse_texts(v: &Vec<String>) -> (r: Vec<String>)
    ensures
        texts_of(r@) == texts_of(v@).reverse(),
{
    let mut out: Vec<String> = Vec::new();
    let mut i: usize = v.len();
    while i > 0
        invariant
            i <= v.len(),
            out.len() == v.len() - i,
            forall|k: int| 0 <= k < out.len() ==> out[k]@ == v[v.len() - 1 - k]@,
        decreases i,
    {
        i -= 1;
        out.push(v[i].clone());
    }
    assert(texts_of(out@) =~= texts_of(v@).reverse());
    out
}

/// The texts in descending order.
pub fn sort_texts_descending(v: &Vec<String>) -> (r: Vec<String>)
    ensures
        sorted_by(texts_of(r@), by_text_down()),
        texts_of(r@).to_multiset() == texts_of(v@).to_multiset(),
{
    let up = sort_texts(v);
    let down = reverse_texts(&up);
    proof {
        let a = texts_of(up@);
        let d = texts_of(down@);
        assert forall|p: int, q: int| 0 <= p < q < d.len() implies by_text_down()(d[p], d[q]) by {
            assert(d[p] == a[a.len() - 1 - p]);
            assert(d[q] == a[a.len() - 1 - q]);
            assert(by_text()(a[a.len() - 1 - q], a[a.len() - 1 - p]));
        }
        a.lemma_reverse_to_multiset();
    }
    down
}

} // verus!
