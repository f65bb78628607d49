//! Ordering records by their label, as `str`'s `Ord` orders text.

use vstd::prelude::*;
use crate::text::chars_of;

verus! {

/// `a` comes no later than `b` in lexicographic order by character code,
/// which is the order of `str` (UTF-8 keeps code point order).
pub open spec fn text_le(a: Seq<char>, b: Seq<char>) -> bool
    decreases a.len(),
{
    if a.len() == 0 {
        true
    } else if b.len() == 0 {
        false
    } else if (a[0] as u32) < (b[0] as u32) {
        true
    } else if (a[0] as u32) > (b[0] as u32) {
        false
    } else {
        text_le(a.drop_first(), b.drop_first())
    }
}

/// Any two texts are ordered one way or the other.
pub proof fn lemma_text_le_total(a: Seq<char>, b: Seq<char>)
    ensures
        text_le(a, b) || text_le(b, a),
    decreases a.len(),
{
    if a.len() > 0 && b.len() > 0 && a[0] as u32 == b[0] as u32 {
        lemma_text_le_total(a.drop_first(), b.drop_first());
    }
}

/// The order is transitive.
pub proof fn lemma_text_le_transitive(a: Seq<char>, b: Seq<char>, c: Seq<char>)
    requires
        text_le(a, b),
        text_le(b, c),
    ensures
        text_le(a, c),
    decreases a.len(),
{
    if a.len() > 0 && b.len() > 0 && c.len() > 0 && a[0] as u32 == b[0] as u32 && b[0] as u32
        == c[0] as u32 {
        lemma_text_le_transitive(a.drop_first(), b.drop_first(), c.drop_first());
    }
}

/// Whether `a` comes no later than `b`.
pub fn text_le_exec(a: &str, b: &str) -> (r: bool)
    ensures
        r == text_le(a@, b@),
{
    let x = chars_of(a);
    let y = chars_of(b);
    let mut i: usize = 0;
    assert(x@.skip(0) =~= x@);
    assert(y@.skip(0) =~= y@);
    while i < x.len() && i < y.len() && (x[i] as u32) == (y[i] as u32)
        invariant
            0 <= i <= x.len(),
            i <= y.len(),
            text_le(x@, y@) == text_le(x@.skip(i as int), y@.skip(i as int)),
        decreases x.len() - i,
    {
        assert(x@.skip(i as int).drop_first() =~= x@.skip(i + 1));
        assert(y@.skip(i as int).drop_first() =~= y@.skip(i + 1));
        i = i + 1;
    }
    if i == x.len() {
        true
    } else if i == y.len() {
        false
    } else {
        (x[i] as u32) < (y[i] as u32)
    }
}

/// A record ordered by a text label.
pub trait Labelled {
    spec fn spec_label(&self) -> Seq<char>;

    fn label_text(&self) -> (l: &str)
        ensures
            l@ == self.spec_label(),
    ;
}

/// `s` is ordered by label.
pub open spec fn sorted_by_label<T: Labelled>(s: Seq<T>) -> bool {
    forall|i: int, j: int|
        0 <= i < j < s.len() ==> text_le(#[trigger] s[i].spec_label(), #[trigger] s[j].spec_label())
}

/// The same records as `v`, ordered by label; records with equal labels may
/// come in any order.
pub fn sort_by_label<T: Labelled>(v: Vec<T>) -> (out: Vec<T>)
    ensures
        out@.to_multiset() == v@.to_multiset(),
        sorted_by_label(out@),
{
    broadcast use vstd::seq_lib::group_to_multiset_ensures;

    let ghost orig = v@;
    let mut rest = v;
    let mut out: Vec<T> = Vec::new();
    while rest.len() > 0
        invariant
            out@.to_multiset().add(rest@.to_multiset()) == orig.to_multiset(),
            sorted_by_label(out@),
        decreases rest.len(),
    {
        let ghost before = rest@;
        let x = rest.pop().unwrap();
        assert(before =~= rest@.push(x));
        proof {
            vstd::seq_lib::to_multiset_build(rest@, x);
        }
        let mut pos: usize = 0;
        while pos < out.len() && !text_le_exec(x.label_text(), out[pos].label_text())
            invariant
                0 <= pos <= out.len(),
                forall|k: int|
                    0 <= k < pos ==> !text_le(x.spec_label(), #[trigger] out@[k].spec_label()),
            decreases out.len() - pos,
        {
            pos = pos + 1;
        }
        let ghost old_out = out@;
        proof {
            assert forall|k: int| 0 <= k < pos implies text_le(
                #[trigger] old_out[k].spec_label(),
                x.spec_label(),
            ) by {
                lemma_text_le_total(x.spec_label(), old_out[k].spec_label());
            }
            assert forall|k: int| pos <= k < old_out.len() implies text_le(
                x.spec_label(),
                #[trigger] old_out[k].spec_label(),
            ) by {
                if k > pos {
                    assert(text_le(old_out[pos as int].spec_label(), old_out[k].spec_label()));
                    lemma_text_le_transitive(
                        x.spec_label(),
                        old_out[pos as int].spec_label(),
                        old_out[k].spec_label(),
                    );
                }
            }
        }
        out.insert(pos, x);
        proof {
            let n = out@;
            assert(n == old_out.insert(pos as int, x));
            assert forall|i: int, j: int| 0 <= i < j < n.len() implies text_le(
                #[trigger] n[i].spec_label(),
                #[trigger] n[j].spec_label(),
            ) by {
                if j < pos {
                    assert(n[i] == old_out[i] && n[j] == old_out[j]);
                } else if j == pos {
                    assert(n[i] == old_out[i]);
                } else if i < pos {
                    assert(n[i] == old_out[i] && n[j] == old_out[j - 1]);
                    assert(text_le(old_out[i].spec_label(), x.spec_label()));
                    assert(text_le(x.spec_label(), old_out[j - 1].spec_label()));
                    lemma_text_le_transitive(
                        old_out[i].spec_label(),
                        x.spec_label(),
                        old_out[j - 1].spec_label(),
                    );
                } else if i == pos {
                    assert(n[j] == old_out[j - 1]);
                } else {
                    assert(n[i] == old_out[i - 1] && n[j] == old_out[j - 1]);
                }
            }
            vstd::seq_lib::to_multiset_insert(old_out, pos as int, x);
            broadcast use vstd::multiset::group_multiset_axioms;
            assert(out@.to_multiset().add(rest@.to_multiset()) =~= orig.to_multiset());
        }
    }
    out
}

/// What a reordering of records with distinct keys keeps: the same number of
/// records, each of `src` exactly once.
pub proof fn lemma_reordering<T>(out: Seq<T>, src: Seq<T>, key: spec_fn(T) -> u128)
    requires
        out.to_multiset() == src.to_multiset(),
        forall|i: int, j: int| 0 <= i < j < src.len() ==> key(src[i]) != key(src[j]),
    ensures
        out.len() == src.len(),
        forall|i: int| 0 <= i < out.len() ==> src.contains(#[trigger] out[i]),
        forall|k: int| 0 <= k < src.len() ==> out.contains(#[trigger] src[k]),
        forall|i: int, j: int| 0 <= i < j < out.len() ==> key(out[i]) != key(out[j]),
{
    broadcast use vstd::seq_lib::to_multiset_contains, vstd::seq_lib::to_multiset_len;

    assert(src.no_duplicates()) by {
        assert forall|i: int, j: int| 0 <= i < src.len() && 0 <= j < src.len() && i != j implies src[i]
            != src[j] by {
            if i < j {
                assert(key(src[i]) != key(src[j]));
            } else {
                assert(key(src[j]) != key(src[i]));
            }
        }
    }
    src.lemma_multiset_has_no_duplicates();
    out.lemma_multiset_has_no_duplicates_conv();
    assert(out.len() == out.to_multiset().len());
    assert(src.len() == src.to_multiset().len());
    assert forall|i: int| 0 <= i < out.len() implies src.contains(#[trigger] out[i]) by {
        assert(out.to_multiset().count(out[i]) > 0);
    }
    assert forall|k: int| 0 <= k < src.len() implies out.contains(#[trigger] src[k]) by {
        assert(src.to_multiset().count(src[k]) > 0);
    }
    assert forall|i: int, j: int| 0 <= i < j < out.len() implies key(out[i]) != key(out[j]) by {
        assert(src.contains(out[i]));
        assert(src.contains(out[j]));
        let a = choose|a: int| 0 <= a < src.len() && src[a] == out[i];
        let b = choose|b: int| 0 <= b < src.len() && src[b] == out[j];
        assert(out[i] != out[j]);
        if a < b {
            assert(key(src[a]) != key(src[b]));
        } else if b < a {
            assert(key(src[b]) != key(src[a]));
        }
    }
}

} // verus!
