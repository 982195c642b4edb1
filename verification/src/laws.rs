//! Proved properties of the merge comparator.

use vstd::prelude::*;
use crate::column::Class;
use crate::compare::{lemma_cmp_eq_iff, lemma_cmp_flip, lemma_cmp_refl, lemma_cmp_trans, line_le};
use crate::config::ConfigV;
use crate::lines::lower_of;
use crate::merge::{
    classify_spec, lemma_output_of_add, lemma_output_of_one, merge_classes, merge_output,
    output_of,
};

verus! {

/// The lines a classification sequence consumed from the first source,
/// in emission order: the unique-to-A, common, and raw-A entries.
pub open spec fn from_a(cs: Seq<Class>) -> Seq<Seq<char>>
    decreases cs.len(),
{
    if cs.len() == 0 {
        Seq::empty()
    } else {
        (match cs[0] {
            Class::Col1(t) => seq![t],
            Class::Col3(t) => seq![t],
            Class::RawA(t) => seq![t],
            _ => Seq::<Seq<char>>::empty(),
        }) + from_a(cs.drop_first())
    }
}

/// The lines a classification sequence consumed from the second source,
/// in emission order: the unique-to-B, common, and raw-B entries.
pub open spec fn from_b(cs: Seq<Class>) -> Seq<Seq<char>>
    decreases cs.len(),
{
    if cs.len() == 0 {
        Seq::empty()
    } else {
        (match cs[0] {
            Class::Col2(t) => seq![t],
            Class::Col3(t) => seq![t],
            Class::RawB(t) => seq![t],
            _ => Seq::<Seq<char>>::empty(),
        }) + from_b(cs.drop_first())
    }
}

/// Source-A extraction distributes over concatenation.
pub proof fn lemma_from_a_add(x: Seq<Class>, y: Seq<Class>)
    ensures
        from_a(x + y) =~= from_a(x) + from_a(y),
    decreases x.len(),
{
    if x.len() == 0 {
        assert(x + y =~= y);
    } else {
        lemma_from_a_add(x.drop_first(), y);
        assert((x + y).drop_first() =~= x.drop_first() + y);
        assert((x + y)[0] == x[0]);
    }
}

/// Source-B extraction distributes over concatenation.
pub proof fn lemma_from_b_add(x: Seq<Class>, y: Seq<Class>)
    ensures
        from_b(x + y) =~= from_b(x) + from_b(y),
    decreases x.len(),
{
    if x.len() == 0 {
        assert(x + y =~= y);
    } else {
        lemma_from_b_add(x.drop_first(), y);
        assert((x + y).drop_first() =~= x.drop_first() + y);
        assert((x + y)[0] == x[0]);
    }
}

/// Every line of each input is consumed by exactly one emitted
/// classification, in the input's own order: the unique-to-A, common and
/// raw-A texts, read off in emission order, are exactly the first
/// source, and symmetrically for the second source.  Each emitted entry
/// is one variant of `Class` and no other, so together the emitted
/// classifications are exactly the merge of the two inputs.
pub proof fn lemma_merge_partition(a: Seq<Seq<char>>, b: Seq<Seq<char>>)
    ensures
        from_a(merge_classes(a, b)) =~= a,
        from_b(merge_classes(a, b)) =~= b,
    decreases a.len() + b.len(),
{
    if a.len() == 0 && b.len() == 0 {
    } else {
        let cs = merge_classes(a, b);
        let head = cs[0];
        let (a2, b2): (Seq<Seq<char>>, Seq<Seq<char>>) = if b.len() == 0 {
            (a.drop_first(), b)
        } else if a.len() == 0 {
            (a, b.drop_first())
        } else {
            match crate::compare::cmp_chars(a[0], b[0]) {
                core::cmp::Ordering::Equal => (a.drop_first(), b.drop_first()),
                core::cmp::Ordering::Less => (a.drop_first(), b),
                core::cmp::Ordering::Greater => (a, b.drop_first()),
            }
        };
        if a.len() > 0 && b.len() > 0 {
            lemma_cmp_eq_iff(a[0], b[0]);
        }
        assert(cs =~= seq![head] + merge_classes(a2, b2));
        lemma_merge_partition(a2, b2);
        lemma_from_a_add(seq![head], merge_classes(a2, b2));
        lemma_from_b_add(seq![head], merge_classes(a2, b2));
        assert(seq![head].drop_first() =~= Seq::<Class>::empty());
        assert(from_a(Seq::<Class>::empty()) =~= Seq::<Seq<char>>::empty());
        assert(from_b(Seq::<Class>::empty()) =~= Seq::<Seq<char>>::empty());
        assert(from_a(seq![head]) =~= (match head {
            Class::Col1(t) => seq![t],
            Class::Col3(t) => seq![t],
            Class::RawA(t) => seq![t],
            _ => Seq::<Seq<char>>::empty(),
        }));
        assert(from_b(seq![head]) =~= (match head {
            Class::Col2(t) => seq![t],
            Class::Col3(t) => seq![t],
            Class::RawB(t) => seq![t],
            _ => Seq::<Seq<char>>::empty(),
        }));
        if a2.len() < a.len() {
            assert(a =~= seq![a[0]] + a.drop_first());
        }
        if b2.len() < b.len() {
            assert(b =~= seq![b[0]] + b.drop_first());
        }
    }
}

/// Comparing a sequence against itself yields only common
/// classifications, one per line, in the original order, and no unique
/// or raw lines at all.
pub proof fn lemma_compare_self(a: Seq<Seq<char>>)
    ensures
        merge_classes(a, a) =~= Seq::new(a.len(), |i: int| Class::Col3(a[i])),
    decreases a.len(),
{
    if a.len() > 0 {
        lemma_cmp_refl(a[0]);
        lemma_compare_self(a.drop_first());
    }
}

/// When the first source is empty, every line of the second is emitted
/// through the raw path, so the output is the second source itself,
/// untouched by the visibility flags and the delimiter.
pub proof fn lemma_raw_emit(b: Seq<Seq<char>>, cfg: ConfigV)
    ensures
        merge_classes(Seq::<Seq<char>>::empty(), b) =~= Seq::new(
            b.len(),
            |i: int| Class::RawB(b[i]),
        ),
        merge_output(Seq::<Seq<char>>::empty(), b, cfg) =~= b,
    decreases b.len(),
{
    let e = Seq::<Seq<char>>::empty();
    if b.len() == 0 {
    } else {
        lemma_raw_emit(b.drop_first(), cfg);
        lemma_output_of_one(Class::RawB(b[0]), cfg);
        lemma_output_of_add(seq![Class::RawB(b[0])], merge_classes(e, b.drop_first()), cfg);
        assert(merge_classes(e, b) =~= seq![Class::RawB(b[0])] + merge_classes(
            e,
            b.drop_first(),
        ));
        assert(output_of(merge_classes(e, b), cfg) =~= seq![b[0]] + output_of(
            merge_classes(e, b.drop_first()),
            cfg,
        ));
        assert(merge_output(e, b, cfg) =~= b);
    }
}

/// Under case folding, two lines that differ only in case meet at the
/// same rank as equal folded forms: they classify as common, and the
/// text carried is the folded form.
pub proof fn lemma_insensitive_common(la: Seq<char>, lb: Seq<char>)
    requires
        lower_of(la) == lower_of(lb),
    ensures
        classify_spec(lower_of(la), lower_of(lb)) == Class::Col3(lower_of(la)),
        merge_classes(seq![lower_of(la)], seq![lower_of(lb)]) =~= seq![
            Class::Col3(lower_of(la)),
        ],
{
    lemma_cmp_refl(lower_of(la));
    assert(seq![lower_of(la)].drop_first() =~= Seq::<Seq<char>>::empty());
    assert(seq![lower_of(lb)].drop_first() =~= Seq::<Seq<char>>::empty());
    assert(merge_classes(Seq::<Seq<char>>::empty(), Seq::<Seq<char>>::empty()) =~= Seq::<
        Class,
    >::empty());
}

/// A line sequence is sorted ascending.
pub open spec fn sorted_lines(s: Seq<Seq<char>>) -> bool {
    forall|i: int, j: int| 0 <= i <= j < s.len() ==> line_le(s[i], s[j])
}

/// The text a classification carries.
pub open spec fn text_of(c: Class) -> Seq<char> {
    match c {
        Class::Col1(t) => t,
        Class::Col2(t) => t,
        Class::Col3(t) => t,
        Class::RawA(t) => t,
        Class::RawB(t) => t,
    }
}

/// The texts a classification sequence carries, in emission order.
pub open spec fn texts_of(cs: Seq<Class>) -> Seq<Seq<char>>
    decreases cs.len(),
{
    if cs.len() == 0 {
        Seq::empty()
    } else {
        seq![text_of(cs[0])] + texts_of(cs.drop_first())
    }
}

/// A lower bound below both sorted inputs bounds every emitted text.
proof fn lemma_merge_texts_bound(a: Seq<Seq<char>>, b: Seq<Seq<char>>, l: Seq<char>)
    requires
        forall|i: int| 0 <= i < a.len() ==> line_le(l, a[i]),
        forall|i: int| 0 <= i < b.len() ==> line_le(l, b[i]),
    ensures
        forall|k: int|
            0 <= k < texts_of(merge_classes(a, b)).len() ==> line_le(
                l,
                texts_of(merge_classes(a, b))[k],
            ),
    decreases a.len() + b.len(),
{
    if a.len() == 0 && b.len() == 0 {
    } else {
        let cs = merge_classes(a, b);
        let head = cs[0];
        let (a2, b2): (Seq<Seq<char>>, Seq<Seq<char>>) = if b.len() == 0 {
            (a.drop_first(), b)
        } else if a.len() == 0 {
            (a, b.drop_first())
        } else {
            match crate::compare::cmp_chars(a[0], b[0]) {
                core::cmp::Ordering::Equal => (a.drop_first(), b.drop_first()),
                core::cmp::Ordering::Less => (a.drop_first(), b),
                core::cmp::Ordering::Greater => (a, b.drop_first()),
            }
        };
        assert(cs =~= seq![head] + merge_classes(a2, b2));
        assert(forall|i: int| 0 <= i < a2.len() ==> line_le(l, a2[i]));
        assert(forall|i: int| 0 <= i < b2.len() ==> line_le(l, b2[i]));
        lemma_merge_texts_bound(a2, b2, l);
        let rest = merge_classes(a2, b2);
        assert(cs.drop_first() =~= rest);
        assert(texts_of(cs) == seq![text_of(head)] + texts_of(rest));
        assert(line_le(l, text_of(head)));
        assert forall|k: int| 0 <= k < texts_of(cs).len() implies line_le(
            l,
            texts_of(cs)[k],
        ) by {
            if k > 0 {
                assert(texts_of(cs)[k] == texts_of(rest)[k - 1]);
            }
        }
    }
}

/// For sorted inputs, the emitted lines come out in sorted order: the
/// classification sequence is a true merge of the two inputs.
pub proof fn lemma_merge_sorted(a: Seq<Seq<char>>, b: Seq<Seq<char>>)
    requires
        sorted_lines(a),
        sorted_lines(b),
    ensures
        sorted_lines(texts_of(merge_classes(a, b))),
    decreases a.len() + b.len(),
{
    if a.len() == 0 && b.len() == 0 {
    } else {
        let cs = merge_classes(a, b);
        let head = cs[0];
        let (a2, b2): (Seq<Seq<char>>, Seq<Seq<char>>) = if b.len() == 0 {
            (a.drop_first(), b)
        } else if a.len() == 0 {
            (a, b.drop_first())
        } else {
            match crate::compare::cmp_chars(a[0], b[0]) {
                core::cmp::Ordering::Equal => (a.drop_first(), b.drop_first()),
                core::cmp::Ordering::Less => (a.drop_first(), b),
                core::cmp::Ordering::Greater => (a, b.drop_first()),
            }
        };
        assert(cs =~= seq![head] + merge_classes(a2, b2));
        let h = text_of(head);
        // The emitted head sits no later than anything still pending.
        assert forall|i: int| 0 <= i < a2.len() implies line_le(h, a2[i]) by {
            if a.len() > 0 && b.len() > 0 && a2 == a {
                // Only the Greater case keeps a whole: the head is b's.
                lemma_cmp_flip(a[0], b[0]);
                lemma_cmp_trans(b[0], a[0], a[i]);
            }
        }
        assert forall|i: int| 0 <= i < b2.len() implies line_le(h, b2[i]) by {
            if a.len() > 0 && b.len() > 0 {
                match crate::compare::cmp_chars(a[0], b[0]) {
                    core::cmp::Ordering::Equal => {
                        lemma_cmp_eq_iff(a[0], b[0]);
                        assert(line_le(b[0], b[i + 1]));
                    },
                    core::cmp::Ordering::Less => {
                        lemma_cmp_trans(a[0], b[0], b[i]);
                    },
                    core::cmp::Ordering::Greater => {},
                }
            }
        }
        lemma_merge_sorted(a2, b2);
        lemma_merge_texts_bound(a2, b2, h);
        let rest = merge_classes(a2, b2);
        assert(cs.drop_first() =~= rest);
        assert(texts_of(cs) == seq![h] + texts_of(rest));
        assert forall|i: int, j: int|
            0 <= i <= j < texts_of(cs).len() implies line_le(
            texts_of(cs)[i],
            texts_of(cs)[j],
        ) by {
            if i > 0 {
                assert(texts_of(cs)[i] == texts_of(rest)[i - 1]);
                assert(texts_of(cs)[j] == texts_of(rest)[j - 1]);
            } else if j > 0 {
                assert(texts_of(cs)[j] == texts_of(rest)[j - 1]);
                assert(line_le(h, texts_of(rest)[j - 1]));
            } else {
                lemma_cmp_refl(h);
            }
        }
    }
}

/// Equal lines classify as common, and only equal lines do.
pub proof fn lemma_classify_common_iff(a: Seq<char>, b: Seq<char>)
    ensures
        classify_spec(a, b) is Col3 <==> a == b,
{
    lemma_cmp_eq_iff(a, b);
}

} // verus!
