//! The merge comparator: walks two sorted line sequences in lockstep and
//! classifies every emitted line, then renders each classification.
//!
//! While both sources still have a pending line, the smaller head is
//! emitted as unique to its source and that source advances; equal heads
//! are emitted once as common and both sources advance.  Once one source
//! is exhausted, every remaining line of the other is emitted raw,
//! bypassing column formatting altogether.

use vstd::prelude::*;
use crate::column::{Class, Column, format_column, format_spec};
use crate::compare::cmp_chars;
use crate::config::{Config, ConfigV};
use crate::lines::{norm_line, normalize_line};

verus! {

/// The decision taken when both sources have a pending line: equal heads
/// are common, the smaller head is unique to its source.
pub open spec fn classify_spec(a: Seq<char>, b: Seq<char>) -> Class {
    match cmp_chars(a, b) {
        core::cmp::Ordering::Equal => Class::Col3(a),
        core::cmp::Ordering::Less => Class::Col1(a),
        core::cmp::Ordering::Greater => Class::Col2(b),
    }
}

/// Classify the two pending lines of the `Both` state.
pub fn classify(line1: &String, line2: &String) -> (c: Column)
    ensures
        c@ == classify_spec(line1@, line2@),
{
    match line1.as_str().cmp(line2.as_str()) {
        core::cmp::Ordering::Equal => Column::Col3(line1.clone()),
        core::cmp::Ordering::Less => Column::Col1(line1.clone()),
        core::cmp::Ordering::Greater => Column::Col2(line2.clone()),
    }
}

/// The full classification sequence the comparator emits for the two
/// line sequences, in emission order: three-way decisions while both
/// sides are live, raw emissions once one side is exhausted.
pub open spec fn merge_classes(a: Seq<Seq<char>>, b: Seq<Seq<char>>) -> Seq<Class>
    decreases a.len() + b.len(),
{
    if a.len() == 0 && b.len() == 0 {
        Seq::empty()
    } else if b.len() == 0 {
        seq![Class::RawA(a[0])] + merge_classes(a.drop_first(), b)
    } else if a.len() == 0 {
        seq![Class::RawB(b[0])] + merge_classes(a, b.drop_first())
    } else {
        match cmp_chars(a[0], b[0]) {
            core::cmp::Ordering::Equal => seq![Class::Col3(a[0])] + merge_classes(
                a.drop_first(),
                b.drop_first(),
            ),
            core::cmp::Ordering::Less => seq![Class::Col1(a[0])] + merge_classes(
                a.drop_first(),
                b,
            ),
            core::cmp::Ordering::Greater => seq![Class::Col2(b[0])] + merge_classes(
                a,
                b.drop_first(),
            ),
        }
    }
}

/// The output lines a classification sequence prints as: each suppressed
/// classification contributes nothing (not even a blank line), every
/// other one contributes its formatted line.
pub open spec fn output_of(cs: Seq<Class>, cfg: ConfigV) -> Seq<Seq<char>>
    decreases cs.len(),
{
    if cs.len() == 0 {
        Seq::empty()
    } else {
        (match format_spec(cs[0], cfg) {
            Some(l) => seq![l],
            None => Seq::<Seq<char>>::empty(),
        }) + output_of(cs.drop_first(), cfg)
    }
}

/// A single classification renders as its formatted line, or as nothing.
pub proof fn lemma_output_of_one(c: Class, cfg: ConfigV)
    ensures
        output_of(seq![c], cfg) =~= (match format_spec(c, cfg) {
            Some(l) => seq![l],
            None => Seq::<Seq<char>>::empty(),
        }),
{
    assert(seq![c].drop_first() =~= Seq::<Class>::empty());
    assert(output_of(Seq::<Class>::empty(), cfg) =~= Seq::<Seq<char>>::empty());
}

/// Rendering distributes over concatenation of classification sequences.
pub proof fn lemma_output_of_add(x: Seq<Class>, y: Seq<Class>, cfg: ConfigV)
    ensures
        output_of(x + y, cfg) =~= output_of(x, cfg) + output_of(y, cfg),
    decreases x.len(),
{
    if x.len() == 0 {
        assert(x + y =~= y);
    } else {
        lemma_output_of_add(x.drop_first(), y, cfg);
        assert((x + y).drop_first() =~= x.drop_first() + y);
        assert((x + y)[0] == x[0]);
    }
}

/// The complete output of one comparison run over already-normalized
/// line sequences.
pub open spec fn merge_output(a: Seq<Seq<char>>, b: Seq<Seq<char>>, cfg: ConfigV) -> Seq<
    Seq<char>,
> {
    output_of(merge_classes(a, b), cfg)
}

/// The normalized image of a whole line sequence.
pub open spec fn norm_all(s: Seq<Seq<char>>, insensitive: bool) -> Seq<Seq<char>> {
    Seq::new(s.len(), |i: int| norm_line(s[i], insensitive))
}

/// Normalize every line of one source, in order.
fn normalize_all(lines: &Vec<String>, insensitive: bool) -> (r: Vec<String>)
    ensures
        r.deep_view() == norm_all(lines.deep_view(), insensitive),
{
    let mut out: Vec<String> = Vec::new();
    let mut i: usize = 0;
    proof {
        assert(out.deep_view() =~= norm_all(lines.deep_view(), insensitive).take(0));
    }
    while i < lines.len()
        invariant
            i <= lines.len(),
            out.deep_view() == norm_all(lines.deep_view(), insensitive).take(i as int),
        decreases lines.len() - i,
    {
        let ghost pre = out.deep_view();
        let n = normalize_line(&lines[i], insensitive);
        out.push(n);
        proof {
            assert(out.deep_view() =~= pre.push(n@));
            assert(out.deep_view() =~= norm_all(lines.deep_view(), insensitive).take(
                i + 1 as int,
            ));
        }
        i += 1;
    }
    proof {
        assert(norm_all(lines.deep_view(), insensitive).take(i as int) =~= norm_all(
            lines.deep_view(),
            insensitive,
        ));
    }
    out
}

/// Run the whole comparison: normalize both sources, merge them, and
/// render every emitted line.  The result holds exactly the output
/// lines, in emission order.
pub fn run_compare(lines1: &Vec<String>, lines2: &Vec<String>, config: &Config) -> (out: Vec<
    String,
>)
    ensures
        out.deep_view() == merge_output(
            norm_all(lines1.deep_view(), config@.insensitive),
            norm_all(lines2.deep_view(), config@.insensitive),
            config@,
        ),
{
    let na = normalize_all(lines1, config.insensitive);
    let nb = normalize_all(lines2, config.insensitive);
    let ghost va = na.deep_view();
    let ghost vb = nb.deep_view();
    let ghost cfg = config@;
    let mut out: Vec<String> = Vec::new();
    let mut i: usize = 0;
    let mut j: usize = 0;
    proof {
        assert(va.skip(0) =~= va);
        assert(vb.skip(0) =~= vb);
        assert(out.deep_view() + output_of(merge_classes(va, vb), cfg) =~= output_of(
            merge_classes(va, vb),
            cfg,
        ));
    }
    while i < na.len() || j < nb.len()
        invariant
            i <= na.len(),
            j <= nb.len(),
            va == na.deep_view(),
            vb == nb.deep_view(),
            cfg == config@,
            out.deep_view() + output_of(merge_classes(va.skip(i as int), vb.skip(j as int)), cfg)
                == output_of(merge_classes(va, vb), cfg),
        decreases na.len() - i + nb.len() - j,
    {
        let ghost pre = out.deep_view();
        let ghost ra = va.skip(i as int);
        let ghost rb = vb.skip(j as int);
        if i < na.len() && j < nb.len() {
            let col = classify(&na[i], &nb[j]);
            proof {
                assert(ra[0] == va[i as int]);
                assert(rb[0] == vb[j as int]);
                assert(merge_classes(ra, rb) == seq![col@] + merge_classes(
                    if col@ is Col2 {
                        ra
                    } else {
                        ra.drop_first()
                    },
                    if col@ is Col1 {
                        rb
                    } else {
                        rb.drop_first()
                    },
                ));
            }
            match format_column(&col, config) {
                Some(s) => {
                    out.push(s);
                    proof {
                        assert(out.deep_view() =~= pre.push(format_spec(col@, cfg)->0));
                    }
                },
                None => {},
            }
            match col {
                Column::Col3(_) => {
                    proof {
                        assert(ra.drop_first() =~= va.skip(i + 1 as int));
                        assert(rb.drop_first() =~= vb.skip(j + 1 as int));
                    }
                    i += 1;
                    j += 1;
                },
                Column::Col1(_) => {
                    proof {
                        assert(ra.drop_first() =~= va.skip(i + 1 as int));
                    }
                    i += 1;
                },
                Column::Col2(_) => {
                    proof {
                        assert(rb.drop_first() =~= vb.skip(j + 1 as int));
                    }
                    j += 1;
                },
            }
            proof {
                lemma_output_of_add(
                    seq![col@],
                    merge_classes(va.skip(i as int), vb.skip(j as int)),
                    cfg,
                );
                lemma_output_of_one(col@, cfg);
                assert(out.deep_view() + output_of(
                    merge_classes(va.skip(i as int), vb.skip(j as int)),
                    cfg,
                ) =~= pre + output_of(merge_classes(ra, rb), cfg));
            }
        } else if i < na.len() {
            let s = na[i].clone();
            out.push(s);
            i += 1;
            proof {
                assert(merge_classes(ra, rb) == seq![Class::RawA(ra[0])] + merge_classes(
                    ra.drop_first(),
                    rb,
                ));
                assert(ra[0] == va[i - 1]);
                assert(ra.drop_first() =~= va.skip(i as int));
                lemma_output_of_add(
                    seq![Class::RawA(va[i - 1])],
                    merge_classes(va.skip(i as int), rb),
                    cfg,
                );
                lemma_output_of_one(Class::RawA(va[i - 1]), cfg);
                assert(output_of(seq![Class::RawA(va[i - 1])], cfg) =~= seq![va[i - 1]]);
                assert(out.deep_view() =~= pre.push(va[i - 1]));
                assert(out.deep_view() + output_of(
                    merge_classes(va.skip(i as int), vb.skip(j as int)),
                    cfg,
                ) =~= pre + output_of(merge_classes(ra, rb), cfg));
            }
        } else {
            let s = nb[j].clone();
            out.push(s);
            j += 1;
            proof {
                assert(ra.len() == 0);
                assert(merge_classes(ra, rb) == seq![Class::RawB(rb[0])] + merge_classes(
                    ra,
                    rb.drop_first(),
                ));
                assert(rb[0] == vb[j - 1]);
                assert(rb.drop_first() =~= vb.skip(j as int));
                lemma_output_of_add(
                    seq![Class::RawB(vb[j - 1])],
                    merge_classes(ra, vb.skip(j as int)),
                    cfg,
                );
                lemma_output_of_one(Class::RawB(vb[j - 1]), cfg);
                assert(output_of(seq![Class::RawB(vb[j - 1])], cfg) =~= seq![vb[j - 1]]);
                assert(out.deep_view() =~= pre.push(vb[j - 1]));
                assert(out.deep_view() + output_of(
                    merge_classes(va.skip(i as int), vb.skip(j as int)),
                    cfg,
                ) =~= pre + output_of(merge_classes(ra, rb), cfg));
            }
        }
    }
    proof {
        assert(va.skip(i as int) =~= Seq::<Seq<char>>::empty());
        assert(vb.skip(j as int) =~= Seq::<Seq<char>>::empty());
        assert(out.deep_view() + output_of(
            merge_classes(va.skip(i as int), vb.skip(j as int)),
            cfg,
        ) =~= out.deep_view());
    }
    out
}

} // verus!

