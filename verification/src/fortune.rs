//! The fortune picker's pure core: cutting fortune files into individual
//! fortunes, and picking one at random.
//!
//! A fortune file is a sequence of text blocks separated by lines that
//! hold a single `%`.  The cut runs with one shared buffer across all
//! files, so an unterminated trailing block of one file flows into the
//! next file's first fortune, which is then attributed to that next
//! file; a trailing block of the last file is dropped.

use vstd::prelude::*;
use vstd::string::StringExecFns;

verus! {

/// One fortune: the name of the file it came from, and its text.
pub struct Fortune {
    pub source: String,
    pub text: String,
}

/// The mathematical image of a `Fortune`.
pub ghost struct FortuneV {
    pub source: Seq<char>,
    pub text: Seq<char>,
}

impl DeepView for Fortune {
    type V = FortuneV;

    open spec fn deep_view(&self) -> FortuneV {
        FortuneV { source: self.source@, text: self.text@ }
    }
}

/// The lines of one input file, with the name the fortunes cut from it
/// are attributed to.
pub struct FortuneFile {
    pub name: String,
    pub lines: Vec<String>,
}

/// The mathematical image of a `FortuneFile`.
pub ghost struct FortuneFileV {
    pub name: Seq<char>,
    pub lines: Seq<Seq<char>>,
}

impl DeepView for FortuneFile {
    type V = FortuneFileV;

    open spec fn deep_view(&self) -> FortuneFileV {
        FortuneFileV { name: self.name@, lines: self.lines.deep_view() }
    }
}

/// Buffered lines joined into one fortune text, one newline between
/// consecutive lines.
pub open spec fn join_lines(buf: Seq<Seq<char>>) -> Seq<char>
    decreases buf.len(),
{
    if buf.len() == 0 {
        Seq::empty()
    } else if buf.len() == 1 {
        buf[0]
    } else {
        join_lines(buf.drop_last()) + seq!['\n'] + buf.last()
    }
}

/// Outcome of cutting a run of lines: the fortunes produced, and the
/// buffered lines still awaiting a `%` separator.
pub ghost struct CutState {
    pub fortunes: Seq<FortuneV>,
    pub buf: Seq<Seq<char>>,
}

/// Cut one file's lines, starting from an already-buffered prefix: a
/// `%` line closes the buffer into a fortune when the buffer is
/// non-empty (an empty buffer yields nothing), any other line is
/// buffered.
pub open spec fn cut_file(name: Seq<char>, lines: Seq<Seq<char>>, buf: Seq<Seq<char>>) -> CutState
    decreases lines.len(),
{
    if lines.len() == 0 {
        CutState { fortunes: Seq::empty(), buf }
    } else if lines[0] == "%"@ {
        let rest = cut_file(name, lines.drop_first(), Seq::empty());
        if buf.len() > 0 {
            CutState {
                fortunes: seq![FortuneV { source: name, text: join_lines(buf) }] + rest.fortunes,
                buf: rest.buf,
            }
        } else {
            rest
        }
    } else {
        cut_file(name, lines.drop_first(), buf.push(lines[0]))
    }
}

/// Cut a run of files, the buffer carrying over from file to file;
/// whatever is still buffered after the last file is dropped.
pub open spec fn cut_files(files: Seq<FortuneFileV>, buf: Seq<Seq<char>>) -> CutState
    decreases files.len(),
{
    if files.len() == 0 {
        CutState { fortunes: Seq::empty(), buf }
    } else {
        let first = cut_file(files[0].name, files[0].lines, buf);
        let rest = cut_files(files.drop_first(), first.buf);
        CutState { fortunes: first.fortunes + rest.fortunes, buf: rest.buf }
    }
}

/// The fortunes a run of files holds.
pub open spec fn fortunes_of(files: Seq<FortuneFileV>) -> Seq<FortuneV> {
    cut_files(files, Seq::empty()).fortunes
}

/// Join buffered lines into one fortune text.
fn join_buf(buf: &Vec<String>) -> (r: String)
    ensures
        r@ == join_lines(buf.deep_view()),
{
    let mut r = String::new();
    let mut i: usize = 0;
    proof {
        assert(join_lines(buf.deep_view().take(0)) =~= Seq::<char>::empty());
    }
    while i < buf.len()
        invariant
            i <= buf.len(),
            r@ == join_lines(buf.deep_view().take(i as int)),
        decreases buf.len() - i,
    {
        if i > 0 {
            r.append("\n");
        }
        r.append(buf[i].as_str());
        proof {
            let dv = buf.deep_view();
            assert(dv.take(i + 1 as int).drop_last() =~= dv.take(i as int));
            assert(dv.take(i + 1 as int).last() == dv[i as int]);
            if i == 0 {
                assert(r@ =~= join_lines(dv.take(1)));
            } else {
                reveal_strlit("\n");
                assert(r@ =~= join_lines(dv.take(i as int)) + seq!['\n'] + dv[i as int]);
            }
        }
        i += 1;
    }
    proof {
        assert(buf.deep_view().take(i as int) =~= buf.deep_view());
    }
    r
}

/// Cut every given file into fortunes, in order, one buffer shared
/// across the whole run.
pub fn read_fortunes(files: &Vec<FortuneFile>) -> (r: Vec<Fortune>)
    ensures
        r.deep_view() == fortunes_of(files.deep_view()),
{
    let percent = String::from_str("%");
    let mut fortunes: Vec<Fortune> = Vec::new();
    let mut buf: Vec<String> = Vec::new();
    let ghost fv = files.deep_view();
    let mut fi: usize = 0;
    proof {
        assert(fv.skip(0) =~= fv);
        assert(fortunes.deep_view() =~= Seq::<FortuneV>::empty());
        assert(buf.deep_view() =~= Seq::<Seq<char>>::empty());
    }
    while fi < files.len()
        invariant
            fi <= files.len(),
            fv == files.deep_view(),
            percent@ == "%"@,
            fortunes.deep_view() + cut_files(fv.skip(fi as int), buf.deep_view()).fortunes
                == fortunes_of(fv),
        decreases files.len() - fi,
    {
        let ghost name = fv[fi as int].name;
        let ghost lv = fv[fi as int].lines;
        let mut li: usize = 0;
        proof {
            assert(fv.skip(fi as int)[0] == fv[fi as int]);
            assert(fv.skip(fi as int).drop_first() =~= fv.skip(fi + 1 as int));
            assert(lv.skip(0) =~= lv);
        }
        while li < files[fi].lines.len()
            invariant
                fi < files.len(),
                li <= files[fi as int].lines.len(),
                fv == files.deep_view(),
                percent@ == "%"@,
                name == fv[fi as int].name,
                lv == fv[fi as int].lines,
                fortunes.deep_view() + ({
                    let cur = cut_file(name, lv.skip(li as int), buf.deep_view());
                    cur.fortunes + cut_files(fv.skip(fi + 1 as int), cur.buf).fortunes
                }) == fortunes_of(fv),
            decreases files[fi as int].lines.len() - li,
        {
            let ghost pre_f = fortunes.deep_view();
            let ghost pre_b = buf.deep_view();
            let ghost rem = lv.skip(li as int);
            proof {
                assert(rem[0] == lv[li as int]);
                assert(rem.drop_first() =~= lv.skip(li + 1 as int));
            }
            let line = &files[fi].lines[li];
            if *line == percent {
                if buf.len() > 0 {
                    let f = Fortune { source: files[fi].name.clone(), text: join_buf(&buf) };
                    fortunes.push(f);
                    proof {
                        assert(fortunes.deep_view() =~= pre_f.push(
                            FortuneV { source: name, text: join_lines(pre_b) },
                        ));
                    }
                }
                buf.clear();
                proof {
                    assert(buf.deep_view() =~= Seq::<Seq<char>>::empty());
                    let cur = cut_file(name, rem, pre_b);
                    let next = cut_file(name, lv.skip(li + 1 as int), buf.deep_view());
                    if pre_b.len() > 0 {
                        assert(cur.fortunes =~= seq![
                            FortuneV { source: name, text: join_lines(pre_b) },
                        ] + next.fortunes);
                        assert(pre_f.push(FortuneV { source: name, text: join_lines(pre_b) })
                            + next.fortunes =~= pre_f + cur.fortunes);
                    } else {
                        assert(cur == next);
                    }
                }
            } else {
                buf.push(line.clone());
                proof {
                    assert(buf.deep_view() =~= pre_b.push(lv[li as int]));
                    assert(lv[li as int] != "%"@);
                }
            }
            li += 1;
            proof {
                let cur = cut_file(name, lv.skip(li as int), buf.deep_view());
                assert(fortunes.deep_view() + (cur.fortunes + cut_files(
                    fv.skip(fi + 1 as int),
                    cur.buf,
                ).fortunes) =~= fortunes_of(fv));
            }
        }
        fi += 1;
        proof {
            assert(lv.skip(li as int) =~= Seq::<Seq<char>>::empty());
            assert(cut_file(name, lv.skip(li as int), buf.deep_view()) == (CutState {
                fortunes: Seq::<FortuneV>::empty(),
                buf: buf.deep_view(),
            }));
            assert(Seq::<FortuneV>::empty() + cut_files(
                fv.skip(fi as int),
                buf.deep_view(),
            ).fortunes =~= cut_files(fv.skip(fi as int), buf.deep_view()).fortunes);
        }
    }
    proof {
        assert(fv.skip(fi as int) =~= Seq::<FortuneFileV>::empty());
        assert(fortunes.deep_view() + Seq::<FortuneV>::empty() =~= fortunes.deep_view());
    }
    fortunes
}

/// Keep, in order, exactly the fortunes whose text the pattern matches.
pub fn matching_fortunes(fortunes: &Vec<Fortune>, pattern: &crate::pattern::Pattern) -> (r: Vec<
    Fortune,
>)
    ensures
        r.deep_view() == fortunes.deep_view().filter(
            |f: FortuneV| crate::pattern::regex_match(pattern@.src, pattern@.ci, f.text),
        ),
{
    let ghost pred = |f: FortuneV| crate::pattern::regex_match(pattern@.src, pattern@.ci, f.text);
    let mut r: Vec<Fortune> = Vec::new();
    let mut i: usize = 0;
    proof {
        reveal(Seq::filter);
        assert(r.deep_view() =~= fortunes.deep_view().take(0).filter(pred));
    }
    while i < fortunes.len()
        invariant
            i <= fortunes.len(),
            r.deep_view() == fortunes.deep_view().take(i as int).filter(pred),
            pred == (|f: FortuneV|
                crate::pattern::regex_match(pattern@.src, pattern@.ci, f.text)),
        decreases fortunes.len() - i,
    {
        let ghost pre = r.deep_view();
        let ghost dv = fortunes.deep_view();
        if pattern.is_match(fortunes[i].text.as_str()) {
            let f = Fortune {
                source: fortunes[i].source.clone(),
                text: fortunes[i].text.clone(),
            };
            r.push(f);
            proof {
                assert(r.deep_view() =~= pre.push(dv[i as int]));
            }
        }
        proof {
            reveal(Seq::filter);
            assert(dv.take(i + 1 as int).drop_last() =~= dv.take(i as int));
            assert(dv.take(i + 1 as int).last() == dv[i as int]);
            assert(r.deep_view() =~= dv.take(i + 1 as int).filter(pred));
        }
        i += 1;
    }
    proof {
        assert(fortunes.deep_view().take(i as int) =~= fortunes.deep_view());
    }
    r
}

#[verifier::external_type_specification]
#[verifier::external_body]
pub struct ExStdRng(rand::rngs::StdRng);

/// Relies on rand's `StdRng::seed_from_u64`: builds a generator from the
/// given seed.  Nothing is claimed of the numbers it will yield.
#[verifier::external_body]
fn rng_from_seed(seed: u64) -> rand::rngs::StdRng {
    <rand::rngs::StdRng as rand::SeedableRng>::seed_from_u64(seed)
}

/// Relies on rand's `thread_rng` and `StdRng::from_rng`: builds a
/// generator seeded from the thread-local source.  Nothing is claimed of
/// the numbers it will yield.
#[verifier::external_body]
fn rng_from_entropy() -> rand::rngs::StdRng {
    <rand::rngs::StdRng as rand::SeedableRng>::from_rng(rand::thread_rng()).unwrap()
}

/// Relies on rand's `SliceRandom::choose`: yields some element of the
/// slice, and `None` exactly when the slice is empty.  Which element
/// comes back is random, so no more is claimed.
#[verifier::external_body]
fn choose_fortune<'a>(fortunes: &'a [Fortune], rng: &mut rand::rngs::StdRng) -> (r: Option<
    &'a Fortune,
>)
    ensures
        r is Some <==> fortunes@.len() > 0,
        r matches Some(f) ==> exists|i: int| 0 <= i < fortunes@.len() && *f == fortunes@[i],
{
    rand::seq::SliceRandom::choose(fortunes, rng)
}

/// Pick one fortune's text at random: deterministically seeded when a
/// seed is given, seeded from the thread-local source otherwise.  Yields
/// the text of some fortune of the slice, and `None` exactly when there
/// is none to pick.
pub fn pick_fortune(fortunes: &[Fortune], seed: Option<u64>) -> (r: Option<String>)
    ensures
        r is Some <==> fortunes@.len() > 0,
        r matches Some(t) ==> exists|i: int|
            0 <= i < fortunes@.len() && t@ == fortunes@[i].text@,
{
    let mut rng = match seed {
        None => rng_from_entropy(),
        Some(num) => rng_from_seed(num),
    };
    match choose_fortune(fortunes, &mut rng) {
        Some(f) => {
            let t = f.text.clone();
            proof {
                let i = choose|i: int| 0 <= i < fortunes@.len() && *f == fortunes@[i];
                assert(t@ == fortunes@[i].text@);
            }
            Some(t)
        },
        None => None,
    }
}

} // verus!
