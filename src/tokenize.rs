//! Splitting text into maximal runs of characters of one category.

use crate::classify::{categorize_char, category_of, CharCategory};
use vstd::prelude::*;

verus! {

/// The maximal runs of `s`, built one character at a time: a character joins
/// the last run when it shares that run's category, else it opens a new run.
pub open spec fn runs(s: Seq<char>) -> Seq<Seq<char>>
    decreases s.len(),
{
    if s.len() == 0 {
        seq![]
    } else {
        let t = runs(s.drop_last());
        let c = s.last();
        if t.len() > 0 && category_of(t.last().last()) == category_of(c) {
            t.update(t.len() - 1, t.last().push(c))
        } else {
            t.push(seq![c])
        }
    }
}

/// The pieces of `ts` written one after another.
pub open spec fn joined(ts: Seq<Seq<char>>) -> Seq<char>
    decreases ts.len(),
{
    if ts.len() == 0 {
        seq![]
    } else {
        joined(ts.drop_last()) + ts.last()
    }
}

/// Every character of `t` has the category of its first one.
pub open spec fn uniform(t: Seq<char>) -> bool {
    forall|i: int| 0 <= i < t.len() ==> category_of(#[trigger] t[i]) == category_of(t[0])
}

/// `ts` cuts `s` into non-empty one-category pieces, neighbours differing in
/// category.
pub open spec fn is_run_split(ts: Seq<Seq<char>>, s: Seq<char>) -> bool {
    &&& joined(ts) == s
    &&& forall|i: int| 0 <= i < ts.len() ==> (#[trigger] ts[i]).len() > 0 && uniform(ts[i])
    &&& forall|i: int, j: int|
        0 <= i && j == i + 1 && j < ts.len() ==> category_of((#[trigger] ts[i])[0]) != category_of(
            (#[trigger] ts[j])[0],
        )
}

proof fn lemma_runs_extend_same(t: Seq<Seq<char>>, p: Seq<char>, c: char)
    requires
        is_run_split(t, p),
        t.len() > 0,
        category_of(t.last().last()) == category_of(c),
    ensures
        is_run_split(t.update(t.len() - 1, t.last().push(c)), p.push(c)),
{
    let n = t.len() - 1;
    let r = t.update(n, t.last().push(c));
    assert(r.drop_last() =~= t.drop_last());
    assert(joined(r) =~= p.push(c));
    assert(uniform(t[n]));
    assert(category_of(t[n][t[n].len() - 1]) == category_of(t[n][0]));
    assert forall|i: int| 0 <= i < r.len() implies (#[trigger] r[i]).len() > 0 && uniform(r[i]) by {
        if i == n {
            assert forall|j: int| 0 <= j < r[i].len() implies category_of(#[trigger] r[i][j])
                == category_of(r[i][0]) by {
                if j < t[n].len() {
                    assert(r[i][j] == t[n][j]);
                }
            }
        }
    }
    assert forall|i: int, j: int| 0 <= i && j == i + 1 && j < r.len() implies category_of(
        (#[trigger] r[i])[0],
    ) != category_of((#[trigger] r[j])[0]) by {
        assert(r[i][0] == t[i][0]);
        assert(r[j][0] == t[j][0]);
    }
}

proof fn lemma_runs_extend_new(t: Seq<Seq<char>>, p: Seq<char>, c: char)
    requires
        is_run_split(t, p),
        t.len() > 0 ==> category_of(t.last().last()) != category_of(c),
    ensures
        is_run_split(t.push(seq![c]), p.push(c)),
{
    let r = t.push(seq![c]);
    assert(r.drop_last() =~= t);
    assert(joined(r) =~= p.push(c));
    assert forall|i: int| 0 <= i < r.len() implies (#[trigger] r[i]).len() > 0 && uniform(r[i]) by {
        if i < t.len() {
            assert(r[i] == t[i]);
        }
    }
    assert forall|i: int, j: int| 0 <= i && j == i + 1 && j < r.len() implies category_of(
        (#[trigger] r[i])[0],
    ) != category_of((#[trigger] r[j])[0]) by {
        if i == t.len() - 1 {
            let m = t[i].len() - 1;
            assert(uniform(t[i]));
            assert(category_of(t[i][m]) == category_of(t[i][0]));
        } else {
            assert(r[i] == t[i]);
            assert(r[j] == t[j]);
        }
    }
}

/// Tokenizing round-trips: the runs of a text, written one after another, give
/// the text back; each run is non-empty and of one category; and neighbouring
/// runs differ in category.
pub proof fn lemma_runs_split(s: Seq<char>)
    ensures
        is_run_split(runs(s), s),
    decreases s.len(),
{
    if s.len() > 0 {
        let p = s.drop_last();
        lemma_runs_split(p);
        let t = runs(p);
        let c = s.last();
        if t.len() > 0 && category_of(t.last().last()) == category_of(c) {
            lemma_runs_extend_same(t, p, c);
        } else {
            lemma_runs_extend_new(t, p, c);
        }
        assert(p.push(c) =~= s);
    } else {
        assert(joined(runs(s)) =~= s);
    }
}

/// The contents of each vector of `v`.
pub open spec fn texts(v: Seq<Vec<char>>) -> Seq<Seq<char>> {
    v.map_values(|t: Vec<char>| t@)
}

/// Splits `s` into its maximal runs of one category.
pub fn split(s: &[char]) -> (r: Vec<Vec<char>>)
    ensures
        texts(r@) == runs(s@),
{
    let mut result: Vec<Vec<char>> = Vec::new();
    let mut current: Vec<char> = Vec::new();
    let mut last = CharCategory::Unknown;
    let mut i: usize = 0;
    while i < s.len()
        invariant
            i <= s.len(),
            i == 0 ==> result@.len() == 0 && current@.len() == 0,
            i > 0 ==> current@.len() > 0 && last == category_of(current@.last()),
            i > 0 ==> texts(result@).push(current@) == runs(s@.take(i as int)),
        decreases s.len() - i,
    {
        let ch = s[i];
        let cat = categorize_char(ch);
        let ghost t = runs(s@.take(i as int));
        assert(s@.take(i + 1).drop_last() =~= s@.take(i as int));
        assert(s@.take(i + 1).last() == ch);
        if i > 0 && cat != last {
            let ghost before = texts(result@);
            let ghost cur = current@;
            let done = current;
            result.push(done);
            current = Vec::new();
            assert(texts(result@) =~= before.push(cur));
            current.push(ch);
            assert(texts(result@).push(current@) =~= t.push(seq![ch]));
        } else if i > 0 {
            let ghost cur = current@;
            current.push(ch);
            assert(t.last() == cur);
            assert(texts(result@).push(current@) =~= t.update(t.len() - 1, t.last().push(ch)));
        } else {
            current.push(ch);
            assert(current@ =~= seq![ch]);
            assert(texts(result@) =~= seq![]);
            assert(texts(result@).push(current@) =~= seq![seq![ch]]);
            assert(t =~= seq![]);
        }
        last = cat;
        i += 1;
    }
    if i > 0 {
        let ghost before = texts(result@);
        let ghost cur = current@;
        result.push(current);
        assert(texts(result@) =~= before.push(cur));
    }
    assert(s@.take(i as int) =~= s@);
    result
}

} // verus!
