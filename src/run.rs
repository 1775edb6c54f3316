//! Typed runs: exon or intron, with a rank counted per kind.
use vstd::prelude::*;
use crate::segment::{
    flatten, is_case_split, is_single_case, lemma_parts_len, lemma_strip_gaps_len,
    split_by_case_transition, strip_gaps, strip_gaps_spec,
};
use crate::text::{chars_of, texts};

verus! {

/// What a run of the annotated sequence stands for.
#[derive(Clone, Copy, Debug, PartialEq, Eq, Structural)]
pub enum Term {
    Exon,
    Intron,
}

/// One maximal same-case run of the gap-stripped annotated sequence.
pub struct AnnotatedRun {
    pub kind: Term,
    /// 1-based position among the runs of the same kind.
    pub rank: u32,
    pub bases: String,
}

/// One of the four canonical DNA bases, in upper case.
pub open spec fn is_upper_base(c: char) -> bool {
    c == 'A' || c == 'G' || c == 'C' || c == 'T'
}

/// A run is an exon exactly when its first char is an uppercase base.
pub open spec fn kind_of(bases: Seq<char>) -> Term {
    if bases.len() > 0 && is_upper_base(bases[0]) {
        Term::Exon
    } else {
        Term::Intron
    }
}

/// How many entries of `kinds` are `t`.
pub open spec fn count_kind(kinds: Seq<Term>, t: Term) -> nat
    decreases kinds.len(),
{
    if kinds.len() == 0 {
        0
    } else {
        count_kind(kinds.drop_last(), t) + if kinds.last() == t {
            1nat
        } else {
            0nat
        }
    }
}

pub open spec fn kinds(runs: Seq<AnnotatedRun>) -> Seq<Term> {
    runs.map_values(|r: AnnotatedRun| r.kind)
}

pub open spec fn bases(runs: Seq<AnnotatedRun>) -> Seq<Seq<char>> {
    runs.map_values(|r: AnnotatedRun| r.bases@)
}

/// Each run is classified by its first char, and its rank is the number of
/// runs of its kind up to and including it.
pub open spec fn is_ranked(runs: Seq<AnnotatedRun>) -> bool {
    forall|k: int|
        0 <= k < runs.len() ==> {
            &&& (#[trigger] runs[k]).kind == kind_of(runs[k].bases@)
            &&& runs[k].rank == count_kind(kinds(runs).take(k + 1), runs[k].kind)
        }
}

pub proof fn lemma_count_kind_le(ks: Seq<Term>, t: Term)
    ensures
        count_kind(ks, t) <= ks.len(),
    decreases ks.len(),
{
    if ks.len() > 0 {
        lemma_count_kind_le(ks.drop_last(), t);
    }
}

proof fn lemma_count_kind_step(ks: Seq<Term>, k: int, t: Term)
    requires
        0 <= k < ks.len(),
    ensures
        count_kind(ks.take(k + 1), t) == count_kind(ks.take(k), t) + if ks[k] == t {
            1nat
        } else {
            0nat
        },
{
    assert(ks.take(k + 1).drop_last() =~= ks.take(k));
}

proof fn lemma_count_kind_mono(ks: Seq<Term>, j: int, k: int, t: Term)
    requires
        0 <= j <= k <= ks.len(),
    ensures
        count_kind(ks.take(j), t) <= count_kind(ks.take(k), t),
    decreases k - j,
{
    if j < k {
        lemma_count_kind_step(ks, k - 1, t);
        lemma_count_kind_mono(ks, j, k - 1, t);
    }
}

proof fn lemma_count_kind_last(ks: Seq<Term>, k: int, t: Term)
    requires
        0 <= k <= ks.len(),
        count_kind(ks.take(k), t) >= 1,
    ensures
        exists|j: int|
            0 <= j < k && ks[j] == t && #[trigger] count_kind(ks.take(j + 1), t) == count_kind(
                ks.take(k),
                t,
            ),
    decreases k,
{
    if k == 0 {
        assert(ks.take(0) =~= Seq::<Term>::empty());
    } else {
        lemma_count_kind_step(ks, k - 1, t);
        if ks[k - 1] == t {
            assert(count_kind(ks.take((k - 1) + 1), t) == count_kind(ks.take(k), t));
        } else {
            lemma_count_kind_last(ks, k - 1, t);
        }
    }
}

/// Some earlier run of the same kind has the rank just below run `k`'s.
pub open spec fn has_rank_predecessor(runs: Seq<AnnotatedRun>, k: int) -> bool {
    exists|j: int|
        0 <= j < k && runs[j].kind == runs[k].kind && (#[trigger] runs[j]).rank + 1 == runs[k].rank
}

proof fn lemma_rank_of(runs: Seq<AnnotatedRun>, k: int)
    requires
        is_ranked(runs),
        0 <= k < runs.len(),
    ensures
        kinds(runs)[k] == runs[k].kind,
        runs[k].rank == count_kind(kinds(runs).take(k), runs[k].kind) + 1,
{
    let r = runs[k];
    lemma_count_kind_step(kinds(runs), k, r.kind);
}

/// Ranks are counted per kind: among the runs of one kind, in order, the
/// ranks are 1, 2, 3, ... with no gap or repeat, whatever runs of the other
/// kind stand between them.
pub proof fn lemma_ranks_contiguous(runs: Seq<AnnotatedRun>)
    requires
        is_ranked(runs),
    ensures
        forall|k: int| 0 <= k < runs.len() ==> (#[trigger] runs[k]).rank >= 1,
        forall|j: int, k: int|
            0 <= j < k < runs.len() && runs[j].kind == runs[k].kind ==> (#[trigger] runs[j]).rank
                < (#[trigger] runs[k]).rank,
        forall|k: int|
            0 <= k < runs.len() && runs[k].rank > 1 ==> #[trigger] has_rank_predecessor(runs, k),
{
    lemma_ranks_positive(runs);
    lemma_ranks_increase(runs);
    lemma_ranks_no_gap(runs);
}

proof fn lemma_ranks_positive(runs: Seq<AnnotatedRun>)
    requires
        is_ranked(runs),
    ensures
        forall|k: int| 0 <= k < runs.len() ==> (#[trigger] runs[k]).rank >= 1,
{
    assert forall|k: int| 0 <= k < runs.len() implies (#[trigger] runs[k]).rank >= 1 by {
        lemma_rank_of(runs, k);
    }
}

proof fn lemma_ranks_increase(runs: Seq<AnnotatedRun>)
    requires
        is_ranked(runs),
    ensures
        forall|j: int, k: int|
            0 <= j < k < runs.len() && runs[j].kind == runs[k].kind ==> (#[trigger] runs[j]).rank
                < (#[trigger] runs[k]).rank,
{
    assert forall|j: int, k: int|
        0 <= j < k < runs.len() && runs[j].kind == runs[k].kind implies (#[trigger] runs[j]).rank
        < (#[trigger] runs[k]).rank by {
        lemma_rank_before(runs, j, k);
    }
}

proof fn lemma_ranks_no_gap(runs: Seq<AnnotatedRun>)
    requires
        is_ranked(runs),
    ensures
        forall|k: int|
            0 <= k < runs.len() && runs[k].rank > 1 ==> #[trigger] has_rank_predecessor(runs, k),
{
    assert forall|k: int| 0 <= k < runs.len() && runs[k].rank > 1 implies #[trigger] has_rank_predecessor(runs, k) by {
        lemma_rank_predecessor(runs, k);
    }
}

proof fn lemma_rank_before(runs: Seq<AnnotatedRun>, j: int, k: int)
    requires
        is_ranked(runs),
        0 <= j < k < runs.len(),
        runs[j].kind == runs[k].kind,
    ensures
        runs[j].rank < runs[k].rank,
{
    lemma_rank_of(runs, j);
    lemma_rank_of(runs, k);
    lemma_count_kind_step(kinds(runs), j, runs[j].kind);
    lemma_count_kind_mono(kinds(runs), j + 1, k, runs[k].kind);
}

proof fn lemma_rank_predecessor(runs: Seq<AnnotatedRun>, k: int)
    requires
        is_ranked(runs),
        0 <= k < runs.len(),
        runs[k].rank > 1,
    ensures
        has_rank_predecessor(runs, k),
{
    let ks = kinds(runs);
    let t = runs[k].kind;
    lemma_rank_of(runs, k);
    lemma_count_kind_last(ks, k, t);
    let j = choose|j: int|
        0 <= j < k && ks[j] == t && #[trigger] count_kind(ks.take(j + 1), t) == count_kind(
            ks.take(k),
            t,
        );
    lemma_rank_of(runs, j);
    lemma_count_kind_step(ks, j, t);
    assert(runs[j].rank + 1 == runs[k].rank);
}

/// Classifies each part and gives it its rank among the parts of its kind.
pub fn classify_runs(parts: &Vec<String>) -> (r: Vec<AnnotatedRun>)
    requires
        parts.len() < u32::MAX,
    ensures
        bases(r@) == texts(parts@),
        is_ranked(r@),
{
    let n = parts.len();
    let mut result: Vec<AnnotatedRun> = Vec::new();
    let mut exon_rank: u32 = 1;
    let mut intron_rank: u32 = 1;
    let mut i: usize = 0;
    while i < n
        invariant
            n == parts.len(),
            n < u32::MAX,
            i <= n,
            result.len() == i,
            forall|k: int| 0 <= k < i ==> (#[trigger] result@[k]).bases@ == parts@[k]@,
            is_ranked(result@),
            exon_rank == count_kind(kinds(result@), Term::Exon) + 1,
            intron_rank == count_kind(kinds(result@), Term::Intron) + 1,
        decreases n - i,
    {
        let part = parts[i].clone();
        let cs = chars_of(part.as_str());
        let exon = cs.len() > 0 && (cs[0] == 'A' || cs[0] == 'G' || cs[0] == 'C' || cs[0] == 'T');
        proof {
            lemma_count_kind_le(kinds(result@), Term::Exon);
            lemma_count_kind_le(kinds(result@), Term::Intron);
            assert(kinds(result@).len() == i);
        }
        let run = if exon {
            let run = AnnotatedRun { kind: Term::Exon, rank: exon_rank, bases: part };
            exon_rank = exon_rank + 1;
            run
        } else {
            let run = AnnotatedRun { kind: Term::Intron, rank: intron_rank, bases: part };
            intron_rank = intron_rank + 1;
            run
        };
        proof {
            let old_ks = kinds(result@);
            let ks = kinds(result@.push(run));
            assert(ks =~= old_ks.push(run.kind));
            assert(ks.take(i + 1) =~= ks);
            assert(ks.drop_last() =~= old_ks);
            assert forall|k: int| 0 <= k < i implies #[trigger] ks.take(k + 1) =~= old_ks.take(k + 1) by {}
        }
        result.push(run);
        i = i + 1;
    }
    assert(bases(result@) =~= texts(parts@));
    result
}

/// The runs of one annotated-nucleotide string: gaps removed, cut at case
/// transitions, classified and ranked per kind.
pub fn segment(atn: &str) -> (r: Vec<AnnotatedRun>)
    requires
        atn@.len() < u32::MAX,
    ensures
        is_case_split(strip_gaps_spec(atn@), bases(r@)),
        is_ranked(r@),
        strip_gaps_spec(atn@).len() == 0 ==> r.len() == 0,
        strip_gaps_spec(atn@).len() > 0 && is_single_case(strip_gaps_spec(atn@)) ==> r.len()
            == 1,
{
    let stripped = strip_gaps(atn);
    let parts = split_by_case_transition(stripped.as_str());
    proof {
        lemma_strip_gaps_len(atn@);
        let ps = texts(parts@);
        assert forall|k: int| 0 <= k < ps.len() implies #[trigger] ps[k].len() > 0 by {}
        lemma_parts_len(ps);
    }
    let runs = classify_runs(&parts);
    runs
}

} // verus!
