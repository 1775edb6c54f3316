//! Feature lookups for the runs, and the GFE string built from their answers.
use vstd::prelude::*;
use crate::run::{AnnotatedRun, Term};
use crate::text::{push_char, to_upper, upper_text};

verus! {

/// What is sent to the feature-naming service for one run.
pub struct FeatureRequest {
    pub locus: String,
    pub term: String,
    pub rank: u32,
    pub sequence: String,
}

/// The feature-naming service's answer for one run.
pub struct FeatureAccession {
    pub locus: String,
    pub accession: u32,
    pub term: String,
    pub rank: u32,
    pub sequence: String,
}

/// The outcome of one request: the accessions that came back, in run order,
/// and the GFE string made of them.
pub struct GfeResult {
    pub valid_input: bool,
    pub seq_name: String,
    pub data: Vec<FeatureAccession>,
    pub gfe: String,
}

impl FeatureAccession {
    /// A field-by-field copy.
    pub fn duplicate(&self) -> (r: FeatureAccession)
        ensures
            r == *self,
    {
        FeatureAccession {
            locus: self.locus.clone(),
            accession: self.accession,
            term: self.term.clone(),
            rank: self.rank,
            sequence: self.sequence.clone(),
        }
    }
}

/// The name of a run's kind as the feature service spells it.
pub open spec fn term_name(t: Term) -> Seq<char> {
    match t {
        Term::Exon => "exon"@,
        Term::Intron => "intron"@,
    }
}

/// `q` asks for the feature of `run` of `gene`, its bases upper-cased.
pub open spec fn is_request_for(gene: Seq<char>, run: AnnotatedRun, q: FeatureRequest) -> bool {
    &&& q.locus@ == gene
    &&& q.term@ == term_name(run.kind)
    &&& q.rank == run.rank
    &&& q.sequence@ == upper_text(run.bases@)
}

/// The name of a run's kind.
pub fn term_text(t: Term) -> (r: String)
    ensures
        r@ == term_name(t),
{
    match t {
        Term::Exon => "exon".to_string(),
        Term::Intron => "intron".to_string(),
    }
}

/// The lookup request for one run of `gene`.
pub fn feature_request(gene: &str, run: &AnnotatedRun) -> (r: FeatureRequest)
    ensures
        is_request_for(gene@, *run, r),
{
    FeatureRequest {
        locus: gene.to_string(),
        term: term_text(run.kind),
        rank: run.rank,
        sequence: to_upper(run.bases.as_str()),
    }
}

/// One lookup request per run, in run order.
pub fn feature_requests(gene: &str, runs: &Vec<AnnotatedRun>) -> (r: Vec<FeatureRequest>)
    ensures
        r.len() == runs.len(),
        forall|k: int| 0 <= k < runs.len() ==> is_request_for(gene@, runs@[k], #[trigger] r@[k]),
{
    let mut r: Vec<FeatureRequest> = Vec::new();
    let mut i: usize = 0;
    while i < runs.len()
        invariant
            i <= runs.len(),
            r.len() == i,
            forall|k: int| 0 <= k < i ==> is_request_for(gene@, runs@[k], #[trigger] r@[k]),
        decreases runs.len() - i,
    {
        r.push(feature_request(gene, &runs[i]));
        i = i + 1;
    }
    r
}

/// The decimal digit for `d`.
pub open spec fn digit(d: nat) -> char {
    if d == 0 {
        '0'
    } else if d == 1 {
        '1'
    } else if d == 2 {
        '2'
    } else if d == 3 {
        '3'
    } else if d == 4 {
        '4'
    } else if d == 5 {
        '5'
    } else if d == 6 {
        '6'
    } else if d == 7 {
        '7'
    } else if d == 8 {
        '8'
    } else {
        '9'
    }
}

/// `n` in decimal, without leading zeros.
pub open spec fn decimal(n: nat) -> Seq<char>
    decreases n,
{
    if n < 10 {
        seq![digit(n)]
    } else {
        decimal(n / 10).push(digit(n % 10))
    }
}

/// The numbers in decimal, joined by `'-'`.
pub open spec fn joined(ns: Seq<u32>) -> Seq<char>
    decreases ns.len(),
{
    if ns.len() == 0 {
        Seq::empty()
    } else if ns.len() == 1 {
        decimal(ns[0] as nat)
    } else {
        joined(ns.drop_last()) + seq!['-'] + decimal(ns.last() as nat)
    }
}

/// Empty when there are no numbers; else the gene, `'w'`, and the numbers
/// in decimal joined by `'-'`.
pub open spec fn gfe_text(gene: Seq<char>, ns: Seq<u32>) -> Seq<char> {
    if ns.len() == 0 {
        Seq::empty()
    } else {
        gene + seq!['w'] + joined(ns)
    }
}

pub open spec fn accession_numbers(d: Seq<FeatureAccession>) -> Seq<u32> {
    d.map_values(|a: FeatureAccession| a.accession)
}

/// The answer of an outcome, as a sequence of zero or one.
pub open spec fn answered(o: Option<FeatureAccession>) -> Seq<FeatureAccession> {
    match o {
        Some(a) => seq![a],
        None => Seq::empty(),
    }
}

/// The answers among the outcomes, in order; failed lookups leave nothing.
pub open spec fn collected(o: Seq<Option<FeatureAccession>>) -> Seq<FeatureAccession>
    decreases o.len(),
{
    if o.len() == 0 {
        Seq::empty()
    } else {
        collected(o.drop_last()) + answered(o.last())
    }
}

proof fn lemma_collected_concat(
    a: Seq<Option<FeatureAccession>>,
    b: Seq<Option<FeatureAccession>>,
)
    ensures
        collected(a + b) == collected(a) + collected(b),
    decreases b.len(),
{
    if b.len() == 0 {
        assert(a + b =~= a);
        assert(collected(b) =~= Seq::<FeatureAccession>::empty());
        assert(collected(a) + collected(b) =~= collected(a));
    } else {
        assert((a + b).drop_last() =~= a + b.drop_last());
        lemma_collected_concat(a, b.drop_last());
        assert(collected(a) + collected(b) =~= collected(a) + collected(b.drop_last()) + answered(
            b.last(),
        ));
    }
}

/// A failed lookup takes out its own answer and nothing else: the answers
/// of the other runs keep their order and their content, so the GFE string
/// lists the same accessions, in the same order, without that one.
pub proof fn lemma_dropped_lookup(o: Seq<Option<FeatureAccession>>, i: int)
    requires
        0 <= i < o.len(),
    ensures
        collected(o) == collected(o.take(i)) + answered(o[i]) + collected(o.skip(i + 1)),
        collected(o.update(i, None)) == collected(o.take(i)) + collected(o.skip(i + 1)),
        accession_numbers(collected(o.update(i, None))) == accession_numbers(collected(o.take(i)))
            + accession_numbers(collected(o.skip(i + 1))),
{
    let pre = o.take(i);
    let post = o.skip(i + 1);
    assert(o =~= pre + seq![o[i]] + post);
    assert(o.update(i, None) =~= pre + seq![None] + post);
    lemma_collected_concat(pre + seq![o[i]], post);
    lemma_collected_concat(pre, seq![o[i]]);
    lemma_collected_concat(pre + seq![None], post);
    lemma_collected_concat(pre, seq![None]);
    assert(seq![o[i]].drop_last() =~= Seq::<Option<FeatureAccession>>::empty());
    assert(seq![None::<FeatureAccession>].drop_last() =~= Seq::<Option<FeatureAccession>>::empty());
    assert(collected(Seq::<Option<FeatureAccession>>::empty()) =~= Seq::<FeatureAccession>::empty());
    assert(collected(seq![o[i]]) == collected(seq![o[i]].drop_last()) + answered(o[i]));
    assert(collected(seq![o[i]]) =~= answered(o[i]));
    let none_only = seq![None::<FeatureAccession>];
    assert(collected(none_only) == collected(none_only.drop_last()) + answered(None));
    assert(collected(seq![None::<FeatureAccession>]) =~= Seq::<FeatureAccession>::empty());
    assert(collected(pre) + Seq::<FeatureAccession>::empty() =~= collected(pre));
    assert(accession_numbers(collected(pre) + collected(post)) =~= accession_numbers(collected(pre))
        + accession_numbers(collected(post)));
}

fn digit_char(d: u32) -> (c: char)
    requires
        d < 10,
    ensures
        c == digit(d as nat),
{
    match d {
        0 => '0',
        1 => '1',
        2 => '2',
        3 => '3',
        4 => '4',
        5 => '5',
        6 => '6',
        7 => '7',
        8 => '8',
        _ => '9',
    }
}

/// Appends `n` in decimal.
pub fn push_decimal(out: &mut String, n: u32)
    ensures
        final(out)@ == old(out)@ + decimal(n as nat),
    decreases n,
{
    if n >= 10 {
        push_decimal(out, n / 10);
    }
    let d = digit_char(n % 10);
    push_char(out, d);
    assert(final(out)@ =~= old(out)@ + decimal(n as nat));
}

/// The GFE string of `gene` for these answers.
pub fn gfe_string(gene: &str, data: &Vec<FeatureAccession>) -> (r: String)
    ensures
        r@ == gfe_text(gene@, accession_numbers(data@)),
{
    let ghost ns = accession_numbers(data@);
    if data.len() == 0 {
        return String::new();
    }
    let mut r = gene.to_string();
    push_char(&mut r, 'w');
    let mut i: usize = 0;
    assert(ns.take(0) =~= Seq::<u32>::empty());
    while i < data.len()
        invariant
            ns == accession_numbers(data@),
            i <= data.len(),
            r@ == gene@ + seq!['w'] + joined(ns.take(i as int)),
        decreases data.len() - i,
    {
        assert(ns.take(i + 1).drop_last() =~= ns.take(i as int));
        if i > 0 {
            push_char(&mut r, '-');
        }
        push_decimal(&mut r, data[i].accession);
        assert(r@ =~= gene@ + seq!['w'] + joined(ns.take(i + 1)));
        i = i + 1;
    }
    assert(ns.take(data.len() as int) =~= ns);
    r
}

/// The result of a request whose input was rejected or aligned to nothing.
pub fn invalid_result(seq_name: &str) -> (r: GfeResult)
    ensures
        !r.valid_input,
        r.seq_name@ == seq_name@,
        r.data.len() == 0,
        r.gfe@.len() == 0,
{
    GfeResult {
        valid_input: false,
        seq_name: seq_name.to_string(),
        data: Vec::new(),
        gfe: String::new(),
    }
}

/// The result for `gene` once every run's lookup has an outcome (`None` for
/// a failed one): the answers in run order, and the GFE string made of them.
pub fn assemble(gene: &str, seq_name: &str, outcomes: &Vec<Option<FeatureAccession>>) -> (r:
    GfeResult)
    ensures
        r.valid_input,
        r.seq_name@ == seq_name@,
        r.data@ == collected(outcomes@),
        r.gfe@ == gfe_text(gene@, accession_numbers(collected(outcomes@))),
{
    let mut data: Vec<FeatureAccession> = Vec::new();
    let mut i: usize = 0;
    while i < outcomes.len()
        invariant
            i <= outcomes.len(),
            data@ == collected(outcomes@.take(i as int)),
        decreases outcomes.len() - i,
    {
        assert(outcomes@.take(i + 1).drop_last() =~= outcomes@.take(i as int));
        match &outcomes[i] {
            Some(a) => {
                data.push(a.duplicate());
            },
            None => {},
        }
        assert(data@ =~= collected(outcomes@.take(i + 1)));
        i = i + 1;
    }
    assert(outcomes@.take(outcomes.len() as int) =~= outcomes@);
    let gfe = gfe_string(gene, &data);
    GfeResult { valid_input: true, seq_name: seq_name.to_string(), data, gfe }
}

} // verus!
