//! The decisions of one GFE request, from the input to the response. The
//! caller performs each step's outside work (running the aligner, sending
//! the lookups) and hands back what came of it.
use vstd::prelude::*;
use crate::aligner::{atn_of_lines, find_atn};
use crate::gfe::{
    accession_numbers, assemble, collected, feature_requests, gfe_text, invalid_result,
    is_request_for, FeatureAccession, FeatureRequest, GfeResult,
};
use crate::registry::{is_supported, is_supported_gene};
use crate::run::{bases, is_ranked, segment, AnnotatedRun};
use crate::segment::{is_case_split, strip_gaps_spec};
use crate::text::texts;

verus! {

/// An inbound request: a gene symbol, a name for the sequence, and the
/// raw DNA sequence.
pub struct DnaSeqInput {
    pub gene_name: String,
    pub seq_name: String,
    pub sequence: String,
}

/// What the request needs next.
pub enum Step {
    /// Answer with this result; nothing more is done.
    Respond(GfeResult),
    /// Run the aligner on the sequence and report its output lines.
    Align,
    /// Send the lookups, one per run and in run order, and report each
    /// one's outcome.
    Lookup { runs: Vec<AnnotatedRun>, requests: Vec<FeatureRequest> },
}

/// The short-circuit answer: not valid, no data, an empty GFE string.
pub open spec fn is_rejection(r: GfeResult, seq_name: Seq<char>) -> bool {
    &&& !r.valid_input
    &&& r.seq_name@ == seq_name
    &&& r.data.len() == 0
    &&& r.gfe@.len() == 0
}

/// A request for an unsupported gene is answered at once with a rejection,
/// whatever its sequence; any other goes to the aligner.
pub fn on_request(input: &DnaSeqInput) -> (r: Step)
    ensures
        !is_supported_gene(input.gene_name@) <==> r is Respond,
        r matches Step::Respond(g) ==> is_rejection(g, input.seq_name@),
        is_supported_gene(input.gene_name@) <==> r is Align,
{
    if !is_supported(input.gene_name.as_str()) {
        Step::Respond(invalid_result(input.seq_name.as_str()))
    } else {
        Step::Align
    }
}

/// From the aligner's output lines: a rejection when no marker line is
/// found or its annotated string holds no bases once gaps are removed;
/// otherwise one lookup per run, in run order.
pub fn on_aligner_output(input: &DnaSeqInput, lines: &Vec<String>) -> (r: Step)
    requires
        forall|i: int| 0 <= i < lines.len() ==> (#[trigger] lines@[i])@.len() < u32::MAX,
    ensures
        !(r is Align),
        r matches Step::Respond(g) ==> is_rejection(g, input.seq_name@),
        r is Respond <==> match atn_of_lines(texts(lines@)) {
            None => true,
            Some(a) => strip_gaps_spec(a).len() == 0,
        },
        r matches Step::Lookup { runs, requests } ==> {
            &&& atn_of_lines(texts(lines@)) matches Some(a)
            &&& is_case_split(strip_gaps_spec(a), bases(runs@))
            &&& is_ranked(runs@)
            &&& requests.len() == runs.len()
            &&& forall|k: int|
                0 <= k < runs.len() ==> is_request_for(
                    input.gene_name@,
                    runs@[k],
                    #[trigger] requests@[k],
                )
        },
{
    let atn = find_atn(lines);
    match atn {
        None => Step::Respond(invalid_result(input.seq_name.as_str())),
        Some(a) => {
            let runs = segment(a.as_str());
            if runs.len() == 0 {
                proof {
                    assert(bases(runs@).len() == 0);
                }
                Step::Respond(invalid_result(input.seq_name.as_str()))
            } else {
                let requests = feature_requests(input.gene_name.as_str(), &runs);
                Step::Lookup { runs, requests }
            }
        },
    }
}

/// The response once every lookup has an outcome, in run order (`None` for
/// a failed one).
pub fn on_lookups_done(input: &DnaSeqInput, outcomes: &Vec<Option<FeatureAccession>>) -> (r:
    GfeResult)
    ensures
        r.valid_input,
        r.seq_name@ == input.seq_name@,
        r.data@ == collected(outcomes@),
        r.gfe@ == gfe_text(input.gene_name@, accession_numbers(collected(outcomes@))),
{
    assemble(input.gene_name.as_str(), input.seq_name.as_str(), outcomes)
}

} // verus!
