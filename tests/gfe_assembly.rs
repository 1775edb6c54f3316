use dna2gfe::gfe::{
    assemble, feature_request, feature_requests, gfe_string, invalid_result, push_decimal,
    term_text, FeatureAccession,
};
use dna2gfe::pipeline::{on_aligner_output, on_lookups_done, on_request, DnaSeqInput, Step};
use dna2gfe::registry::is_supported;
use dna2gfe::run::{segment, AnnotatedRun, Term};

fn accession(gene: &str, accession: u32, term: &str, rank: u32, sequence: &str) -> FeatureAccession {
    FeatureAccession {
        locus: gene.to_string(),
        accession,
        term: term.to_string(),
        rank,
        sequence: sequence.to_string(),
    }
}

fn input(gene: &str, seq_name: &str, sequence: &str) -> DnaSeqInput {
    DnaSeqInput {
        gene_name: gene.to_string(),
        seq_name: seq_name.to_string(),
        sequence: sequence.to_string(),
    }
}

fn example_outcomes() -> Vec<Option<FeatureAccession>> {
    vec![
        Some(accession("TTYH1", 10, "exon", 1, "ACGT")),
        Some(accession("TTYH1", 20, "intron", 1, "ACGT")),
        Some(accession("TTYH1", 30, "exon", 2, "ACGT")),
    ]
}

#[test]
fn registry_members() {
    for g in [
        "CDC42EP5", "LILRA1", "LILRB1", "LILRB4", "LAIR1", "LENG8", "LILRA2", "LILRA5", "LILRB2",
        "LILRB5", "LAIR2", "LENG9", "LILRA3", "LILRA6", "LILRB3", "TTYH1", "LILRA4",
    ] {
        assert!(is_supported(g), "{}", g);
    }
}

#[test]
fn registry_non_members() {
    assert!(!is_supported("UNKNOWN_GENE"));
    assert!(!is_supported("ttyh1"));
    assert!(!is_supported("TTYH1 "));
    assert!(!is_supported(""));
}

#[test]
fn term_names() {
    assert_eq!(term_text(Term::Exon), "exon");
    assert_eq!(term_text(Term::Intron), "intron");
}

#[test]
fn feature_request_uppercases_bases() {
    let run = AnnotatedRun { kind: Term::Intron, rank: 3, bases: "gtaag".to_string() };
    let q = feature_request("TTYH1", &run);
    assert_eq!(q.locus, "TTYH1");
    assert_eq!(q.term, "intron");
    assert_eq!(q.rank, 3);
    assert_eq!(q.sequence, "GTAAG");
}

#[test]
fn feature_requests_follow_run_order() {
    let runs = segment("ACGTacgtACGT");
    let qs = feature_requests("TTYH1", &runs);
    let got: Vec<(String, u32, String)> =
        qs.iter().map(|q| (q.term.clone(), q.rank, q.sequence.clone())).collect();
    assert_eq!(
        got,
        vec![
            ("exon".to_string(), 1, "ACGT".to_string()),
            ("intron".to_string(), 1, "ACGT".to_string()),
            ("exon".to_string(), 2, "ACGT".to_string()),
        ]
    );
}

#[test]
fn decimal_digits() {
    let mut s = "x".to_string();
    push_decimal(&mut s, 0);
    push_decimal(&mut s, 7);
    push_decimal(&mut s, 1204);
    assert_eq!(s, "x071204");
    let mut m = String::new();
    push_decimal(&mut m, u32::MAX);
    assert_eq!(m, "4294967295");
}

#[test]
fn gfe_string_forms() {
    assert_eq!(gfe_string("TTYH1", &Vec::new()), "");
    assert_eq!(gfe_string("TTYH1", &vec![accession("TTYH1", 5, "exon", 1, "A")]), "TTYH1w5");
    let data: Vec<FeatureAccession> = example_outcomes().into_iter().flatten().collect();
    assert_eq!(gfe_string("TTYH1", &data), "TTYH1w10-20-30");
}

#[test]
fn assemble_example_gfe() {
    let r = assemble("TTYH1", "sample-1", &example_outcomes());
    assert!(r.valid_input);
    assert_eq!(r.seq_name, "sample-1");
    assert_eq!(r.gfe, "TTYH1w10-20-30");
    let accs: Vec<u32> = r.data.iter().map(|a| a.accession).collect();
    assert_eq!(accs, vec![10, 20, 30]);
}

#[test]
fn assemble_dropped_lookup_keeps_order_and_ranks() {
    let mut outcomes = example_outcomes();
    outcomes[1] = None;
    let r = assemble("TTYH1", "s", &outcomes);
    assert_eq!(r.gfe, "TTYH1w10-30");
    let got: Vec<(u32, String, u32)> =
        r.data.iter().map(|a| (a.accession, a.term.clone(), a.rank)).collect();
    assert_eq!(got, vec![(10, "exon".to_string(), 1), (30, "exon".to_string(), 2)]);
}

#[test]
fn assemble_no_answers_gives_empty_gfe() {
    let r = assemble("TTYH1", "s", &vec![None, None]);
    assert!(r.valid_input);
    assert!(r.data.is_empty());
    assert_eq!(r.gfe, "");
}

#[test]
fn invalid_result_is_empty() {
    let r = invalid_result("seq-9");
    assert!(!r.valid_input);
    assert_eq!(r.seq_name, "seq-9");
    assert!(r.data.is_empty());
    assert_eq!(r.gfe, "");
}

#[test]
fn unknown_gene_is_rejected() {
    match on_request(&input("UNKNOWN_GENE", "q1", "ACGTACGTACGT")) {
        Step::Respond(r) => {
            assert!(!r.valid_input);
            assert_eq!(r.seq_name, "q1");
            assert!(r.data.is_empty());
            assert_eq!(r.gfe, "");
        }
        _ => panic!("an unknown gene must be answered at once"),
    }
    assert!(matches!(on_request(&input("UNKNOWN_GENE", "q1", "")), Step::Respond(_)));
}

#[test]
fn known_gene_goes_to_aligner() {
    assert!(matches!(on_request(&input("TTYH1", "q1", "ACGT")), Step::Align));
}

#[test]
fn aligner_output_without_marker_is_rejected() {
    let lines = vec!["##gff-version 3".to_string()];
    match on_aligner_output(&input("TTYH1", "q2", "ACGT"), &lines) {
        Step::Respond(r) => {
            assert!(!r.valid_input);
            assert_eq!(r.seq_name, "q2");
            assert_eq!(r.gfe, "");
        }
        _ => panic!("no marker line means no alignment"),
    }
}

#[test]
fn aligner_output_of_gaps_only_is_rejected() {
    let lines = vec!["##ATN ----".to_string()];
    assert!(matches!(on_aligner_output(&input("TTYH1", "q", "A"), &lines), Step::Respond(_)));
}

#[test]
fn whole_request_example() {
    let req = input("TTYH1", "sample", "ACGTACGTACGT");
    assert!(matches!(on_request(&req), Step::Align));
    let lines = vec!["##gff-version 3".to_string(), "##ATN ACGT-acgtACGT".to_string()];
    match on_aligner_output(&req, &lines) {
        Step::Lookup { runs, requests } => {
            assert_eq!(runs.len(), 3);
            assert_eq!(requests.len(), 3);
            assert_eq!(requests[1].term, "intron");
            assert_eq!(requests[1].sequence, "ACGT");
            assert_eq!(requests[2].rank, 2);
        }
        _ => panic!("an alignment with runs needs lookups"),
    }
    let r = on_lookups_done(&req, &example_outcomes());
    assert!(r.valid_input);
    assert_eq!(r.seq_name, "sample");
    assert_eq!(r.gfe, "TTYH1w10-20-30");
}
