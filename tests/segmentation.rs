use dna2gfe::aligner::{aligner_command, atn_field, fasta_text, find_atn};
use dna2gfe::run::{classify_runs, segment, AnnotatedRun, Term};
use dna2gfe::segment::{split_by_case_transition, strip_gaps};

fn strings(v: &[&str]) -> Vec<String> {
    v.iter().map(|s| s.to_string()).collect()
}

fn shape(runs: &[AnnotatedRun]) -> Vec<(Term, u32, String)> {
    runs.iter().map(|r| (r.kind, r.rank, r.bases.clone())).collect()
}

#[test]
fn split_three_runs() {
    assert_eq!(split_by_case_transition("ACGTacgtACGT"), strings(&["ACGT", "acgt", "ACGT"]));
}

#[test]
fn split_empty_input() {
    assert!(split_by_case_transition("").is_empty());
}

#[test]
fn split_single_char_runs() {
    assert_eq!(split_by_case_transition("AaBb"), strings(&["A", "a", "B", "b"]));
}

#[test]
fn split_caseless_chars_do_not_cut() {
    // a digit has no case, so neither side of it is a transition
    assert_eq!(split_by_case_transition("AC1gt"), strings(&["AC1gt"]));
    assert_eq!(split_by_case_transition("ac1GT"), strings(&["ac1GT"]));
}

#[test]
fn strip_gaps_removes_dashes_only() {
    assert_eq!(strip_gaps("AC-GT--ac-"), "ACGTac");
    assert_eq!(strip_gaps("---"), "");
    assert_eq!(strip_gaps("acgt"), "acgt");
}

#[test]
fn segment_example_runs() {
    let runs = segment("ACGTacgtACGT");
    assert_eq!(
        shape(&runs),
        vec![
            (Term::Exon, 1, "ACGT".to_string()),
            (Term::Intron, 1, "acgt".to_string()),
            (Term::Exon, 2, "ACGT".to_string()),
        ]
    );
}

#[test]
fn segment_reproduces_stripped_text() {
    let atn = "AT-Ggt--aagCC-Atag-TT";
    let runs = segment(atn);
    let joined: String = runs.iter().map(|r| r.bases.as_str()).collect();
    assert_eq!(joined, strip_gaps(atn));
    assert_eq!(joined, "ATGgtaagCCAtagTT");
    assert_eq!(runs.len(), 5);
}

#[test]
fn segment_ranks_count_per_kind() {
    let runs = segment("ACgtACgtAC");
    assert_eq!(
        shape(&runs),
        vec![
            (Term::Exon, 1, "AC".to_string()),
            (Term::Intron, 1, "gt".to_string()),
            (Term::Exon, 2, "AC".to_string()),
            (Term::Intron, 2, "gt".to_string()),
            (Term::Exon, 3, "AC".to_string()),
        ]
    );
}

#[test]
fn segment_starting_lowercase() {
    let runs = segment("ggTTaa");
    assert_eq!(
        shape(&runs),
        vec![
            (Term::Intron, 1, "gg".to_string()),
            (Term::Exon, 1, "TT".to_string()),
            (Term::Intron, 2, "aa".to_string()),
        ]
    );
}

#[test]
fn segment_all_lowercase_is_one_run() {
    let runs = segment("acgt-acgt");
    assert_eq!(shape(&runs), vec![(Term::Intron, 1, "acgtacgt".to_string())]);
}

#[test]
fn segment_all_uppercase_is_one_run() {
    let runs = segment("ACGTNNACGT");
    assert_eq!(shape(&runs), vec![(Term::Exon, 1, "ACGTNNACGT".to_string())]);
}

#[test]
fn segment_uppercase_non_base_start_is_intron() {
    let runs = segment("NACGTacgt");
    assert_eq!(
        shape(&runs),
        vec![(Term::Intron, 1, "NACGT".to_string()), (Term::Intron, 2, "acgt".to_string())]
    );
}

#[test]
fn segment_empty_and_gaps_only() {
    assert!(segment("").is_empty());
    assert!(segment("----").is_empty());
}

#[test]
fn classify_runs_by_first_char() {
    let runs = classify_runs(&strings(&["Gat", "cAT", "TTT", "x"]));
    assert_eq!(
        shape(&runs),
        vec![
            (Term::Exon, 1, "Gat".to_string()),
            (Term::Intron, 1, "cAT".to_string()),
            (Term::Exon, 2, "TTT".to_string()),
            (Term::Intron, 2, "x".to_string()),
        ]
    );
}

#[test]
fn atn_field_needs_marker_and_two_tokens() {
    assert_eq!(atn_field(&strings(&["##ATN", "ACgt"])), Some("ACgt".to_string()));
    assert_eq!(atn_field(&strings(&["##ATN", "ACgt", "extra"])), Some("ACgt".to_string()));
    assert_eq!(atn_field(&strings(&["##ATN"])), None);
    assert_eq!(atn_field(&strings(&["##PAF", "ACgt"])), None);
    assert_eq!(atn_field(&strings(&[])), None);
}

#[test]
fn find_atn_takes_first_marker_line() {
    let lines = strings(&[
        "##gff-version 3",
        "##ATN",
        "##PAF\tprot\t100",
        "##ATN  AC-Ggtaag\tignored",
        "##ATN TTTT",
    ]);
    assert_eq!(find_atn(&lines), Some("AC-Ggtaag".to_string()));
}

#[test]
fn find_atn_without_marker() {
    let lines = strings(&["##gff-version 3", "chr1\tminiprot\tmRNA"]);
    assert_eq!(find_atn(&lines), None);
    assert_eq!(find_atn(&Vec::new()), None);
}

#[test]
fn aligner_command_arguments() {
    let cmd = aligner_command("TTYH1", "/tmp/work/input.fa");
    assert_eq!(
        cmd,
        strings(&[
            "/opt/bin/miniprot",
            "/tmp/work/input.fa",
            "/opt/ref_data/TTYH1_prot.fa",
            "-j",
            "2",
            "--trans",
            "--aln",
            "--max-intron-out",
            "20000",
            "-G",
            "20000",
            "--outs=0.975",
            "--outc=0.8",
            "--gff",
        ])
    );
}

#[test]
fn fasta_text_one_record() {
    assert_eq!(fasta_text("LAIR1", "ACGTTGCA"), ">LAIR1\nACGTTGCA\n");
}
