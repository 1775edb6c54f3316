//! The aligner's invocation and the annotated-nucleotide line of its output.
use vstd::prelude::*;
use crate::text::{opt_text, same_text, split_tokens, texts, tokens_of};

verus! {

/// The first token of the line that carries the annotated nucleotides.
pub open spec fn atn_marker() -> Seq<char> {
    seq!['#', '#', 'A', 'T', 'N']
}

/// The annotated-nucleotide string that a line's tokens carry, if the line
/// is the marker line: at least two tokens, the first being the marker.
pub open spec fn atn_of_tokens(t: Seq<Seq<char>>) -> Option<Seq<char>> {
    if t.len() >= 2 && t[0] == atn_marker() {
        Some(t[1])
    } else {
        None
    }
}

/// The annotated-nucleotide string of the first marker line, if any.
pub open spec fn atn_of_lines(lines: Seq<Seq<char>>) -> Option<Seq<char>>
    decreases lines.len(),
{
    if lines.len() == 0 {
        None
    } else {
        match atn_of_tokens(tokens_of(lines[0])) {
            Some(a) => Some(a),
            None => atn_of_lines(lines.drop_first()),
        }
    }
}

/// The second token when the first one is the marker and there are two.
pub fn atn_field(tokens: &Vec<String>) -> (r: Option<String>)
    ensures
        opt_text(r) == atn_of_tokens(texts(tokens@)),
{
    if tokens.len() < 2 {
        return None;
    }
    proof {
        reveal_strlit("##ATN");
    }
    let marker = "##ATN";
    assert(marker@ =~= atn_marker());
    if same_text(tokens[0].as_str(), marker) {
        Some(tokens[1].clone())
    } else {
        None
    }
}

/// Scans the aligner's output lines for the first marker line and returns
/// its annotated-nucleotide string; every other line is ignored.
pub fn find_atn(lines: &Vec<String>) -> (r: Option<String>)
    ensures
        opt_text(r) == atn_of_lines(texts(lines@)),
        r matches Some(a) ==> exists|i: int|
            0 <= i < lines.len() && a@.len() <= (#[trigger] lines@[i])@.len(),
{
    let n = lines.len();
    let mut i: usize = 0;
    assert(texts(lines@).skip(0) =~= texts(lines@));
    while i < n
        invariant
            n == lines.len(),
            i <= n,
            atn_of_lines(texts(lines@)) == atn_of_lines(texts(lines@).skip(i as int)),
        decreases n - i,
    {
        let tokens = split_tokens(lines[i].as_str());
        let found = atn_field(&tokens);
        proof {
            let rest = texts(lines@).skip(i as int);
            assert(rest[0] == lines@[i as int]@);
            assert(rest.drop_first() =~= texts(lines@).skip(i + 1));
        }
        if let Some(a) = found {
            assert(tokens@[1]@.len() <= lines@[i as int]@.len());
            return Some(a);
        }
        i = i + 1;
    }
    assert(texts(lines@).skip(n as int).len() == 0);
    None
}

/// The aligner's reference protein file for a gene.
pub open spec fn reference_path(gene: Seq<char>) -> Seq<char> {
    "/opt/ref_data/"@ + gene + "_prot.fa"@
}

/// The aligner's program followed by its arguments: translated alignment of
/// the FASTA input against the gene's reference protein, introns of at most
/// 20000 bases, fixed splice and intron score thresholds, GFF output.
pub open spec fn aligner_command_spec(gene: Seq<char>, fasta_path: Seq<char>) -> Seq<Seq<char>> {
    seq![
        "/opt/bin/miniprot"@,
        fasta_path,
        reference_path(gene),
        "-j"@,
        "2"@,
        "--trans"@,
        "--aln"@,
        "--max-intron-out"@,
        "20000"@,
        "-G"@,
        "20000"@,
        "--outs=0.975"@,
        "--outc=0.8"@,
        "--gff"@,
    ]
}

/// The FASTA text holding one record: the gene as its header, then the sequence.
pub open spec fn fasta_spec(gene: Seq<char>, sequence: Seq<char>) -> Seq<char> {
    ">"@ + gene + "\n"@ + sequence + "\n"@
}

/// The program and arguments that align `fasta_path` against `gene`'s reference.
pub fn aligner_command(gene: &str, fasta_path: &str) -> (r: Vec<String>)
    ensures
        texts(r@) == aligner_command_spec(gene@, fasta_path@),
{
    let mut reference = "/opt/ref_data/".to_string();
    reference.append(gene);
    reference.append("_prot.fa");
    let r = vec![
        "/opt/bin/miniprot".to_string(),
        fasta_path.to_string(),
        reference,
        "-j".to_string(),
        "2".to_string(),
        "--trans".to_string(),
        "--aln".to_string(),
        "--max-intron-out".to_string(),
        "20000".to_string(),
        "-G".to_string(),
        "20000".to_string(),
        "--outs=0.975".to_string(),
        "--outc=0.8".to_string(),
        "--gff".to_string(),
    ];
    assert(texts(r@) =~= aligner_command_spec(gene@, fasta_path@));
    r
}

/// The aligner's FASTA input for one sequence of `gene`.
pub fn fasta_text(gene: &str, sequence: &str) -> (r: String)
    ensures
        r@ == fasta_spec(gene@, sequence@),
{
    let mut r = ">".to_string();
    r.append(gene);
    r.append("\n");
    r.append(sequence);
    r.append("\n");
    r
}

} // verus!
