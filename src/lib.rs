//! Turns an aligner's annotated-nucleotide output into typed exon/intron runs,
//! builds one feature lookup per run, and assembles the returned accessions
//! into a gene-feature-enumeration (GFE) string.
pub mod text;
pub mod segment;
pub mod run;
pub mod aligner;
pub mod registry;
pub mod gfe;
pub mod pipeline;
