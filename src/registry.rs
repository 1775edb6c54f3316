//! The fixed set of gene symbols that requests may name.
use vstd::prelude::*;
use crate::text::same_text;

verus! {

/// Whether `g` is one of the supported gene symbols.
pub open spec fn is_supported_gene(g: Seq<char>) -> bool {
    ||| g == "CDC42EP5"@
    ||| g == "LILRA1"@
    ||| g == "LILRB1"@
    ||| g == "LILRB4"@
    ||| g == "LAIR1"@
    ||| g == "LENG8"@
    ||| g == "LILRA2"@
    ||| g == "LILRA5"@
    ||| g == "LILRB2"@
    ||| g == "LILRB5"@
    ||| g == "LAIR2"@
    ||| g == "LENG9"@
    ||| g == "LILRA3"@
    ||| g == "LILRA6"@
    ||| g == "LILRB3"@
    ||| g == "TTYH1"@
    ||| g == "LILRA4"@
}

/// Whether `gene` is a supported gene symbol.
pub fn is_supported(gene: &str) -> (r: bool)
    ensures
        r == is_supported_gene(gene@),
{
    same_text(gene, "CDC42EP5") || same_text(gene, "LILRA1") || same_text(gene, "LILRB1")
        || same_text(gene, "LILRB4") || same_text(gene, "LAIR1") || same_text(gene, "LENG8")
        || same_text(gene, "LILRA2") || same_text(gene, "LILRA5") || same_text(gene, "LILRB2")
        || same_text(gene, "LILRB5") || same_text(gene, "LAIR2") || same_text(gene, "LENG9")
        || same_text(gene, "LILRA3") || same_text(gene, "LILRA6") || same_text(gene, "LILRB3")
        || same_text(gene, "TTYH1") || same_text(gene, "LILRA4")
}

} // verus!
