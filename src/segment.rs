//! Splitting annotated-nucleotide text into runs at case transitions.
use vstd::prelude::*;
use crate::text::{chars_of, is_lower, is_upper, lower_of, push_char, texts, upper_of};

verus! {

/// A run boundary falls between `prev` and `c` when the case flips.
pub open spec fn is_transition(prev: char, c: char) -> bool {
    (upper_of(c) && lower_of(prev)) || (lower_of(c) && upper_of(prev))
}

/// The pieces of `parts` written one after another.
pub open spec fn flatten(parts: Seq<Seq<char>>) -> Seq<char>
    decreases parts.len(),
{
    if parts.len() == 0 {
        Seq::empty()
    } else {
        flatten(parts.drop_last()) + parts.last()
    }
}

/// `parts` cuts `s` into maximal runs: in order, none empty, with a cut
/// exactly where the case flips between neighbouring chars.
pub open spec fn is_case_split(s: Seq<char>, parts: Seq<Seq<char>>) -> bool {
    &&& flatten(parts) == s
    &&& forall|k: int| 0 <= k < parts.len() ==> #[trigger] parts[k].len() > 0
    &&& forall|k: int, j: int|
        0 <= k < parts.len() && 0 < j < parts[k].len() ==> !is_transition(
            #[trigger] parts[k][j - 1],
            parts[k][j],
        )
    &&& forall|k: int|
        0 < k < parts.len() ==> is_transition(#[trigger] parts[k - 1].last(), parts[k][0])
}

/// No char of `s` is uppercase, or no char of `s` is lowercase.
pub open spec fn is_single_case(s: Seq<char>) -> bool {
    (forall|i: int| 0 <= i < s.len() ==> !upper_of(#[trigger] s[i])) || (forall|i: int|
        0 <= i < s.len() ==> !lower_of(#[trigger] s[i]))
}

proof fn lemma_flatten_push(parts: Seq<Seq<char>>, p: Seq<char>)
    ensures
        flatten(parts.push(p)) == flatten(parts) + p,
{
    assert(parts.push(p).drop_last() =~= parts);
}

/// Cuts `input` into maximal runs of same-case chars; a new run starts at
/// the first char and wherever the case flips between neighbours.
pub fn split_by_case_transition(input: &str) -> (r: Vec<String>)
    ensures
        is_case_split(input@, texts(r@)),
        input@.len() > 0 && is_single_case(input@) ==> r.len() == 1,
{
    let cs = chars_of(input);
    let n = cs.len();
    let mut result: Vec<String> = Vec::new();
    let mut current = String::new();
    let mut i: usize = 0;
    while i < n
        invariant
            cs@ == input@,
            n == cs.len(),
            i <= n,
            flatten(texts(result@)) + current@ == cs@.take(i as int),
            forall|k: int| 0 <= k < result.len() ==> #[trigger] result@[k]@.len() > 0,
            forall|k: int, j: int|
                0 <= k < result.len() && 0 < j < result@[k]@.len() ==> !is_transition(
                    #[trigger] result@[k]@[j - 1],
                    result@[k]@[j],
                ),
            forall|k: int|
                0 < k < result.len() ==> is_transition(
                    #[trigger] result@[k - 1]@.last(),
                    result@[k]@[0],
                ),
            forall|j: int| 0 < j < current@.len() ==> !is_transition(#[trigger] current@[j - 1], current@[j]),
            i == 0 ==> current@.len() == 0 && result.len() == 0,
            i > 0 ==> current@.len() > 0 && current@.last() == cs@[i - 1],
            result.len() > 0 && current@.len() > 0 ==> is_transition(
                result@.last()@.last(),
                current@[0],
            ),
            is_single_case(input@) ==> result.len() == 0,
        decreases n - i,
    {
        let ch = cs[i];
        let boundary = if i == 0 {
            true
        } else {
            let prev = cs[i - 1];
            (is_upper(ch) && is_lower(prev)) || (is_lower(ch) && is_upper(prev))
        };
        if boundary {
            if i > 0 {
                proof {
                    lemma_flatten_push(texts(result@), current@);
                    assert(texts(result@.push(current)) =~= texts(result@).push(current@));
                    if is_single_case(input@) {
                        assert(input@[i - 1] == cs@[i - 1]);
                        assert(input@[i as int] == cs@[i as int]);
                    }
                }
                result.push(current);
            }
            current = String::new();
        }
        push_char(&mut current, ch);
        assert(cs@.take(i + 1) =~= cs@.take(i as int).push(ch));
        i = i + 1;
    }
    if i > 0 {
        proof {
            lemma_flatten_push(texts(result@), current@);
            assert(texts(result@.push(current)) =~= texts(result@).push(current@));
        }
        result.push(current);
    }
    assert(cs@.take(n as int) =~= cs@);
    assert(texts(result@).len() == result.len());
    result
}

/// Alignment gaps removed: every char of `s` but `'-'`, in order.
pub open spec fn strip_gaps_spec(s: Seq<char>) -> Seq<char>
    decreases s.len(),
{
    if s.len() == 0 {
        Seq::empty()
    } else if s.last() == '-' {
        strip_gaps_spec(s.drop_last())
    } else {
        strip_gaps_spec(s.drop_last()).push(s.last())
    }
}

pub proof fn lemma_strip_gaps_len(s: Seq<char>)
    ensures
        strip_gaps_spec(s).len() <= s.len(),
    decreases s.len(),
{
    if s.len() > 0 {
        lemma_strip_gaps_len(s.drop_last());
    }
}

pub proof fn lemma_parts_len(parts: Seq<Seq<char>>)
    requires
        forall|k: int| 0 <= k < parts.len() ==> #[trigger] parts[k].len() > 0,
    ensures
        parts.len() <= flatten(parts).len(),
    decreases parts.len(),
{
    if parts.len() > 0 {
        assert(forall|k: int|
            0 <= k < parts.drop_last().len() ==> parts.drop_last()[k] == parts[k]);
        lemma_parts_len(parts.drop_last());
        assert(parts[parts.len() - 1].len() > 0);
    }
}

/// Removes every alignment gap `'-'` from `s`.
pub fn strip_gaps(s: &str) -> (r: String)
    ensures
        r@ == strip_gaps_spec(s@),
{
    let cs = chars_of(s);
    let n = cs.len();
    let mut r = String::new();
    let mut i: usize = 0;
    while i < n
        invariant
            cs@ == s@,
            n == cs.len(),
            i <= n,
            r@ == strip_gaps_spec(cs@.take(i as int)),
        decreases n - i,
    {
        let c = cs[i];
        assert(cs@.take(i + 1).drop_last() =~= cs@.take(i as int));
        if c != '-' {
            push_char(&mut r, c);
        }
        i = i + 1;
    }
    assert(cs@.take(n as int) =~= cs@);
    r
}

} // verus!
