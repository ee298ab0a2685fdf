//! The compiled multi-pattern matcher, provided by the `aho_corasick` crate.

use aho_corasick::{AhoCorasick, BuildError};
use vstd::prelude::*;

use crate::text::{occurs_in, strings_view};

verus! {

#[verifier::external_type_specification]
#[verifier::external_body]
pub struct ExAhoCorasick(AhoCorasick);

#[verifier::external_type_specification]
#[verifier::external_body]
pub struct ExBuildError(BuildError);

/// The patterns an automaton was compiled from, in id order.
pub uninterp spec fn compiled_patterns(ac: AhoCorasick) -> Seq<Seq<char>>;

/// Whether `AhoCorasick::new` succeeds on these patterns; its limits on the
/// size of an automaton are not part of its public contract.
pub uninterp spec fn builds(patterns: Seq<Seq<char>>) -> bool;

/// The pattern ids of all overlapping matches of `patterns` in `text`, in the
/// order the automaton reports them.
pub uninterp spec fn overlapping_match_ids(patterns: Seq<Seq<char>>, text: Seq<char>) -> Seq<usize>;

/// How many times `p` occurs in `t`, counting overlapping occurrences.
pub open spec fn count_occurrences(p: Seq<char>, t: Seq<char>) -> nat
    decreases t.len(),
{
    if t.len() == 0 || t.len() < p.len() {
        0
    } else {
        (if t.take(p.len() as int) == p { 1nat } else { 0nat }) + count_occurrences(p, t.drop_first())
    }
}

/// Relies on `AhoCorasick::new`: with the default configuration (standard
/// match semantics, unanchored search) it compiles exactly the given patterns,
/// the pattern at position `i` getting id `i`, or fails with a `BuildError`.
#[verifier::external_body]
pub(crate) fn compile(patterns: &Vec<String>) -> (r: Result<AhoCorasick, BuildError>)
    ensures
        r is Ok == builds(strings_view(patterns@)),
        r matches Ok(ac) ==> compiled_patterns(ac) == strings_view(patterns@),
{
    AhoCorasick::new(patterns)
}

/// Relies on `AhoCorasick::find_overlapping_iter`: it reports every match of
/// every pattern at every position, each with the id of its pattern. It does
/// not panic on an automaton built with standard match semantics. A
/// non-empty pattern is reported once per occurrence (an empty one is
/// reported at every byte position, which need not be a character position).
#[verifier::external_body]
pub(crate) fn find_overlapping_ids(ac: &AhoCorasick, text: &str) -> (r: Vec<usize>)
    ensures
        r@ == overlapping_match_ids(compiled_patterns(*ac), text@),
        forall|k: int|
            0 <= k < r.len() ==> (#[trigger] r[k]) < compiled_patterns(*ac).len() && occurs_in(
                compiled_patterns(*ac)[r[k] as int],
                text@,
            ),
        forall|id: int|
            0 <= id < compiled_patterns(*ac).len() && occurs_in(
                #[trigger] compiled_patterns(*ac)[id],
                text@,
            ) ==> r@.contains(id as usize),
        forall|id: int|
            0 <= id < compiled_patterns(*ac).len() && compiled_patterns(*ac)[id].len() > 0 ==> r@.filter(
                |x: usize| x == id as usize,
            ).len() == count_occurrences(#[trigger] compiled_patterns(*ac)[id], text@),
{
    ac.find_overlapping_iter(text).map(|m| m.pattern().as_usize()).collect()
}

} // verus!
