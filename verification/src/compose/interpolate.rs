//! Interpolation with the lookups composition uses.

use vstd::prelude::*;
use vstd::string::*;

use crate::compose_error::{ComposeError, ComposeErrorV};
use crate::deep::outcome;
use crate::interp::{
    answer_outcomes, answered_by, answers_end, concluded, consulted, filled, given_by,
    law_answers_of_a_function_resolve, resolve_with, resolved, text_outcome,
};

verus! {

/// The answer to one binding, seen through the views of its two sides.
pub open spec fn answer_view(r: Result<Option<String>, ComposeError>) -> Result<
    Option<Seq<char>>,
    ComposeErrorV,
> {
    match r {
        Ok(answer) => Ok(answer.deep_view()),
        Err(error) => Err(error.deep_view()),
    }
}

/// What answers the bindings inside a string.
pub trait BindingLookup {
    /// The answer to each binding.
    spec fn answers(&self) -> spec_fn(Seq<char>) -> Result<Option<Seq<char>>, ComposeErrorV>;

    /// Answers one binding.
    fn answer(&self, binding: &str) -> (r: Result<Option<String>, ComposeError>)
        ensures
            answer_view(r) == (self.answers())(binding@),
    ;
}

proof fn lemma_answers_seen(
    s: Seq<char>,
    lookup: spec_fn(Seq<char>) -> Result<Option<Seq<char>>, ComposeErrorV>,
    got: Seq<Result<Option<String>, ComposeError>>,
)
    requires
        forall|k: int| 0 <= k < got.len() ==> given_by(
            lookup,
            s,
            k,
            answer_view(#[trigger] got[k]),
        ),
        answers_end(s, got),
    ensures
        match concluded(s, answer_outcomes(got)) {
            Ok(text) => resolved(s, lookup) == Ok::<Seq<char>, ComposeErrorV>(text),
            Err(error) => resolved(s, lookup) == Err::<Seq<char>, ComposeErrorV>(
                error.deep_view(),
            ),
        },
{
    let seen = got.map_values(|answer: Result<Option<String>, ComposeError>| answer_view(answer));
    assert forall|k: int| 0 <= k < seen.len() implies given_by(
        lookup,
        s,
        k,
        #[trigger] seen[k],
    ) by {
        assert(given_by(lookup, s, k, answer_view(got[k])));
    }
    assert forall|k: int| 0 <= k < seen.len() - 1 implies #[trigger] seen[k] is Ok by {
        assert(got[k] is Ok);
    }
    law_answers_of_a_function_resolve(s, lookup, seen);
    if !(got.len() > 0 && got.last() is Err) {
        lemma_filled_alike(s, got);
    }
}

proof fn lemma_filled_alike(s: Seq<char>, got: Seq<Result<Option<String>, ComposeError>>)
    ensures
        filled(s, answer_outcomes(got)) == filled(
            s,
            got.map_values(|answer: Result<Option<String>, ComposeError>| answer_view(answer)),
        ),
    decreases got.len(),
{
    if got.len() > 0 {
        let seen = got.map_values(
            |answer: Result<Option<String>, ComposeError>| answer_view(answer),
        );
        let before = got.drop_last();
        lemma_filled_alike(s, before);
        assert(answer_outcomes(got).drop_last() =~= answer_outcomes(before));
        assert(seen.drop_last() =~= before.map_values(
            |answer: Result<Option<String>, ComposeError>| answer_view(answer),
        ));
    }
}

/// Rewrites every binding in `text` by what `lookup` answers.
pub(crate) fn resolve_by<L: BindingLookup>(text: &str, lookup: &L) -> (r: Result<
    String,
    ComposeError,
>)
    ensures
        outcome(r) == resolved(text@, lookup.answers()),
{
    let answer = |binding: &str| -> (r: Result<Option<String>, ComposeError>)
        ensures
            answer_view(r) == (lookup.answers())(binding@),
        { lookup.answer(binding) };
    let r = resolve_with(text, answer);
    proof {
        let got = choose|got: Seq<Result<Option<String>, ComposeError>>| #[trigger]
            consulted(answer, text@, got) && text_outcome(r) == concluded(
                text@,
                answer_outcomes(got),
            );
        assert forall|k: int| 0 <= k < got.len() implies given_by(
            lookup.answers(),
            text@,
            k,
            answer_view(#[trigger] got[k]),
        ) by {
            assert(answered_by(answer, text@, k, got[k]));
        }
        lemma_answers_seen(text@, lookup.answers(), got);
    }
    r
}

} // verus!
