//! The one scanner for `{{binding}}` interpolation inside string
//! content. Composition resolves the bindings that name a template's
//! parameters or a declaration's field and leaves the others, as written,
//! for a later stage.

use vstd::prelude::*;
use vstd::string::*;

use crate::text::chars_of;

verus! {

/// Where `c` first stands twice in a row at or after `from`, or the
/// length of `s` if it does so nowhere.
pub open spec fn pair_at(s: Seq<char>, c: char, from: int) -> int
    decreases s.len() - from,
{
    if from + 1 >= s.len() {
        s.len() as int
    } else if s[from] == c && s[from + 1] == c {
        from
    } else {
        pair_at(s, c, from + 1)
    }
}

/// The places of the `{{` and the `}}` of the first binding at or after
/// `from`, if there is one: an unclosed `{{` is ordinary text.
pub open spec fn binding_at(s: Seq<char>, from: int) -> Option<(int, int)> {
    let open = pair_at(s, '{', from);
    let close = pair_at(s, '}', open + 2);
    if from <= open && open + 2 <= close && close + 2 <= s.len() {
        Some((open, close))
    } else {
        None
    }
}

/// What stands for a binding once `lookup` has answered: the value it
/// gave, or the binding as written.
pub open spec fn answer_text(binding: Seq<char>, answer: Option<Seq<char>>) -> Seq<char> {
    match answer {
        Some(value) => value,
        None => "{{"@ + binding + "}}"@,
    }
}

/// The rest of `s` from `from` on with every binding in it answered by
/// `lookup`, behind what was resolved before it; the first error ends it.
pub open spec fn resolved_from<E>(
    s: Seq<char>,
    from: int,
    lookup: spec_fn(Seq<char>) -> Result<Option<Seq<char>>, E>,
    before: Seq<char>,
) -> Result<Seq<char>, E>
    decreases s.len() - from,
{
    match binding_at(s, from) {
        Some((open, close)) => {
            let binding = s.subrange(open + 2, close);
            match lookup(binding) {
                Err(error) => Err(error),
                Ok(answer) => resolved_from(
                    s,
                    close + 2,
                    lookup,
                    before + s.subrange(from, open) + answer_text(binding, answer),
                ),
            }
        },
        None => Ok(before + s.subrange(from, s.len() as int)),
    }
}

/// A text with every binding in it answered by `lookup`.
pub open spec fn resolved<E>(
    s: Seq<char>,
    lookup: spec_fn(Seq<char>) -> Result<Option<Seq<char>>, E>,
) -> Result<Seq<char>, E> {
    resolved_from(s, 0, lookup, Seq::empty())
}

/// A text-or-error, with the text as its characters.
pub open spec fn text_outcome<E>(r: Result<String, E>) -> Result<Seq<char>, E> {
    match r {
        Ok(text) => Ok(text@),
        Err(error) => Err(error),
    }
}

/// The answer to one binding, with the text as its characters.
pub open spec fn answer_outcome<E>(r: Result<Option<String>, E>) -> Result<Option<Seq<char>>, E> {
    match r {
        Ok(answer) => Ok(answer.deep_view()),
        Err(error) => Err(error),
    }
}

/// Whether `lookup` answers every binding as the function `answers` says.
pub open spec fn answers_as<E, F: Fn(&str) -> Result<Option<String>, E>>(
    lookup: F,
    answers: spec_fn(Seq<char>) -> Result<Option<Seq<char>>, E>,
) -> bool {
    forall|binding: &str, r: Result<Option<String>, E>|
        call_ensures(lookup, (binding,), r) ==> answer_outcome(r) == answers(binding@)
}

/// The position behind the first `n` bindings of `s`.
pub open spec fn behind(s: Seq<char>, n: nat) -> int
    decreases n,
{
    if n == 0 {
        0
    } else {
        match binding_at(s, behind(s, (n - 1) as nat)) {
            Some((_, close)) => close + 2,
            None => s.len() as int,
        }
    }
}

/// Binding number `k` of `s`, counted from the left: exactly what stands
/// between its braces.
pub open spec fn binding_text(s: Seq<char>, k: nat) -> Option<Seq<char>> {
    match binding_at(s, behind(s, k)) {
        Some((open, close)) => Some(s.subrange(open + 2, close)),
        None => None,
    }
}

/// The text up to the end of the last binding that is answered, with each
/// answer in its place.
pub open spec fn filled<E>(
    s: Seq<char>,
    answers: Seq<Result<Option<Seq<char>>, E>>,
) -> Seq<char>
    decreases answers.len(),
{
    if answers.len() == 0 {
        Seq::empty()
    } else {
        let from = behind(s, (answers.len() - 1) as nat);
        match (binding_at(s, from), answers.last()) {
            (Some((open, close)), Ok(answer)) => filled(s, answers.drop_last()) + s.subrange(
                from,
                open,
            ) + answer_text(s.subrange(open + 2, close), answer),
            _ => Seq::empty(),
        }
    }
}

/// What a text comes to, given the answers to its bindings from the left:
/// the error, where the last answer is one, and else the text with every
/// binding answered.
pub open spec fn concluded<E>(
    s: Seq<char>,
    answers: Seq<Result<Option<Seq<char>>, E>>,
) -> Result<Seq<char>, E> {
    if answers.len() > 0 && answers.last() is Err {
        Err(answers.last()->Err_0)
    } else {
        Ok(filled(s, answers) + s.subrange(behind(s, answers.len()), s.len() as int))
    }
}

/// Whether answers come to an end where they have to: at the first error,
/// or else behind the last binding.
pub open spec fn answers_end<E, A>(s: Seq<char>, answers: Seq<Result<A, E>>) -> bool {
    &&& forall|k: int| 0 <= k < answers.len() - 1 ==> #[trigger] answers[k] is Ok
    &&& answers.len() == 0 || answers.last() is Ok ==> binding_text(s, answers.len()) is None
}

/// Whether a call of `lookup` on binding number `k` of `s` can give this
/// answer.
pub open spec fn answered_by<E, F: Fn(&str) -> Result<Option<String>, E>>(
    lookup: F,
    s: Seq<char>,
    k: int,
    answer: Result<Option<String>, E>,
) -> bool {
    exists|name: &str|
        Some(name@) == binding_text(s, k as nat) && #[trigger] call_ensures(
            lookup,
            (name,),
            answer,
        )
}

/// Whether a function gives this answer to binding number `k` of `s`.
pub open spec fn given_by<E>(
    lookup: spec_fn(Seq<char>) -> Result<Option<Seq<char>>, E>,
    s: Seq<char>,
    k: int,
    answer: Result<Option<Seq<char>>, E>,
) -> bool {
    match binding_text(s, k as nat) {
        Some(binding) => answer == lookup(binding),
        None => false,
    }
}

/// Whether these are answers of `lookup` to the bindings of `s`: one call
/// for each, from the left, up to the first error.
pub open spec fn consulted<E, F: Fn(&str) -> Result<Option<String>, E>>(
    lookup: F,
    s: Seq<char>,
    answers: Seq<Result<Option<String>, E>>,
) -> bool {
    &&& forall|k: int|
        0 <= k < answers.len() ==> answered_by(lookup, s, k, #[trigger] answers[k])
    &&& answers_end(s, answers)
}

/// Answers, with their texts as characters.
pub open spec fn answer_outcomes<E>(answers: Seq<Result<Option<String>, E>>) -> Seq<
    Result<Option<Seq<char>>, E>,
> {
    answers.map_values(|answer: Result<Option<String>, E>| answer_outcome(answer))
}

proof fn lemma_resolved_steps<E>(
    s: Seq<char>,
    lookup: spec_fn(Seq<char>) -> Result<Option<Seq<char>>, E>,
    answers: Seq<Result<Option<Seq<char>>, E>>,
)
    requires
        forall|k: int|
            0 <= k < answers.len() ==> given_by(lookup, s, k, #[trigger] answers[k]),
        forall|k: int| 0 <= k < answers.len() ==> #[trigger] answers[k] is Ok,
    ensures
        resolved(s, lookup) == resolved_from(
            s,
            behind(s, answers.len()),
            lookup,
            filled(s, answers),
        ),
    decreases answers.len(),
{
    if answers.len() > 0 {
        let before = answers.drop_last();
        let k = answers.len() - 1;
        assert forall|j: int| 0 <= j < before.len() implies given_by(
            lookup,
            s,
            j,
            #[trigger] before[j],
        ) by {
            assert(before[j] == answers[j]);
        }
        assert forall|j: int| 0 <= j < before.len() implies #[trigger] before[j] is Ok by {
            assert(before[j] == answers[j]);
        }
        lemma_resolved_steps(s, lookup, before);
        assert(given_by(lookup, s, k, answers[k]));
    }
}

/// Answers that a function gives to the bindings of a text, up to the
/// first error, come to what resolving the text by that function does.
pub proof fn law_answers_of_a_function_resolve<E>(
    s: Seq<char>,
    lookup: spec_fn(Seq<char>) -> Result<Option<Seq<char>>, E>,
    answers: Seq<Result<Option<Seq<char>>, E>>,
)
    requires
        forall|k: int|
            0 <= k < answers.len() ==> given_by(lookup, s, k, #[trigger] answers[k]),
        answers_end(s, answers),
    ensures
        concluded(s, answers) == resolved(s, lookup),
{
    if answers.len() > 0 && answers.last() is Err {
        let before = answers.drop_last();
        let k = answers.len() - 1;
        assert forall|j: int| 0 <= j < before.len() implies given_by(
            lookup,
            s,
            j,
            #[trigger] before[j],
        ) by {
            assert(before[j] == answers[j]);
        }
        assert forall|j: int| 0 <= j < before.len() implies #[trigger] before[j] is Ok by {
            assert(before[j] == answers[j]);
        }
        lemma_resolved_steps(s, lookup, before);
        assert(given_by(lookup, s, k, answers[k]));
    } else {
        assert forall|j: int| 0 <= j < answers.len() implies #[trigger] answers[j] is Ok by {
            if j == answers.len() - 1 {
                assert(answers[j] == answers.last());
            }
        }
        lemma_resolved_steps(s, lookup, answers);
    }
}

proof fn lemma_pair_at(s: Seq<char>, c: char, from: int)
    requires
        0 <= from,
    ensures
        pair_at(s, c, from) < s.len() ==> from <= pair_at(s, c, from) && pair_at(s, c, from) + 2
            <= s.len() && s[pair_at(s, c, from)] == c && s[pair_at(s, c, from) + 1] == c,
        pair_at(s, c, from) <= s.len(),
        forall|k: int|
            from <= k < pair_at(
                s,
                c,
                from,
            ) && k + 1 < s.len() ==> !(#[trigger] s[k] == c && s[k + 1]
                == c),
    decreases s.len() - from,
{
    if from + 1 < s.len() && !(s[from] == c && s[from + 1] == c) {
        lemma_pair_at(s, c, from + 1);
    }
}

fn find_pair(chars: &Vec<char>, c: char, from: usize) -> (r: usize)
    requires
        from <= chars@.len(),
    ensures
        r == pair_at(chars@, c, from as int),
        r <= chars@.len(),
{
    let mut i: usize = from;
    while i < chars.len() && i < chars.len() - 1
        invariant
            from <= i <= chars@.len(),
            pair_at(chars@, c, from as int) == pair_at(chars@, c, i as int),
        decreases chars@.len() - i,
    {
        if chars[i] == c && chars[i + 1] == c {
            return i;
        }
        i = i + 1;
    }
    chars.len()
}

/// Finds the first binding at or after `from`.
pub(crate) fn next_binding(chars: &Vec<char>, from: usize) -> (r: Option<(usize, usize)>)
    requires
        from <= chars@.len(),
    ensures
        match r {
            Some((open, close)) => binding_at(chars@, from as int) == Some(
                (open as int, close as int),
            ) && from <= open && open + 2 <= close && close + 2 <= chars@.len(),
            None => binding_at(chars@, from as int) is None,
        },
{
    let open = find_pair(chars, '{', from);
    proof {
        lemma_pair_at(chars@, '{', from as int);
    }
    if open == chars.len() {
        return None;
    }
    let close = find_pair(chars, '}', open + 2);
    proof {
        lemma_pair_at(chars@, '}', open + 2);
    }
    if close == chars.len() {
        return None;
    }
    Some((open, close))
}

/// Rewrites every `{{binding}}` in `text` by handing its name to
/// `lookup`, which answers with the value that takes its place, with
/// nothing to leave it as written, or with an error, which ends it all.
///
/// `lookup` is called once for each binding, from the left, and not again
/// after an error. Of a lookup whose answers are a function of the binding
/// the result is fixed by that function.
pub fn resolve_with<E, F: Fn(&str) -> Result<Option<String>, E>>(text: &str, lookup: F) -> (r:
    Result<String, E>)
    requires
        forall|binding: &str| call_requires(lookup, (binding,)),
    ensures
        exists|answers: Seq<Result<Option<String>, E>>| #[trigger]
            consulted(lookup, text@, answers) && text_outcome(r) == concluded(
                text@,
                answer_outcomes(answers),
            ),
        forall|answers: spec_fn(Seq<char>) -> Result<Option<Seq<char>>, E>| #[trigger]
            answers_as(lookup, answers) ==> text_outcome(r) == resolved(text@, answers),
{
    let chars = chars_of(text);
    let mut out = String::new();
    let mut from: usize = 0;
    let ghost mut answers: Seq<Result<Option<String>, E>> = Seq::empty();
    loop
        invariant
            chars@ == text@,
            from <= chars@.len(),
            forall|binding: &str| call_requires(lookup, (binding,)),
            from == behind(text@, answers.len()),
            out@ == filled(text@, answer_outcomes(answers)),
            forall|k: int| 0 <= k < answers.len() ==> #[trigger] answers[k] is Ok,
            forall|k: int|
                0 <= k < answers.len() ==> answered_by(lookup, text@, k, #[trigger] answers[k]),
        ensures
            binding_at(chars@, from as int) is None,
        decreases chars@.len() - from,
    {
        let (open, close) = match next_binding(&chars, from) {
            Some(places) => places,
            None => {
                break;
            },
        };
        let binding = text.substring_char(open + 2, close);
        let answer = lookup(binding);
        let ghost all = answers.push(answer);
        proof {
            assert(binding_text(text@, answers.len()) == Some(binding@));
            assert(answered_by(lookup, text@, answers.len() as int, answer));
            assert(answer_outcomes(all).drop_last() =~= answer_outcomes(answers));
            assert forall|k: int| 0 <= k < all.len() implies answered_by(
                lookup,
                text@,
                k,
                #[trigger] all[k],
            ) by {
                if k < answers.len() {
                    assert(all[k] == answers[k]);
                }
            }
        }
        out.append(text.substring_char(from, open));
        match answer {
            Ok(Some(value)) => {
                out.append(value.as_str());
            },
            Ok(None) => {
                let mut written = "{{".to_owned();
                written.append(binding);
                written.append("}}");
                out.append(written.as_str());
            },
            Err(error) => {
                proof {
                    assert forall|k: int| 0 <= k < all.len() - 1 implies
                        #[trigger] all[k] is Ok by {
                        assert(all[k] == answers[k]);
                    }
                    assert(consulted(lookup, text@, all));
                    lemma_consulted_resolves(lookup, text@, all);
                }
                return Err(error);
            },
        }
        proof {
            answers = all;
        }
        from = close + 2;
    }
    out.append(text.substring_char(from, chars.len()));
    proof {
        assert(binding_text(text@, answers.len()) is None);
        assert(consulted(lookup, text@, answers));
        if answers.len() > 0 {
            assert(answers[answers.len() - 1] is Ok);
        }
        lemma_consulted_resolves(lookup, text@, answers);
    }
    Ok(out)
}

proof fn lemma_consulted_resolves<E, F: Fn(&str) -> Result<Option<String>, E>>(
    lookup: F,
    s: Seq<char>,
    got: Seq<Result<Option<String>, E>>,
)
    requires
        consulted(lookup, s, got),
    ensures
        forall|answers: spec_fn(Seq<char>) -> Result<Option<Seq<char>>, E>| #[trigger]
            answers_as(lookup, answers) ==> concluded(s, answer_outcomes(got)) == resolved(
                s,
                answers,
            ),
{
    let seen = answer_outcomes(got);
    assert forall|answers: spec_fn(Seq<char>) -> Result<Option<Seq<char>>, E>| #[trigger]
        answers_as(lookup, answers) implies concluded(s, seen) == resolved(s, answers) by {
        assert forall|k: int| 0 <= k < seen.len() implies given_by(
            answers,
            s,
            k,
            #[trigger] seen[k],
        ) by {
            assert(answered_by(lookup, s, k, got[k]));
        }
        assert forall|k: int| 0 <= k < seen.len() - 1 implies #[trigger] seen[k] is Ok by {
            assert(got[k] is Ok);
        }
        if seen.len() > 0 {
            assert(seen.last() == answer_outcome(got.last()));
        }
        law_answers_of_a_function_resolve(s, answers, seen);
    }
}

/// A text without `{{` stays as it is, whatever `lookup` would answer.
pub proof fn law_text_without_bindings_is_unchanged<E>(
    s: Seq<char>,
    lookup: spec_fn(Seq<char>) -> Result<Option<Seq<char>>, E>,
)
    requires
        forall|k: int| 0 <= k && k + 1 < s.len() ==> !(#[trigger] s[k] == '{' && s[k + 1] == '{'),
    ensures
        resolved(s, lookup) == Ok::<Seq<char>, E>(s),
{
    lemma_pair_at(s, '{', 0);
    assert(Seq::<char>::empty() + s.subrange(0, s.len() as int) =~= s);
}

/// A lookup that leaves every binding as written leaves the text as it
/// is.
pub proof fn law_deferring_every_binding_changes_nothing<E>(
    s: Seq<char>,
    lookup: spec_fn(Seq<char>) -> Result<Option<Seq<char>>, E>,
)
    requires
        forall|binding: Seq<char>| #[trigger] lookup(binding) == Ok::<Option<Seq<char>>, E>(None),
    ensures
        resolved(s, lookup) == Ok::<Seq<char>, E>(s),
{
    lemma_deferred_rest(s, 0, lookup, Seq::empty());
    assert(Seq::<char>::empty() + s.subrange(0, s.len() as int) =~= s);
}

proof fn lemma_deferred_rest<E>(
    s: Seq<char>,
    from: int,
    lookup: spec_fn(Seq<char>) -> Result<Option<Seq<char>>, E>,
    before: Seq<char>,
)
    requires
        0 <= from <= s.len(),
        forall|binding: Seq<char>| #[trigger] lookup(binding) == Ok::<Option<Seq<char>>, E>(None),
    ensures
        resolved_from(s, from, lookup, before) == Ok::<Seq<char>, E>(
            before + s.subrange(from, s.len() as int),
        ),
    decreases s.len() - from,
{
    if let Some((open, close)) = binding_at(s, from) {
        let binding = s.subrange(open + 2, close);
        let next = before + s.subrange(from, open) + answer_text(binding, None);
        lemma_pair_at(s, '{', from);
        lemma_pair_at(s, '}', open + 2);
        lemma_deferred_rest(s, close + 2, lookup, next);
        reveal_strlit("{{");
        reveal_strlit("}}");
        assert(next + s.subrange(close + 2, s.len() as int) =~= before + s.subrange(
            from,
            s.len() as int,
        ));
    }
}

/// Whether no `{{` stands in a text, nor can come about at its end.
pub open spec fn opens_nothing(s: Seq<char>) -> bool {
    &&& forall|k: int| 0 <= k && k + 1 < s.len() ==> !(#[trigger] s[k] == '{' && s[k + 1] == '{')
    &&& s.len() > 0 ==> s.last() != '{'
}

proof fn lemma_pair_found(s: Seq<char>, c: char, from: int, at: int)
    requires
        0 <= from <= at,
        at + 1 < s.len(),
        s[at] == c,
        s[at + 1] == c,
        forall|k: int| from <= k < at ==> !(#[trigger] s[k] == c && s[k + 1] == c),
    ensures
        pair_at(s, c, from) == at,
    decreases at - from,
{
    if from < at {
        lemma_pair_found(s, c, from + 1, at);
    }
}

proof fn lemma_no_pair(s: Seq<char>, c: char, from: int)
    requires
        0 <= from <= s.len(),
        forall|k: int| from <= k && k + 1 < s.len() ==> !(#[trigger] s[k] == c && s[k + 1] == c),
    ensures
        pair_at(s, c, from) == s.len(),
    decreases s.len() - from,
{
    if from + 1 < s.len() {
        lemma_no_pair(s, c, from + 1);
    }
}

/// A text with one binding in it is that text with the answer in the
/// binding's place; the binding as written, where there is no answer; and
/// the error, where there is one.
pub proof fn law_one_binding_is_replaced<E>(
    pre: Seq<char>,
    binding: Seq<char>,
    post: Seq<char>,
    lookup: spec_fn(Seq<char>) -> Result<Option<Seq<char>>, E>,
)
    requires
        opens_nothing(pre),
        opens_nothing(post),
        forall|k: int| 0 <= k < binding.len() ==> #[trigger] binding[k] != '}' && binding[k] != '{',
    ensures
        resolved(pre + seq!['{', '{'] + binding + seq!['}', '}'] + post, lookup) == match lookup(
            binding,
        ) {
            Err(error) => Err(error),
            Ok(Some(value)) => Ok(pre + value + post),
            Ok(None) => Ok(pre + seq!['{', '{'] + binding + seq!['}', '}'] + post),
        },
{
    let s = pre + seq!['{', '{'] + binding + seq!['}', '}'] + post;
    let open = pre.len() as int;
    let close = open + 2 + binding.len();
    assert forall|k: int| 0 <= k < open implies !(#[trigger] s[k] == '{' && s[k + 1] == '{') by {
        assert(s[k] == pre[k]);
        if k + 1 < open {
            assert(s[k + 1] == pre[k + 1]);
        } else {
            assert(pre.last() == pre[k]);
        }
    }
    lemma_pair_found(s, '{', 0, open);
    assert forall|k: int| open + 2 <= k < close implies !(#[trigger] s[k] == '}' && s[k + 1]
        == '}') by {
        assert(s[k] == binding[k - open - 2]);
    }
    lemma_pair_found(s, '}', open + 2, close);
    assert(s.subrange(open + 2, close) =~= binding);
    assert(s.subrange(0, open) =~= pre);
    let n = s.len() as int;
    assert forall|k: int| close + 2 <= k && k + 1 < n implies !(#[trigger] s[k] == '{' && s[k + 1]
        == '{') by {
        assert(s[k] == post[k - close - 2]);
        assert(s[k + 1] == post[k + 1 - close - 2]);
    }
    lemma_no_pair(s, '{', close + 2);
    lemma_pair_at(s, '}', n + 2);
    assert(binding_at(s, close + 2) is None);
    assert(s.subrange(close + 2, n) =~= post);
    reveal_strlit("{{");
    reveal_strlit("}}");
    assert("{{"@ =~= seq!['{', '{']);
    assert("}}"@ =~= seq!['}', '}']);
    reveal_with_fuel(resolved_from, 2);
    if let Ok(Some(value)) = lookup(binding) {
        assert(Seq::<char>::empty() + pre + value + post =~= pre + value + post);
    }
    if let Ok(None) = lookup(binding) {
        assert(Seq::<char>::empty() + pre + ("{{"@ + binding + "}}"@) + post =~= s);
    }
}

/// A binding in a text is found where it stands, and none is found in a
/// text that opens none.
pub proof fn law_bindings_are_found(pre: Seq<char>, binding: Seq<char>, post: Seq<char>)
    requires
        opens_nothing(pre),
        forall|k: int| 0 <= k < binding.len() ==> #[trigger] binding[k] != '}' && binding[k] != '{',
    ensures
        binding_at(pre + seq!['{', '{'] + binding + seq!['}', '}'] + post, 0) == Some(
            (pre.len() as int, pre.len() as int + 2 + binding.len()),
        ),
        (pre + seq!['{', '{'] + binding + seq!['}', '}'] + post).subrange(
            pre.len() as int + 2,
            pre.len() as int + 2 + binding.len(),
        ) == binding,
        binding_at(pre, 0) is None,
{
    let s = pre + seq!['{', '{'] + binding + seq!['}', '}'] + post;
    let open = pre.len() as int;
    let close = open + 2 + binding.len();
    assert forall|k: int| 0 <= k < open implies !(#[trigger] s[k] == '{' && s[k + 1] == '{') by {
        assert(s[k] == pre[k]);
        if k + 1 < open {
            assert(s[k + 1] == pre[k + 1]);
        } else {
            assert(pre.last() == pre[k]);
        }
    }
    lemma_pair_found(s, '{', 0, open);
    assert forall|k: int| open + 2 <= k < close implies !(#[trigger] s[k] == '}' && s[k + 1]
        == '}') by {
        assert(s[k] == binding[k - open - 2]);
    }
    lemma_pair_found(s, '}', open + 2, close);
    assert(s.subrange(open + 2, close) =~= binding);
    lemma_no_pair(pre, '{', 0);
    lemma_pair_at(pre, '}', pre.len() as int + 2);
}

} // verus!
