//! What the passes over a body do with a single value, and what they warn
//! of.

use vstd::prelude::*;
use vstd::string::*;

use crate::ast::{
    FieldAccessV, IdentV, LiteralV, QualifiedRefV, RawEntryV, RawMapV, RawValueV,
    TemplateInvocationV,
};
use crate::compose::access::{
    access_resolved, access_text, passed_args, passed_invocations, reinterpreted, AccessScope,
};
use crate::compose::qualify::plain_value;
use crate::compose::resolver::{DeclarationsV, SymbolTable};
use crate::compose::slots::{passed_raw, LiteralPass};
use crate::compose::substitute::{
    inert_warnings, interpolates_name, is_name_char, name_end, string_warnings, CallV,
};
use crate::compose_error::ComposeErrorV;
use crate::interp::{law_bindings_are_found, opens_nothing};
use crate::source::Span;
use crate::warning::ComposeWarningV;

verus! {

/// A body as written and a finished one have every field access read. With
/// the arguments just put in, only what goes through an import is: the
/// rest is not for the scope of the invocation to read.
pub proof fn law_stages_read_what_is_theirs<S>(
    access: FieldAccessV,
    scope: S,
    table: SymbolTable<S>,
    decls: DeclarationsV,
)
    ensures
        ({
            let lit = LiteralV::Field(Box::new(access));
            let written = access_resolved(lit, AccessScope::Written, scope, table, decls);
            let bound = access_resolved(lit, AccessScope::Bound, scope, table, decls);
            let put_in = access_resolved(lit, AccessScope::Substituted, scope, table, decls);
            &&& written == bound
            &&& match access_text(access, scope, table, decls) {
                Ok(Some(text)) => bound == Ok::<LiteralV, ComposeErrorV>(
                    LiteralV::Str(text, access.span),
                ),
                Ok(None) => bound == Ok::<LiteralV, ComposeErrorV>(lit),
                Err(error) => bound == Err::<LiteralV, ComposeErrorV>(error),
            }
            &&& if access.base is Qualified {
                put_in == bound
            } else {
                put_in == Ok::<LiteralV, ComposeErrorV>(lit)
            }
        }),
{
}

/// In an argument, `alias.name` whose alias is no declaration is the
/// imported network or volume of that name, kept with its places; if there
/// is neither, it is refused by both names. A field of a declaration, a
/// field through an import, and any other value stay as they are.
pub proof fn law_imported_arguments_are_references<S>(
    alias: IdentV,
    field: IdentV,
    span: Span,
    lit: LiteralV,
    scope: S,
    table: SymbolTable<S>,
    decls: DeclarationsV,
)
    ensures
        ({
            let access = LiteralV::Field(
                Box::new(
                    FieldAccessV { base: LiteralV::Ident(alias.name, alias.span), field, span },
                ),
            );
            let reference = LiteralV::Qualified(
                QualifiedRefV {
                    qualifier: alias,
                    name: field.name,
                    name_span: field.span,
                    span,
                },
            );
            let network = table.network(scope, alias, field.name, span);
            let volume = table.volume(scope, alias, field.name, span);
            let r = reinterpreted(access, scope, table, decls);
            &&& decls.declares(alias.name) ==> r == Ok::<LiteralV, ComposeErrorV>(access)
            &&& !decls.declares(alias.name) && network is Ok ==> r == Ok::<LiteralV, ComposeErrorV>(
                reference,
            )
            &&& !decls.declares(alias.name) && (network matches Err(
                ComposeErrorV::UnknownQualifiedNetwork { .. },
            )) ==> {
                &&& volume is Ok ==> r == Ok::<LiteralV, ComposeErrorV>(reference)
                &&& (volume matches Err(ComposeErrorV::UnknownQualifiedVolume { .. })) ==> r
                    == Err::<LiteralV, ComposeErrorV>(
                    ComposeErrorV::UnknownQualifiedDeclaration {
                        alias: alias.name,
                        name: field.name,
                        span,
                    },
                )
            }
            &&& !decls.declares(alias.name) && (network matches Err(
                ComposeErrorV::UnknownAlias { .. },
            )) ==> r == Ok::<LiteralV, ComposeErrorV>(access)
        }),
        !(lit is Field) ==> reinterpreted(lit, scope, table, decls) == Ok::<
            LiteralV,
            ComposeErrorV,
        >(lit),
        (lit matches LiteralV::Field(access) && access.base is Qualified) ==> reinterpreted(
            lit,
            scope,
            table,
            decls,
        ) == Ok::<LiteralV, ComposeErrorV>(lit),
{
}

/// A reference that an argument left where a plain value has to stand is
/// refused by the template and by its own two names; any other value stays.
pub proof fn law_references_are_no_plain_values(
    lit: LiteralV,
    reference: QualifiedRefV,
    template: Seq<char>,
)
    ensures
        plain_value(LiteralV::Qualified(reference), template) == Err::<LiteralV, ComposeErrorV>(
            ComposeErrorV::QualifiedArgumentNotAValue {
                template,
                alias: reference.qualifier.name,
                name: reference.name,
                span: reference.span,
            },
        ),
        !(lit is Qualified) ==> plain_value(lit, template) == Ok::<LiteralV, ComposeErrorV>(lit),
{
}

/// Whether `$name` stands at `i`: the dollar, the whole of the name, and
/// behind it nothing that could go on with it.
pub open spec fn dollar_name_at(s: Seq<char>, i: int, name: Seq<char>) -> bool {
    let end = i + 1 + name.len();
    &&& 0 <= i && end <= s.len()
    &&& s[i] == '$'
    &&& s.subrange(i + 1, end) == name
    &&& forall|k: int| 0 <= k < name.len() ==> is_name_char(#[trigger] name[k])
    &&& end < s.len() ==> !is_name_char(s[end])
}

proof fn lemma_name_end(s: Seq<char>, from: int)
    requires
        0 <= from <= s.len(),
    ensures
        from <= name_end(s, from) <= s.len(),
        forall|k: int| from <= k < name_end(s, from) ==> is_name_char(#[trigger] s[k]),
        name_end(s, from) < s.len() ==> !is_name_char(s[name_end(s, from)]),
    decreases s.len() - from,
{
    if from < s.len() && is_name_char(s[from]) {
        lemma_name_end(s, from + 1);
    }
}

proof fn lemma_name_ends(s: Seq<char>, from: int, end: int)
    requires
        0 <= from <= end <= s.len(),
        forall|k: int| from <= k < end ==> is_name_char(#[trigger] s[k]),
        end < s.len() ==> !is_name_char(s[end]),
    ensures
        name_end(s, from) == end,
    decreases end - from,
{
    if from < end {
        lemma_name_ends(s, from + 1, end);
    }
}

proof fn lemma_inert(
    s: Seq<char>,
    i: int,
    call: CallV,
    span: Span,
    warnings: Seq<ComposeWarningV>,
    at: int,
    name: Seq<char>,
    other: ComposeWarningV,
)
    requires
        0 <= i <= s.len(),
    ensures
        ({
            let after = inert_warnings(s, i, call, span, warnings);
            let warning = ComposeWarningV::InertParameterInString {
                template: call.template,
                param: name,
                span,
            };
            &&& forall|w: ComposeWarningV| #[trigger]
                warnings.contains(w) ==> after.contains(w)
            &&& i <= at && dollar_name_at(s, at, name) && call.arg(name) is Some
                ==> after.contains(warning)
            &&& after.contains(other) ==> warnings.contains(other) || is_inert(s, call, span, other)
        }),
    decreases s.len() - i,
{
    if i < s.len() {
        lemma_name_end(s, i + 1);
        let here = s.subrange(i + 1, name_end(s, i + 1));
        let warning = ComposeWarningV::InertParameterInString {
            template: call.template,
            param: here,
            span,
        };
        let warns = s[i] == '$' && call.arg(here) is Some;
        let next = if warns {
            crate::warning::warned(warnings, warning)
        } else {
            warnings
        };
        assert forall|w: ComposeWarningV| #[trigger] warnings.contains(w) implies next.contains(
            w,
        ) by {
            if warns && !warnings.contains(warning) {
                let k = choose|k: int| 0 <= k < warnings.len() && warnings[k] == w;
                assert(next[k] == w);
            }
        }
        if warns {
            assert(next.contains(warning)) by {
                if !warnings.contains(warning) {
                    assert(next[warnings.len() as int] == warning);
                }
            }
            assert forall|k: int| 0 <= k < here.len() implies is_name_char(#[trigger] here[k]) by {
                assert(here[k] == s[i + 1 + k]);
            }
            assert(dollar_name_at(s, i, here));
        }
        if next.contains(other) && !warnings.contains(other) {
            let k = choose|k: int| 0 <= k < next.len() && next[k] == other;
            assert(k == warnings.len());
            assert(other == warning);
            assert(is_inert(s, call, span, other));
        }
        if at == i && dollar_name_at(s, at, name) {
            assert forall|k: int| i + 1 <= k < i + 1 + name.len() implies is_name_char(
                #[trigger] s[k],
            ) by {
                assert(s.subrange(i + 1, i + 1 + name.len())[k - i - 1] == s[k]);
                assert(is_name_char(name[k - i - 1]));
            }
            lemma_name_ends(s, i + 1, i + 1 + name.len());
            assert(here == name);
        }
        lemma_inert(s, i + 1, call, span, next, at, name, other);
    }
}

/// Whether a warning is of an argument of this call whose `$name` stands
/// in the text.
pub open spec fn is_inert(
    s: Seq<char>,
    call: CallV,
    span: Span,
    warning: ComposeWarningV,
) -> bool {
    warning matches ComposeWarningV::InertParameterInString { template, param, span: place }
        && template == call.template && place == span && call.arg(param) is Some && exists|i: int|
        #[trigger] dollar_name_at(s, i, param)
}

/// A string in a template is warned of wherever a `$name` in it is one of
/// the call's arguments, by the template, the name and the string's place,
/// and of nothing else but `{{name}}` beside an argument called `name`.
pub proof fn law_inert_parameters_are_warned_of(
    s: Seq<char>,
    call: CallV,
    span: Span,
    warnings: Seq<ComposeWarningV>,
    at: int,
    name: Seq<char>,
    other: ComposeWarningV,
)
    ensures
        ({
            let after = string_warnings(s, call, span, warnings);
            let shadowed = ComposeWarningV::NameParameterNotInterpolated {
                template: call.template,
                span,
            };
            &&& dollar_name_at(s, at, name) && call.arg(name) is Some ==> after.contains(
                ComposeWarningV::InertParameterInString {
                    template: call.template,
                    param: name,
                    span,
                },
            )
            &&& interpolates_name(s, 0) && call.arg("name"@) is Some ==> after.contains(shadowed)
            &&& after.contains(other) ==> {
                ||| warnings.contains(other)
                ||| is_inert(s, call, span, other)
                ||| other == shadowed && interpolates_name(s, 0) && call.arg("name"@) is Some
            }
        }),
{
    lemma_inert(s, 0, call, span, warnings, at, name, other);
    let inert = inert_warnings(s, 0, call, span, warnings);
    let shadowed = ComposeWarningV::NameParameterNotInterpolated { template: call.template, span };
    let after = string_warnings(s, call, span, warnings);
    if interpolates_name(s, 0) && call.arg("name"@) is Some && !inert.contains(shadowed) {
        assert(after == inert.push(shadowed));
        assert(after[inert.len() as int] == shadowed);
        let warning = ComposeWarningV::InertParameterInString {
            template: call.template,
            param: name,
            span,
        };
        if inert.contains(warning) {
            let k = choose|k: int| 0 <= k < inert.len() && inert[k] == warning;
            assert(after[k] == warning);
        }
        if after.contains(other) && other != shadowed {
            let k = choose|k: int| 0 <= k < after.len() && after[k] == other;
            assert(inert[k] == other);
        }
    }
}

/// A text with `{{name}}` in it names the service; one that opens no
/// binding does not.
pub proof fn law_name_bindings_are_seen(pre: Seq<char>, post: Seq<char>)
    requires
        opens_nothing(pre),
    ensures
        interpolates_name(
            pre + seq!['{', '{'] + seq!['n', 'a', 'm', 'e'] + seq!['}', '}'] + post,
            0,
        ),
        !interpolates_name(pre, 0),
{
    let binding = seq!['n', 'a', 'm', 'e'];
    law_bindings_are_found(pre, binding, post);
    reveal_strlit("name");
    assert("name"@ =~= binding);
}

/// Whether arguments are those before, under the same names and places,
/// each that is a single value with that value rewritten.
pub open spec fn arguments_rewritten<P: LiteralPass>(
    after: Seq<RawEntryV>,
    before: Seq<RawEntryV>,
    pass: P::V,
) -> bool {
    &&& after.len() == before.len()
    &&& forall|j: int|
        0 <= j < before.len() ==> (#[trigger] after[j]).key == before[j].key && after[j].span
            == before[j].span && (before[j].value matches RawValueV::Literal(lit) ==> (
        P::rewrites(pass, lit) matches Ok(value) && after[j].value == RawValueV::Literal(value)))
}

proof fn lemma_args_rewritten<P: LiteralPass>(
    entries: Seq<RawEntryV>,
    i: int,
    before: Seq<RawEntryV>,
    pass: P::V,
)
    requires
        0 <= i <= entries.len(),
        arguments_rewritten::<P>(before, entries.take(i), pass),
    ensures
        passed_args::<P>(entries, i, before, pass) matches Ok(after) ==> arguments_rewritten::<P>(
            after,
            entries,
            pass,
        ),
    decreases entries.len() - i,
{
    if i < entries.len() {
        if let Ok(value) = passed_raw::<P>(entries[i].value, pass) {
            let more = before.push(RawEntryV { value, ..entries[i] });
            let taken = entries.take(i + 1);
            assert forall|j: int| 0 <= j < taken.len() implies (#[trigger] more[j]).key
                == taken[j].key && more[j].span == taken[j].span && (taken[j].value matches
                RawValueV::Literal(lit) ==> (P::rewrites(pass, lit) matches Ok(new)
                && more[j].value == RawValueV::Literal(new))) by {
                if j < i {
                    assert(more[j] == before[j]);
                    assert(taken[j] == entries.take(i)[j]);
                }
            }
            lemma_args_rewritten::<P>(entries, i + 1, more, pass);
        }
    } else {
        assert(entries.take(i) =~= entries);
    }
}

/// A pass over the arguments of a `with` list goes through all of them,
/// one by one, and leaves the names, the aliases and the places alone.
pub proof fn law_arguments_are_rewritten_in_place<P: LiteralPass>(
    invocations: Seq<TemplateInvocationV>,
    i: int,
    before: Seq<TemplateInvocationV>,
    pass: P::V,
)
    requires
        0 <= i <= invocations.len(),
        before.len() == i,
    ensures
        passed_invocations::<P>(invocations, i, before, pass) matches Ok(after) ==> {
            &&& after.len() == invocations.len()
            &&& before.is_prefix_of(after)
            &&& forall|k: int|
                i <= k < invocations.len() ==> (#[trigger] after[k]).name == invocations[k].name
                    && after[k].qualifier == invocations[k].qualifier && after[k].span
                    == invocations[k].span && arguments_rewritten::<P>(
                    after[k].args.entries,
                    invocations[k].args.entries,
                    pass,
                )
        },
    decreases invocations.len() - i,
{
    if i < invocations.len() {
        let args = invocations[i].args.entries;
        assert(arguments_rewritten::<P>(Seq::empty(), args.take(0), pass));
        lemma_args_rewritten::<P>(args, 0, Seq::empty(), pass);
        if let Ok(entries) = passed_args::<P>(args, 0, Seq::empty(), pass) {
            let more = before.push(
                TemplateInvocationV { args: RawMapV { entries }, ..invocations[i] },
            );
            law_arguments_are_rewritten_in_place::<P>(invocations, i + 1, more, pass);
            if let Ok(after) = passed_invocations::<P>(invocations, i + 1, more, pass) {
                assert(after[i] == more[i]);
            }
        }
    }
}

} // verus!
