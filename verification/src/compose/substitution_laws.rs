//! What an invocation's arguments become inside the template: a parameter
//! becomes the argument itself, and a binding in a string its text.

use vstd::prelude::*;
use vstd::string::*;

use crate::ast::{FieldAccessV, IdentV, LiteralV, RawEntryV, RawValueV};
use crate::compose::reading_laws::dotless;
use crate::compose::substitute::{
    arg_from, base_text, bound_answer, bound_answers, bound_literal, bound_number, bound_reference,
    char_at, item_texts, kind_of_argument, CallV,
};
use crate::compose_error::ComposeErrorV;
use crate::interp::{law_one_binding_is_replaced, opens_nothing};
use crate::source::Span;
use crate::text::texts_joined;
use crate::warning::ComposeWarningV;

verus! {

/// Whether argument number `k` of an invocation is the first that is given
/// for the parameter `p`, and its value is `value`.
pub open spec fn gives(call: CallV, k: int, p: Seq<char>, value: RawValueV) -> bool {
    &&& 0 <= k < call.args.len()
    &&& call.args[k].key.text() == p
    &&& call.args[k].value == value
    &&& forall|j: int| 0 <= j < k ==> (#[trigger] call.args[j]).key.text() != p
}

/// Whether an invocation gives no argument for the parameter `p`.
pub open spec fn gives_none(call: CallV, p: Seq<char>) -> bool {
    forall|j: int| 0 <= j < call.args.len() ==> (#[trigger] call.args[j]).key.text() != p
}

proof fn lemma_given(args: Seq<RawEntryV>, p: Seq<char>, k: int, i: int)
    requires
        0 <= i <= k < args.len(),
        args[k].key.text() == p,
        forall|j: int| i <= j < k ==> (#[trigger] args[j]).key.text() != p,
    ensures
        arg_from(args, p, i) == Some(args[k].value),
    decreases k - i,
{
    if i < k {
        lemma_given(args, p, k, i + 1);
    }
}

proof fn lemma_not_given(args: Seq<RawEntryV>, p: Seq<char>, i: int)
    requires
        0 <= i <= args.len(),
        forall|j: int| i <= j < args.len() ==> (#[trigger] args[j]).key.text() != p,
    ensures
        arg_from(args, p, i) is None,
    decreases args.len() - i,
{
    if i < args.len() {
        lemma_not_given(args, p, i + 1);
    }
}

/// Whether a text can stand between the braces of a binding.
pub open spec fn braceless(s: Seq<char>) -> bool {
    forall|k: int| 0 <= k < s.len() ==> #[trigger] s[k] != '}' && s[k] != '{'
}

proof fn lemma_no_dot(s: Seq<char>, i: int)
    requires
        0 <= i <= s.len(),
        dotless(s),
    ensures
        char_at(s, '.', i) == s.len(),
    decreases s.len() - i,
{
    if i < s.len() {
        lemma_no_dot(s, i + 1);
    }
}

/// A text with one binding in it.
pub open spec fn around(pre: Seq<char>, binding: Seq<char>, post: Seq<char>) -> Seq<char> {
    pre + seq!['{', '{'] + binding + seq!['}', '}'] + post
}

/// A parameter that stands for a whole value becomes the argument given
/// for it, as it was written; one for which a list or a map is given is
/// refused where it stands.
pub proof fn law_parameters_become_their_arguments(
    call: CallV,
    k: int,
    p: Seq<char>,
    value: RawValueV,
    span: Span,
    warnings: Seq<ComposeWarningV>,
)
    requires
        gives(call, k, p, value),
    ensures
        match value {
            RawValueV::Literal(lit) => bound_literal(LiteralV::Param(p, span), call, warnings)
                == Ok::<(LiteralV, Seq<ComposeWarningV>), ComposeErrorV>((lit, warnings)),
            _ => bound_literal(LiteralV::Param(p, span), call, warnings) == Err::<
                (LiteralV, Seq<ComposeWarningV>),
                ComposeErrorV,
            >(
                ComposeErrorV::TemplateArgumentNotScalar {
                    template: call.template,
                    param: p,
                    span,
                },
            ),
        },
{
    lemma_given(call.args, p, k, 0);
}

/// What is neither a parameter nor a string nor a field access stays as it
/// is.
pub proof fn law_other_values_stay(lit: LiteralV, call: CallV, warnings: Seq<ComposeWarningV>)
    requires
        lit is Ident || lit is Number || lit is Qualified,
    ensures
        bound_literal(lit, call, warnings) == Ok::<
            (LiteralV, Seq<ComposeWarningV>),
            ComposeErrorV,
        >((lit, warnings)),
{
}

/// A string, a number or a bare name that is given for a parameter puts
/// exactly its own text in the place of the parameter's binding in a
/// string.
pub proof fn law_arguments_interpolate_as_written(
    call: CallV,
    k: int,
    p: Seq<char>,
    lit: LiteralV,
    pre: Seq<char>,
    post: Seq<char>,
    span: Span,
    warnings: Seq<ComposeWarningV>,
)
    requires
        gives(call, k, p, RawValueV::Literal(lit)),
        lit is Str || lit is Number || lit is Ident,
        p != "name"@,
        dotless(p),
        braceless(p),
        opens_nothing(pre),
        opens_nothing(post),
    ensures
        bound_literal(LiteralV::Str(around(pre, p, post), span), call, warnings) matches Ok(
            (after, _),
        ) && after == LiteralV::Str(pre + lit.text() + post, span),
{
    lemma_given(call.args, p, k, 0);
    lemma_no_dot(p, 0);
    law_one_binding_is_replaced(pre, p, post, bound_answers(call));
}

/// What is not concrete yet goes into the string under the name it has
/// there: a forwarded parameter as a binding of its own, a field access as
/// a dotted binding, and a declaration through an alias as its name.
pub proof fn law_open_arguments_are_passed_on(
    call: CallV,
    k: int,
    p: Seq<char>,
    lit: LiteralV,
    pre: Seq<char>,
    post: Seq<char>,
    span: Span,
    warnings: Seq<ComposeWarningV>,
)
    requires
        gives(call, k, p, RawValueV::Literal(lit)),
        p != "name"@,
        dotless(p),
        braceless(p),
        opens_nothing(pre),
        opens_nothing(post),
    ensures
        ({
            let after = bound_literal(LiteralV::Str(around(pre, p, post), span), call, warnings);
            match lit {
                LiteralV::Param(name, _) => after matches Ok((got, _)) && got == LiteralV::Str(
                    around(pre, name, post),
                    span,
                ),
                LiteralV::Qualified(q) => after matches Ok((got, _)) && got == LiteralV::Str(
                    pre + q.name + post,
                    span,
                ),
                LiteralV::Field(access) => match access.base {
                    LiteralV::Ident(base, _) => after matches Ok((got, _)) && got == LiteralV::Str(
                        around(pre, base + seq!['.'] + access.field.name, post),
                        span,
                    ),
                    LiteralV::Qualified(q) => after matches Ok((got, _)) && got == LiteralV::Str(
                        around(
                            pre,
                            q.qualifier.name + seq!['.'] + q.name + seq!['.'] + access.field.name,
                            post,
                        ),
                        span,
                    ),
                    _ => true,
                },
                _ => true,
            }
        }),
{
    lemma_given(call.args, p, k, 0);
    lemma_no_dot(p, 0);
    law_one_binding_is_replaced(pre, p, post, bound_answers(call));
    reveal_strlit("{{");
    reveal_strlit("}}");
    reveal_strlit(".");
    assert("{{"@ =~= seq!['{', '{']);
    assert("}}"@ =~= seq!['}', '}']);
    assert("."@ =~= seq!['.']);
    match lit {
        LiteralV::Param(name, _) => {
            assert(pre + ("{{"@ + name + "}}"@) + post =~= around(pre, name, post));
        },
        LiteralV::Field(access) => {
            let spelled = access.dotted();
            assert(pre + ("{{"@ + spelled + "}}"@) + post =~= around(pre, spelled, post));
        },
        _ => {},
    }
}

/// A binding that names no parameter, and `{{name}}`, which is the
/// service's own name, stay as they are written.
pub proof fn law_other_bindings_stay(
    call: CallV,
    p: Seq<char>,
    pre: Seq<char>,
    post: Seq<char>,
    span: Span,
    warnings: Seq<ComposeWarningV>,
)
    requires
        gives_none(call, p) || p == "name"@,
        dotless(p),
        braceless(p),
        opens_nothing(pre),
        opens_nothing(post),
    ensures
        bound_literal(LiteralV::Str(around(pre, p, post), span), call, warnings) matches Ok(
            (after, _),
        ) && after == LiteralV::Str(around(pre, p, post), span),
{
    if gives_none(call, p) {
        lemma_not_given(call.args, p, 0);
    }
    lemma_no_dot(p, 0);
    law_one_binding_is_replaced(pre, p, post, bound_answers(call));
}

proof fn lemma_item_texts(items: Seq<RawValueV>, i: int, before: Seq<Seq<char>>)
    requires
        0 <= i <= items.len(),
        forall|j: int|
            0 <= j < items.len() ==> (#[trigger] items[j] matches RawValueV::Literal(lit) && (
            lit is Str || lit is Number || lit is Ident)),
    ensures
        item_texts(items, i, before) == Ok::<Seq<Seq<char>>, RawValueV>(
            before + items.skip(i).map_values(|item: RawValueV| item->Literal_0.text()),
        ),
    decreases items.len() - i,
{
    let texts = items.skip(i).map_values(|item: RawValueV| item->Literal_0.text());
    if i < items.len() {
        let lit = items[i]->Literal_0;
        assert(items[i] == RawValueV::Literal(lit));
        lemma_item_texts(items, i + 1, before.push(lit.text()));
        assert(before.push(lit.text()) + items.skip(i + 1).map_values(
            |item: RawValueV| item->Literal_0.text(),
        ) =~= before + texts);
    } else {
        assert(before + texts =~= before);
    }
}

/// A list given for a parameter puts the texts of its items in the place
/// of the parameter's binding, with a comma between each two; a map has no
/// text and is refused where it is written.
pub proof fn law_lists_interpolate_with_commas(
    call: CallV,
    k: int,
    p: Seq<char>,
    value: RawValueV,
    pre: Seq<char>,
    post: Seq<char>,
    span: Span,
    warnings: Seq<ComposeWarningV>,
)
    requires
        gives(call, k, p, value),
        p != "name"@,
        dotless(p),
        braceless(p),
        opens_nothing(pre),
        opens_nothing(post),
        value matches RawValueV::List(items, _) ==> forall|j: int|
            0 <= j < items.len() ==> (#[trigger] items[j] matches RawValueV::Literal(lit) && (
            lit is Str || lit is Number || lit is Ident)),
    ensures
        ({
            let after = bound_literal(LiteralV::Str(around(pre, p, post), span), call, warnings);
            match value {
                RawValueV::List(items, _) => after matches Ok((got, _)) && got == LiteralV::Str(
                    pre + texts_joined(
                        items.map_values(|item: RawValueV| item->Literal_0.text()),
                        seq![','],
                    ) + post,
                    span,
                ),
                RawValueV::Mapping(_, place) => after matches Err(error) && error
                    == (ComposeErrorV::ArgumentNotInterpolable {
                    template: call.template,
                    param: p,
                    found: "a nested map"@,
                    span: place,
                }),
                _ => true,
            }
        }),
{
    lemma_given(call.args, p, k, 0);
    lemma_no_dot(p, 0);
    law_one_binding_is_replaced(pre, p, post, bound_answers(call));
    reveal_strlit(",");
    assert(","@ =~= seq![',']);
    if let RawValueV::List(items, _) = value {
        lemma_item_texts(items, 0, Seq::empty());
        assert(items.skip(0) =~= items);
        assert(Seq::<Seq<char>>::empty() + items.map_values(
            |item: RawValueV| item->Literal_0.text(),
        ) =~= items.map_values(|item: RawValueV| item->Literal_0.text()));
    }
}

proof fn lemma_first_dot(head: Seq<char>, field: Seq<char>, i: int)
    requires
        0 <= i <= head.len(),
        dotless(head),
    ensures
        char_at(head + seq!['.'] + field, '.', i) == head.len(),
    decreases head.len() - i,
{
    let s = head + seq!['.'] + field;
    if i < head.len() {
        assert(s[i] == head[i]);
        lemma_first_dot(head, field, i + 1);
    } else {
        assert(s[i] == '.');
    }
}

proof fn lemma_dotted_answer(
    call: CallV,
    k: int,
    p: Seq<char>,
    lit: LiteralV,
    field: Seq<char>,
)
    requires
        gives(call, k, p, RawValueV::Literal(lit)),
        dotless(p),
        "name"@ != p + seq!['.'] + field,
    ensures
        bound_answer(call, p + seq!['.'] + field) == match base_text(RawValueV::Literal(lit)) {
            Some(base) => Ok(Some("{{"@ + base + "."@ + field + "}}"@)),
            None => Err(
                ComposeErrorV::ArgumentCantCarryField {
                    template: call.template,
                    param: p,
                    found: kind_of_argument(RawValueV::Literal(lit)),
                    span: lit.span(),
                },
            ),
        },
{
    let binding = p + seq!['.'] + field;
    lemma_given(call.args, p, k, 0);
    lemma_first_dot(p, field, 0);
    assert(binding.subrange(0, p.len() as int) =~= p);
    assert(binding.subrange(p.len() as int + 1, binding.len() as int) =~= field);
}

proof fn lemma_written_around(pre: Seq<char>, base: Seq<char>, field: Seq<char>, post: Seq<char>)
    ensures
        pre + ("{{"@ + base + "."@ + field + "}}"@) + post == around(
            pre,
            base + seq!['.'] + field,
            post,
        ),
        "."@ == seq!['.'],
{
    reveal_strlit("{{");
    reveal_strlit("}}");
    reveal_strlit(".");
    assert("{{"@ =~= seq!['{', '{']);
    assert("}}"@ =~= seq!['}', '}']);
    assert("."@ =~= seq!['.']);
    assert(pre + ("{{"@ + base + "."@ + field + "}}"@) + post =~= around(
        pre,
        base + seq!['.'] + field,
        post,
    ));
}

proof fn lemma_braceless_join(p: Seq<char>, field: Seq<char>)
    requires
        braceless(p),
        braceless(field),
    ensures
        braceless(p + seq!['.'] + field),
{
    let binding = p + seq!['.'] + field;
    assert forall|j: int| 0 <= j < binding.len() implies #[trigger] binding[j] != '}' && binding[j]
        != '{' by {
        if j < p.len() {
            assert(binding[j] == p[j]);
        } else if j > p.len() {
            assert(binding[j] == field[j - p.len() - 1]);
        }
    }
}

/// A dotted binding whose head is a parameter reads its field off what is
/// given for the parameter: the head is replaced and the field kept.
pub proof fn law_dotted_bindings_keep_their_field(
    call: CallV,
    k: int,
    p: Seq<char>,
    lit: LiteralV,
    field: Seq<char>,
    pre: Seq<char>,
    post: Seq<char>,
    span: Span,
    warnings: Seq<ComposeWarningV>,
)
    requires
        gives(call, k, p, RawValueV::Literal(lit)),
        dotless(p),
        braceless(p),
        braceless(field),
        opens_nothing(pre),
        opens_nothing(post),
        "name"@ != p + seq!['.'] + field,
    ensures
        ({
            let after = bound_literal(
                LiteralV::Str(around(pre, p + seq!['.'] + field, post), span),
                call,
                warnings,
            );
            match lit {
                LiteralV::Number { span: place, .. } => after matches Err(error) && error
                    == (ComposeErrorV::ArgumentCantCarryField {
                    template: call.template,
                    param: p,
                    found: "a number"@,
                    span: place,
                }),
                LiteralV::Field(access) => after matches Err(error) && error
                    == (ComposeErrorV::ArgumentCantCarryField {
                    template: call.template,
                    param: p,
                    found: "a field access"@,
                    span: access.span,
                }),
                LiteralV::Qualified(q) => after matches Ok((got, _)) && got == LiteralV::Str(
                    around(
                        pre,
                        q.qualifier.name + seq!['.'] + q.name + seq!['.'] + field,
                        post,
                    ),
                    span,
                ),
                _ => after matches Ok((got, _)) && got == LiteralV::Str(
                    around(pre, lit.text() + seq!['.'] + field, post),
                    span,
                ),
            }
        }),
{
    let binding = p + seq!['.'] + field;
    lemma_braceless_join(p, field);
    lemma_dotted_answer(call, k, p, lit, field);
    law_one_binding_is_replaced(pre, binding, post, bound_answers(call));
    if let Some(base) = base_text(RawValueV::Literal(lit)) {
        lemma_written_around(pre, base, field, post);
    }
}

/// A field read off a parameter is read off what is given for it, where
/// that can name a declaration; the field stays, and so does its place.
pub proof fn law_field_bases_become_their_arguments(
    call: CallV,
    k: int,
    p: Seq<char>,
    value: RawValueV,
    place: Span,
    field: IdentV,
    span: Span,
    warnings: Seq<ComposeWarningV>,
)
    requires
        gives(call, k, p, value),
    ensures
        ({
            let lit = LiteralV::Field(
                Box::new(FieldAccessV { base: LiteralV::Param(p, place), field, span }),
            );
            match value {
                RawValueV::Literal(base) => if base is Number || base is Field {
                    bound_literal(lit, call, warnings) is Err
                } else {
                    bound_literal(lit, call, warnings) == Ok::<
                        (LiteralV, Seq<ComposeWarningV>),
                        ComposeErrorV,
                    >((LiteralV::Field(Box::new(FieldAccessV { base, field, span })), warnings))
                },
                _ => bound_literal(lit, call, warnings) is Err,
            }
        }),
{
    lemma_given(call.args, p, k, 0);
}

/// Where a number belongs, a parameter takes a number or another parameter
/// and nothing else; where a reference belongs, anything but a number.
pub proof fn law_arguments_fit_where_they_stand(
    call: CallV,
    k: int,
    p: Seq<char>,
    lit: LiteralV,
    span: Span,
    warnings: Seq<ComposeWarningV>,
)
    requires
        gives(call, k, p, RawValueV::Literal(lit)),
    ensures
        lit is Number || lit is Param ==> bound_number(LiteralV::Param(p, span), call, warnings)
            == Ok::<(LiteralV, Seq<ComposeWarningV>), ComposeErrorV>((lit, warnings)),
        !(lit is Number) && !(lit is Param) ==> (bound_number(
            LiteralV::Param(p, span),
            call,
            warnings,
        ) matches Err(ComposeErrorV::ArgumentNotNumeric { template, param, found, span: place })
            && template == call.template && param == p && place == lit.span()),
        !(lit is Number) ==> bound_reference(LiteralV::Param(p, span), call, warnings) == Ok::<
            (LiteralV, Seq<ComposeWarningV>),
            ComposeErrorV,
        >((lit, warnings)),
        lit is Number ==> bound_reference(LiteralV::Param(p, span), call, warnings) == Err::<
            (LiteralV, Seq<ComposeWarningV>),
            ComposeErrorV,
        >(
            ComposeErrorV::ArgumentNotReferenceShaped {
                template: call.template,
                param: p,
                span: lit.span(),
            },
        ),
{
    lemma_given(call.args, p, k, 0);
}

} // verus!
