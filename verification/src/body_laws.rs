//! What becomes of a field of a body while the rest of the body is read.

use vstd::prelude::*;

use crate::ast::{LiteralV, ParamV};
use crate::error::ParseErrorV;
use crate::grammar::{
    continues_with_field, read_key, read_literal, read_secondary, read_shorthand, read_statement,
    read_statements, set_value, single_place, FieldValueV, FieldsV,
};
use crate::keyword_laws::law_a_statement_sets_its_own_key_only;
use crate::schema::{resolution, schema_of, FieldKind, FieldResolutionV, SchemaKind, TypeSchemaV};
use crate::source::{joined, Span, TokenKind, TokenV};

verus! {

/// Whether a body of this type can set this field only once, and has set
/// it to a value of the field's kind.
pub open spec fn set_for_good(schema: TypeSchemaV, name: Seq<char>, value: FieldValueV) -> bool {
    resolution(schema, name) matches FieldResolutionV::Field(field) && field.name == name
        && match field.kind {
        FieldKind::Scalar => value is Scalar,
        FieldKind::BoolFlag => value is Flag,
        FieldKind::ScalarOrList => value is ScalarOrList,
        FieldKind::Nested(nested) => schema_of(nested).kind != SchemaKind::Mapping
            && value is Struct,
        _ => false,
    }
}

proof fn lemma_statement_keeps(
    ts: Seq<TokenV>,
    p: int,
    params: Option<Seq<ParamV>>,
    schema: TypeSchemaV,
    fields: FieldsV,
    name: Seq<char>,
    value: FieldValueV,
)
    requires
        set_value(fields, name) == Some(value),
        set_for_good(schema, name, value),
    ensures
        read_statement(ts, p, params, schema, fields) matches Ok((after, _)) ==> set_value(
            after,
            name,
        ) == Some(value),
{
    law_a_statement_sets_its_own_key_only(ts, p, params, schema, fields);
    if let Ok((key, next)) = read_key(ts, p) {
        if key.text() == name {
            assert(single_place(value) is Some);
        }
    }
}

/// What a statement has set a field to, where it can be set only once,
/// stays to the end of the body: a second statement of that field is
/// refused, and the others leave it alone.
pub proof fn law_set_fields_stay(
    ts: Seq<TokenV>,
    p: int,
    params: Option<Seq<ParamV>>,
    schema: TypeSchemaV,
    fields: FieldsV,
    first: bool,
    name: Seq<char>,
    value: FieldValueV,
)
    requires
        set_value(fields, name) == Some(value),
        set_for_good(schema, name, value),
    ensures
        read_statements(ts, p, params, schema, fields, first) matches Ok((after, _)) ==> set_value(
            after,
            name,
        ) == Some(value),
    decreases ts.len() - p,
{
    if ts[p].kind != TokenKind::RBrace {
        lemma_statement_keeps(ts, p, params, schema, fields, name, value);
        if let Ok((more, next)) = read_statement(ts, p, params, schema, fields) {
            if p < next && next < ts.len() {
                law_set_fields_stay(ts, next, params, schema, more, false, name, value);
            }
        }
    }
}

/// A body that is read up to its closing brace holds every field that no
/// statement in it names as it was before: a body that names none of a
/// field's keyword leaves it unset.
pub proof fn law_unnamed_fields_stay_unset(
    ts: Seq<TokenV>,
    p: int,
    params: Option<Seq<ParamV>>,
    schema: TypeSchemaV,
    fields: FieldsV,
    first: bool,
    name: Seq<char>,
)
    requires
        forall|k: int|
            p <= k < ts.len() ==> (#[trigger] read_key(ts, k) matches Ok((key, _)) ==> key.text()
                != name),
    ensures
        read_statements(ts, p, params, schema, fields, first) matches Ok((after, _)) ==> set_value(
            after,
            name,
        ) == set_value(fields, name),
    decreases ts.len() - p,
{
    if ts[p].kind != TokenKind::RBrace {
        law_a_statement_sets_its_own_key_only(ts, p, params, schema, fields);
        if let Ok((more, next)) = read_statement(ts, p, params, schema, fields) {
            if p < next && next < ts.len() {
                let key = read_key(ts, p)->Ok_0.0;
                assert(p < ts.len());
                assert(read_key(ts, p) is Ok);
                assert(key.text() != name);
                law_unnamed_fields_stay_unset(ts, next, params, schema, more, false, name);
            }
        }
    }
}

/// Statements stand on lines of their own: one more on the line where the
/// last one ended is refused.
pub proof fn law_statements_stand_on_their_own_lines(
    ts: Seq<TokenV>,
    p: int,
    params: Option<Seq<ParamV>>,
    schema: TypeSchemaV,
    fields: FieldsV,
)
    ensures
        ts[p].kind != TokenKind::RBrace && ts[p - 1].span.line == ts[p].span.line
            ==> read_statements(ts, p, params, schema, fields, false) is Err,
        ts[p].kind == TokenKind::RBrace ==> read_statements(
            ts,
            p,
            params,
            schema,
            fields,
            false,
        ) == Ok::<(FieldsV, int), ParseErrorV>((fields, p)),
{
}

/// The same holds of the fields that follow a bare value behind commas:
/// they leave what was set before them.
pub proof fn law_set_fields_stay_behind_commas(
    ts: Seq<TokenV>,
    p: int,
    params: Option<Seq<ParamV>>,
    schema: TypeSchemaV,
    fields: FieldsV,
    name: Seq<char>,
    value: FieldValueV,
)
    requires
        set_value(fields, name) == Some(value),
        set_for_good(schema, name, value),
    ensures
        read_secondary(ts, p, params, schema, fields) matches Ok((after, _)) ==> set_value(
            after,
            name,
        ) == Some(value),
    decreases ts.len() - p,
{
    if continues_with_field(ts, p, schema) && p + 1 < ts.len() {
        lemma_statement_keeps(ts, p + 1, params, schema, fields, name, value);
        if let Ok((more, next)) = read_statement(ts, p + 1, params, schema, fields) {
            if p < next && next < ts.len() {
                law_set_fields_stay_behind_commas(ts, next, params, schema, more, name, value);
            }
        }
    }
}

/// A bare value and a field behind a comma set both: the value the type's
/// primary field, the field what it says.
pub proof fn law_a_field_follows_a_bare_value(
    ts: Seq<TokenV>,
    p: int,
    params: Option<Seq<ParamV>>,
    schema: TypeSchemaV,
    primary: Seq<char>,
    lit: LiteralV,
    end: int,
    more: FieldsV,
    next: int,
)
    requires
        schema.primary_field == Some(primary),
        resolution(schema, primary) matches FieldResolutionV::Field(field) && field.kind
            == FieldKind::Scalar,
        read_literal(ts, p, params) == Ok::<(LiteralV, int), ParseErrorV>((lit, end)),
        p < end,
        ts[end].kind == TokenKind::Comma,
        ts[end + 1].kind == TokenKind::Ident || ts[end + 1].kind == TokenKind::Str,
        resolution(schema, ts[end + 1].lexeme) is Field,
        read_statement(ts, end + 1, params, schema, seq![(primary, FieldValueV::Scalar(lit))])
            == Ok::<(FieldsV, int), ParseErrorV>((more, next)),
        end + 1 < next < ts.len(),
        ts[next].kind != TokenKind::Comma,
    ensures
        read_shorthand(ts, p, params, schema) == Ok::<((FieldsV, Span), int), ParseErrorV>(
            ((more, joined(lit.span(), ts[next - 1].span)), next),
        ),
{
    reveal_with_fuel(read_secondary, 2);
}

} // verus!
