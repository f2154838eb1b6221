//! What a body is refused for, and by which names and places.

use vstd::prelude::*;

use crate::ast::{ArrowMapEntryV, EnvEntryV, IdentV, LabelEntryV, LiteralV, ParamV, RawEntryV};
use crate::error::ParseErrorV;
use crate::grammar::{
    entry_index, entry_text, label_index, mount_index, mount_text, param_index, raw_index,
    read_field_value, read_key, read_params, read_scalar_or_list, read_statement, set_value,
    side_of, with_entries, with_labels, with_mounts, with_raw_entries, FieldValueV, FieldsV,
};
use crate::schema::{
    has_raw_field, moved_guidance, resolution, schema_of, BuiltIn, FieldKind, FieldResolutionV,
    FieldSchemaV, MapSide, TypeSchemaV,
};
use crate::source::{TokenKind, TokenV};

verus! {

proof fn lemma_entries_at(entries: Seq<EnvEntryV>, side: MapSide, text: Seq<char>, i: int)
    requires
        0 <= i <= entries.len(),
    ensures
        i <= entry_index(entries, side, text, i) <= entries.len(),
        entry_index(entries, side, text, i) < entries.len() ==> entry_text(
            entries[entry_index(entries, side, text, i)],
            side,
        )
            == text,
    decreases entries.len() - i,
{
    if i < entries.len() && entry_text(entries[i], side) != text {
        lemma_entries_at(entries, side, text, i + 1);
    }
}

proof fn lemma_entries_joined(
    held: Seq<EnvEntryV>,
    more: Seq<EnvEntryV>,
    i: int,
    schema: TypeSchemaV,
)
    requires
        0 <= i <= more.len(),
    ensures
        match with_entries(held, more, i, schema) {
            Ok(all) => all == held + more.skip(i),
            Err(error) => names_two_entries(error, held + more.skip(i), schema),
        },
    decreases more.len() - i,
{
    let row = held + more.skip(i);
    if i < more.len() {
        let text = entry_text(more[i], side_of(schema));
        let at = entry_index(held, side_of(schema), text, 0);
        lemma_entries_at(held, side_of(schema), text, 0);
        if at < held.len() {
            assert(row[at] == held[at]);
            assert(row[held.len() as int] == more[i]);
            assert(names_two_entries(with_entries(held, more, i, schema)->Err_0, row, schema));
        } else {
            lemma_entries_joined(held.push(more[i]), more, i + 1, schema);
            assert(held.push(more[i]) + more.skip(i + 1) =~= row);
        }
    } else {
        assert(row =~= held);
    }
}

/// Whether an error names two of the entries by what they share, and where
/// both stand.
pub open spec fn names_two_entries(
    error: ParseErrorV,
    row: Seq<EnvEntryV>,
    schema: TypeSchemaV,
) -> bool {
    exists|j: int, k: int|
        0 <= j < k < row.len() && entry_text(
            #[trigger] row[j],
            side_of(schema),
        ) == entry_text(#[trigger] row[k], side_of(schema)) && error == (
        ParseErrorV::DuplicateMapKey {
            on_type: schema.name,
            side: side_of(schema),
            value: entry_text(row[k], side_of(schema)),
            first: row[j].span,
            second: row[k].span,
        })
}

/// More entries go behind those held, in their order, unless two of them all
/// are told apart by nothing: that is refused with both their places.
pub proof fn law_entries_join_in_order(
    held: Seq<EnvEntryV>,
    more: Seq<EnvEntryV>,
    schema: TypeSchemaV,
)
    ensures
        match with_entries(held, more, 0, schema) {
            Ok(all) => all == held + more,
            Err(error) => names_two_entries(error, held + more, schema),
        },
{
    lemma_entries_joined(held, more, 0, schema);
    assert(more.skip(0) =~= more);
}

proof fn lemma_mounts_at(entries: Seq<ArrowMapEntryV>, side: MapSide, text: Seq<char>, i: int)
    requires
        0 <= i <= entries.len(),
    ensures
        i <= mount_index(entries, side, text, i) <= entries.len(),
        mount_index(entries, side, text, i) < entries.len() ==> mount_text(
            entries[mount_index(entries, side, text, i)],
            side,
        )
            == text,
    decreases entries.len() - i,
{
    if i < entries.len() && mount_text(entries[i], side) != text {
        lemma_mounts_at(entries, side, text, i + 1);
    }
}

proof fn lemma_mounts_joined(
    held: Seq<ArrowMapEntryV>,
    more: Seq<ArrowMapEntryV>,
    i: int,
    schema: TypeSchemaV,
)
    requires
        0 <= i <= more.len(),
    ensures
        match with_mounts(held, more, i, schema) {
            Ok(all) => all == held + more.skip(i),
            Err(error) => names_two_mounts(error, held + more.skip(i), schema),
        },
    decreases more.len() - i,
{
    let row = held + more.skip(i);
    if i < more.len() {
        let text = mount_text(more[i], side_of(schema));
        let at = mount_index(held, side_of(schema), text, 0);
        lemma_mounts_at(held, side_of(schema), text, 0);
        if at < held.len() {
            assert(row[at] == held[at]);
            assert(row[held.len() as int] == more[i]);
            assert(names_two_mounts(with_mounts(held, more, i, schema)->Err_0, row, schema));
        } else {
            lemma_mounts_joined(held.push(more[i]), more, i + 1, schema);
            assert(held.push(more[i]) + more.skip(i + 1) =~= row);
        }
    } else {
        assert(row =~= held);
    }
}

/// Whether an error names two of the mounts by what they share, and where
/// both stand.
pub open spec fn names_two_mounts(
    error: ParseErrorV,
    row: Seq<ArrowMapEntryV>,
    schema: TypeSchemaV,
) -> bool {
    exists|j: int, k: int|
        0 <= j < k < row.len() && mount_text(
            #[trigger] row[j],
            side_of(schema),
        ) == mount_text(#[trigger] row[k], side_of(schema)) && error == (
        ParseErrorV::DuplicateMapKey {
            on_type: schema.name,
            side: side_of(schema),
            value: mount_text(row[k], side_of(schema)),
            first: row[j].span,
            second: row[k].span,
        })
}

/// More mounts go behind those held, in their order, unless two of them all
/// are told apart by nothing: that is refused with both their places.
pub proof fn law_mounts_join_in_order(
    held: Seq<ArrowMapEntryV>,
    more: Seq<ArrowMapEntryV>,
    schema: TypeSchemaV,
)
    ensures
        match with_mounts(held, more, 0, schema) {
            Ok(all) => all == held + more,
            Err(error) => names_two_mounts(error, held + more, schema),
        },
{
    lemma_mounts_joined(held, more, 0, schema);
    assert(more.skip(0) =~= more);
}

proof fn lemma_labels_at(entries: Seq<LabelEntryV>, text: Seq<char>, i: int)
    requires
        0 <= i <= entries.len(),
    ensures
        i <= label_index(entries, text, i) <= entries.len(),
        label_index(entries, text, i) < entries.len() ==> entries[label_index(entries, text, i)].key.text()
            == text,
    decreases entries.len() - i,
{
    if i < entries.len() && entries[i].key.text() != text {
        lemma_labels_at(entries, text, i + 1);
    }
}

proof fn lemma_labels_joined(
    held: Seq<LabelEntryV>,
    more: Seq<LabelEntryV>,
    i: int,
    schema: TypeSchemaV,
)
    requires
        0 <= i <= more.len(),
    ensures
        match with_labels(held, more, i, schema) {
            Ok(all) => all == held + more.skip(i),
            Err(error) => names_two_labels(error, held + more.skip(i), schema),
        },
    decreases more.len() - i,
{
    let row = held + more.skip(i);
    if i < more.len() {
        let text = more[i].key.text();
        let at = label_index(held, text, 0);
        lemma_labels_at(held, text, 0);
        if at < held.len() {
            assert(row[at] == held[at]);
            assert(row[held.len() as int] == more[i]);
            assert(names_two_labels(with_labels(held, more, i, schema)->Err_0, row, schema));
        } else {
            lemma_labels_joined(held.push(more[i]), more, i + 1, schema);
            assert(held.push(more[i]) + more.skip(i + 1) =~= row);
        }
    } else {
        assert(row =~= held);
    }
}

/// Whether an error names two of the labels by what they share, and where
/// both stand.
pub open spec fn names_two_labels(
    error: ParseErrorV,
    row: Seq<LabelEntryV>,
    schema: TypeSchemaV,
) -> bool {
    exists|j: int, k: int|
        0 <= j < k < row.len() && (#[trigger] row[j]).key.text() == (#[trigger] row[k]).key.text() && error == (
        ParseErrorV::DuplicateMapKey {
            on_type: schema.name,
            side: MapSide::Key,
            value: row[k].key.text(),
            first: row[j].span,
            second: row[k].span,
        })
}

/// More labels go behind those held, in their order, unless two of them all
/// are told apart by nothing: that is refused with both their places.
pub proof fn law_labels_join_in_order(
    held: Seq<LabelEntryV>,
    more: Seq<LabelEntryV>,
    schema: TypeSchemaV,
)
    ensures
        match with_labels(held, more, 0, schema) {
            Ok(all) => all == held + more,
            Err(error) => names_two_labels(error, held + more, schema),
        },
{
    lemma_labels_joined(held, more, 0, schema);
    assert(more.skip(0) =~= more);
}

proof fn lemma_raw_entries_at(entries: Seq<RawEntryV>, text: Seq<char>, i: int)
    requires
        0 <= i <= entries.len(),
    ensures
        i <= raw_index(entries, text, i) <= entries.len(),
        raw_index(entries, text, i) < entries.len() ==> entries[raw_index(entries, text, i)].key.text()
            == text,
    decreases entries.len() - i,
{
    if i < entries.len() && entries[i].key.text() != text {
        lemma_raw_entries_at(entries, text, i + 1);
    }
}

proof fn lemma_raw_entries_joined(held: Seq<RawEntryV>, more: Seq<RawEntryV>, i: int)
    requires
        0 <= i <= more.len(),
    ensures
        match with_raw_entries(held, more, i) {
            Ok(all) => all == held + more.skip(i),
            Err(error) => names_two_raw_entries(error, held + more.skip(i)),
        },
    decreases more.len() - i,
{
    let row = held + more.skip(i);
    if i < more.len() {
        let text = more[i].key.text();
        let at = raw_index(held, text, 0);
        lemma_raw_entries_at(held, text, 0);
        if at < held.len() {
            assert(row[at] == held[at]);
            assert(row[held.len() as int] == more[i]);
            assert(names_two_raw_entries(with_raw_entries(held, more, i)->Err_0, row));
        } else {
            lemma_raw_entries_joined(held.push(more[i]), more, i + 1);
            assert(held.push(more[i]) + more.skip(i + 1) =~= row);
        }
    } else {
        assert(row =~= held);
    }
}

/// Whether an error names two of the raw entries by what they share, and where
/// both stand.
pub open spec fn names_two_raw_entries(error: ParseErrorV, row: Seq<RawEntryV>) -> bool {
    exists|j: int, k: int|
        0 <= j < k < row.len() && (#[trigger] row[j]).key.text() == (#[trigger] row[k]).key.text() && error == (
        ParseErrorV::DuplicateMapKey {
            on_type: "raw"@,
            side: MapSide::Key,
            value: row[k].key.text(),
            first: row[j].span,
            second: row[k].span,
        })
}

/// More raw entries go behind those held, in their order, unless two of them all
/// are told apart by nothing: that is refused with both their places.
pub proof fn law_raw_entries_join_in_order(held: Seq<RawEntryV>, more: Seq<RawEntryV>)
    ensures
        match with_raw_entries(held, more, 0) {
            Ok(all) => all == held + more,
            Err(error) => names_two_raw_entries(error, held + more),
        },
{
    lemma_raw_entries_joined(held, more, 0);
    assert(more.skip(0) =~= more);
}

/// A field with a single value that the body has set before is refused by
/// the body's type, the field's name, and the places of both values; a
/// flag, by those of its two keywords.
pub proof fn law_repeated_fields_are_refused(
    ts: Seq<TokenV>,
    p: int,
    params: Option<Seq<ParamV>>,
    schema: TypeSchemaV,
    fields: FieldsV,
    field: FieldSchemaV,
    key: LiteralV,
    next: int,
)
    requires
        read_key(ts, p) == Ok::<(LiteralV, int), ParseErrorV>((key, next)),
        resolution(schema, key.text()) == FieldResolutionV::Field(field),
        field.name == key.text(),
    ensures
        field.kind == FieldKind::Scalar && (set_value(fields, key.text()) matches Some(
            FieldValueV::Scalar(old),
        )) && (read_field_value(ts, next, params) is Ok) ==> read_statement(
            ts,
            p,
            params,
            schema,
            fields,
        ) == Err::<(FieldsV, int), ParseErrorV>(
            ParseErrorV::DuplicateField {
                on_type: schema.name,
                field: key.text(),
                first: set_value(fields, key.text())->Some_0->Scalar_0.span(),
                second: read_field_value(ts, next, params)->Ok_0.0.span(),
            },
        ),
        field.kind == FieldKind::ScalarOrList && (set_value(fields, key.text()) matches Some(
            FieldValueV::ScalarOrList(old),
        )) && (read_scalar_or_list(ts, next, params) is Ok) ==> read_statement(
            ts,
            p,
            params,
            schema,
            fields,
        ) == Err::<(FieldsV, int), ParseErrorV>(
            ParseErrorV::DuplicateField {
                on_type: schema.name,
                field: key.text(),
                first: set_value(fields, key.text())->Some_0->ScalarOrList_0.span(),
                second: read_scalar_or_list(ts, next, params)->Ok_0.0.span(),
            },
        ),
        field.kind == FieldKind::BoolFlag && ts[next].kind != TokenKind::Colon && (set_value(
            fields,
            key.text(),
        ) matches Some(FieldValueV::Flag(old))) ==> read_statement(ts, p, params, schema, fields)
            == Err::<(FieldsV, int), ParseErrorV>(
            ParseErrorV::DuplicateField {
                on_type: schema.name,
                field: key.text(),
                first: set_value(fields, key.text())->Some_0->Flag_0,
                second: key.span(),
            },
        ),
        field.kind == FieldKind::BoolFlag && ts[next].kind == TokenKind::Colon ==> read_statement(
            ts,
            p,
            params,
            schema,
            fields,
        ) is Err,
{
}

/// A keyword that is no field of the body's type is refused by the type,
/// the keyword and its place. Where services and templates used to have
/// such a field, the refusal says what takes its place.
pub proof fn law_strange_keywords_are_refused(
    ts: Seq<TokenV>,
    p: int,
    params: Option<Seq<ParamV>>,
    built_in: BuiltIn,
    fields: FieldsV,
    key: LiteralV,
    next: int,
)
    requires
        read_key(ts, p) == Ok::<(LiteralV, int), ParseErrorV>((key, next)),
        !(resolution(schema_of(built_in), key.text()) is Field),
    ensures
        match read_statement(ts, p, params, schema_of(built_in), fields) {
            Ok(_) => false,
            Err(ParseErrorV::MovedField { on_type, field, guidance, span }) => on_type == schema_of(
                built_in,
            ).name && field == key.text() && span == key.span() && moved_guidance(
                schema_of(built_in),
                key.text(),
            ) == Some(guidance),
            Err(ParseErrorV::UnknownField { on_type, field, raw_escape_hatch, span }) => on_type
                == schema_of(built_in).name && field == key.text() && span == key.span()
                && raw_escape_hatch == has_raw_field(schema_of(built_in)),
            Err(_) => false,
        },
{
}

proof fn lemma_param_at(params: Seq<ParamV>, name: Seq<char>, i: int)
    requires
        0 <= i <= params.len(),
    ensures
        i <= param_index(params, name, i) <= params.len(),
        param_index(params, name, i) < params.len() ==> params[param_index(
            params,
            name,
            i,
        )].name.name == name,
        forall|k: int|
            i <= k < param_index(params, name, i) ==> (#[trigger] params[k]).name.name != name,
    decreases params.len() - i,
{
    if i < params.len() && params[i].name.name != name {
        lemma_param_at(params, name, i + 1);
    }
}

/// A parameter whose name is one of those before it is refused by the name
/// and both places; otherwise it goes behind them.
pub proof fn law_repeated_parameters_are_refused(ts: Seq<TokenV>, p: int, before: Seq<ParamV>)
    requires
        ts[p].kind == TokenKind::Ident,
    ensures
        (exists|k: int|
            0 <= k < before.len() && (#[trigger] before[k]).name.name == ts[p].lexeme) ==> (
        read_params(ts, p, before) matches Err(
            ParseErrorV::DuplicateTemplateParam { param, first, second },
        ) && param == ts[p].lexeme && second == ts[p].span && exists|k: int|
            0 <= k < before.len() && (#[trigger] before[k]).name.name == param
                && before[k].name.span == first),
        (forall|k: int|
            0 <= k < before.len() ==> (#[trigger] before[k]).name.name != ts[p].lexeme) && ts[p
            + 1].kind != TokenKind::Comma ==> read_params(ts, p, before) == Ok::<
            (Seq<ParamV>, int),
            ParseErrorV,
        >(
            (
                before.push(ParamV { name: IdentV { name: ts[p].lexeme, span: ts[p].span } }),
                p + 1,
            ),
        ),
{
    lemma_param_at(before, ts[p].lexeme, 0);
}

} // verus!
