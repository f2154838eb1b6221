//! The parser: one engine, driven by the tables of the built-in types.
//!
//! A position in the tokens is handed to each function, which hands back
//! what it read there and the position behind it.

use vstd::prelude::*;
use vstd::string::*;

use crate::ast::{
    ArrowMap, ArrowMapEntry, ArrowMapHost, Build, Command, DependsOnCondition, DependsOnEntry,
    Entrypoint, EnvEntry, EnvMap, Expose, FieldAccess, Healthcheck, HealthcheckTest, Ident, Image,
    LabelEntry, LabelMap, LabelValue, Literal, Network, Param, ParamV, Program, QualifiedRef,
    RawEntry, RawMap, RawValue, Restart, Service, ServiceFields, ShellOrExecV, TemplateDecl,
    TemplateInvocation, TopDecl, UseDecl, Volume, VolumeDriverOpt,
};
use crate::compose::engine::has_param;
use crate::deep::{no_items, outcome, push_to, put_at, Duplicate};
use crate::error::{Expected, ParseError, ParseErrorV};
use crate::grammar::{
    as_driver_opts, as_mounts, comma_starts_field, command_of, continues_with_field, described,
    ends_with_eof, entry_index, entry_text, error_in, expected, flag_of, held_dependencies,
    held_entries, held_invocations, held_labels, held_mounts, held_raw, held_references,
    label_index, lexed_in, lowered_build, lowered_decl, lowered_expose, lowered_healthcheck,
    lowered_image, lowered_network, lowered_restart, lowered_service_fields, lowered_volume,
    lowered_with, mount_index, mount_text, pair_index, param_index, past_colon, past_separator,
    qualified_name, raw_index, read_access, read_arguments, read_bare, read_bracketed,
    read_condition, read_condition_block, read_decl, read_decls, read_dependency, read_entries,
    read_field_value, read_host, read_invocation, read_invocation_shorthand, read_items, read_key,
    read_label_value, read_list, read_list_field, read_literal, read_literal_shorthand, read_map,
    read_map_body, read_map_field, read_mount_options, read_named_value, read_nested, read_param,
    read_param_list, read_param_value, read_params, read_program, read_raw_entry, read_raw_items,
    read_raw_pairs, read_raw_value, read_reference, read_scalar_or_list, read_secondary,
    read_shorthand, read_statement, read_statements, read_struct_body, read_template,
    read_template_name, read_use, scalar_of, set_index, set_value, side_of, single_at, single_place,
    starts_value, string_literal, struct_of, token_in, unexpected, with_entries, with_labels,
    with_mounts, with_raw_entries, with_single, with_value, Dependencies, EntrySpec, FieldValueV,
    Invocations, ItemSpec, LabelEntries, LiteralEntries, Literals, MountEntries, Parsed, RawEntries,
    References, MAX_RAW_VALUE_DEPTH,
};
use crate::schema::{
    find_field, resolve_field, supports_raw, top_level_type, BuiltIn, FieldKind, FieldResolution,
    MapSide, SchemaKind, TypeSchema,
};
use crate::source::{FileId, LexError, LexErrorV, Span, Token, TokenKind, TokenV};
use crate::text::{parse_number, same_text};

verus! {

/// What was read and where reading goes on, seen through its views.
pub open spec fn at<T: DeepView>(r: Result<(T, usize), ParseError>) -> Parsed<T::V> {
    match r {
        Ok((value, p)) => Ok((value.deep_view(), p as int)),
        Err(error) => Err(error.deep_view()),
    }
}

/// Whether something was read and the end of the input not passed, or the
/// error says where it is.
pub open spec fn advances<T>(r: Result<(T, usize), ParseError>, pos: usize, len: nat) -> bool {
    match r {
        Ok((_, p)) => pos < p < len,
        Err(error) => error.deep_view().has_place(),
    }
}

/// Whether the end of the input was not passed, or the error says where it
/// is.
pub open spec fn goes_on<T>(r: Result<(T, usize), ParseError>, pos: usize, len: nat) -> bool {
    match r {
        Ok((_, p)) => pos <= p < len,
        Err(error) => error.deep_view().has_place(),
    }
}

/// What a body sets a field to.
pub enum FieldValue {
    Scalar(Literal),
    Flag(Span),
    Struct(Vec<(&'static str, FieldValue)>, Span),
    LiteralMap(Vec<EnvEntry>),
    LabelMap(Vec<LabelEntry>),
    MountMap(Vec<ArrowMapEntry>),
    Raw(Vec<RawEntry>),
    References(Vec<Literal>),
    Invocations(Vec<TemplateInvocation>),
    ScalarOrList(ScalarOrList),
    Dependencies(Vec<DependsOnEntry>),
}

/// What a body sets, field by field.
pub type StructFields = Vec<(&'static str, FieldValue)>;

/// A single value, or a bracketed list and where it stands.
pub enum ScalarOrList {
    Scalar(Literal),
    List(Vec<Literal>, Span),
}

impl DeepView for ScalarOrList {
    type V = ShellOrExecV;

    open spec fn deep_view(&self) -> ShellOrExecV {
        match self {
            ScalarOrList::Scalar(lit) => ShellOrExecV::Shell(lit.deep_view()),
            ScalarOrList::List(items, span) => ShellOrExecV::Exec(items.deep_view(), *span),
        }
    }
}

impl ScalarOrList {
    fn span(&self) -> (r: Span)
        ensures
            r == self.deep_view().span(),
    {
        match self {
            ScalarOrList::Scalar(lit) => lit.span(),
            ScalarOrList::List(_, span) => *span,
        }
    }
}

/// The view of a field's value.
pub open spec fn field_value_view(value: FieldValue) -> FieldValueV
    decreases value,
{
    match value {
        FieldValue::Scalar(lit) => FieldValueV::Scalar(lit.deep_view()),
        FieldValue::Flag(span) => FieldValueV::Flag(span),
        FieldValue::Struct(fields, span) => FieldValueV::Struct(
            Seq::new(
                fields@.len(),
                |i: int|
                    if 0 <= i < fields@.len() {
                        (fields@[i].0@, field_value_view(fields@[i].1))
                    } else {
                        arbitrary()
                    },
            ),
            span,
        ),
        FieldValue::LiteralMap(entries) => FieldValueV::LiteralMap(entries.deep_view()),
        FieldValue::LabelMap(entries) => FieldValueV::LabelMap(entries.deep_view()),
        FieldValue::MountMap(entries) => FieldValueV::MountMap(entries.deep_view()),
        FieldValue::Raw(entries) => FieldValueV::Raw(entries.deep_view()),
        FieldValue::References(refs) => FieldValueV::References(refs.deep_view()),
        FieldValue::Invocations(items) => FieldValueV::Invocations(items.deep_view()),
        FieldValue::ScalarOrList(value) => FieldValueV::ScalarOrList(value.deep_view()),
        FieldValue::Dependencies(entries) => FieldValueV::Dependencies(entries.deep_view()),
    }
}

impl DeepView for FieldValue {
    type V = FieldValueV;

    open spec fn deep_view(&self) -> FieldValueV {
        field_value_view(*self)
    }
}

proof fn lemma_struct_view(value: FieldValue)
    ensures
        value matches FieldValue::Struct(fields, span) ==> value.deep_view()
            == FieldValueV::Struct(fields.deep_view(), span),
{
    if let FieldValue::Struct(fields, span) = value {
        assert(value.deep_view()->Struct_0 =~= fields.deep_view());
    }
}

fn find_set(fields: &StructFields, name: &str) -> (r: usize)
    ensures
        r == set_index(fields.deep_view(), name@, 0),
        r <= fields@.len(),
{
    let mut i: usize = 0;
    while i < fields.len()
        invariant
            i <= fields@.len(),
            set_index(fields.deep_view(), name@, 0) == set_index(
                fields.deep_view(),
                name@,
                i as int,
            ),
        decreases fields@.len() - i,
    {
        assert(fields.deep_view()[i as int] == fields@[i as int].deep_view());
        if same_text(fields[i].0, name) {
            return i;
        }
        i = i + 1;
    }
    i
}

fn get_set<'a>(fields: &'a StructFields, name: &str) -> (r: Option<&'a FieldValue>)
    ensures
        r.deep_view() == set_value(fields.deep_view(), name@),
{
    let at = find_set(fields, name);
    if at < fields.len() {
        assert(fields.deep_view()[at as int] == fields@[at as int].deep_view());
        Some(&fields[at].1)
    } else {
        None
    }
}

fn put_value(fields: StructFields, name: &'static str, value: FieldValue) -> (r: StructFields)
    ensures
        r.deep_view() == with_value(fields.deep_view(), name@, value.deep_view()),
{
    let at = find_set(&fields, name);
    let mut out = fields;
    if at < out.len() {
        put_at(&mut out, at, (name, value));
    } else {
        push_to(&mut out, (name, value));
    }
    out
}

impl FieldValue {
    fn single_span(&self) -> (r: Option<Span>)
        ensures
            r == single_place(self.deep_view()),
    {
        match self {
            FieldValue::Scalar(lit) => Some(lit.span()),
            FieldValue::Flag(span) => Some(*span),
            FieldValue::Struct(_, span) => Some(*span),
            FieldValue::ScalarOrList(value) => Some(value.span()),
            _ => None,
        }
    }
}

fn insert_single(
    schema: &TypeSchema,
    fields: StructFields,
    name: &'static str,
    value: FieldValue,
) -> (r: Result<StructFields, ParseError>)
    ensures
        outcome(r) == with_single(
            schema.deep_view(),
            fields.deep_view(),
            name@,
            value.deep_view(),
        ),
{
    let places = match get_set(&fields, name) {
        None => None,
        Some(existing) => Some((existing.single_span(), value.single_span())),
    };
    match places {
        None => {
            let mut out = fields;
            push_to(&mut out, (name, value));
            Ok(out)
        },
        Some((Some(first), Some(second))) => Err(
            ParseError::DuplicateField { on_type: schema.name, field: name, first, second },
        ),
        Some(_) => Ok(fields),
    }
}

fn insert_single_at(
    schema: &TypeSchema,
    fields: StructFields,
    name: &'static str,
    value: FieldValue,
    end: usize,
) -> (r: Result<(StructFields, usize), ParseError>)
    ensures
        at(r) == single_at(
            schema.deep_view(),
            fields.deep_view(),
            name@,
            value.deep_view(),
            end as int,
        ),
        r matches Ok((_, p)) ==> p == end,
{
    match insert_single(schema, fields, name, value) {
        Ok(all) => Ok((all, end)),
        Err(error) => Err(error),
    }
}

fn get_references(fields: &StructFields, name: &str) -> (r: Vec<Literal>)
    ensures
        r.deep_view() == held_references(fields.deep_view(), name@),
{
    match get_set(fields, name) {
        Some(FieldValue::References(refs)) => refs.duplicate(),
        _ => no_items(),
    }
}

fn get_invocations(fields: &StructFields, name: &str) -> (r: Vec<TemplateInvocation>)
    ensures
        r.deep_view() == held_invocations(fields.deep_view(), name@),
{
    match get_set(fields, name) {
        Some(FieldValue::Invocations(items)) => items.duplicate(),
        _ => no_items(),
    }
}

fn get_dependencies(fields: &StructFields, name: &str) -> (r: Vec<DependsOnEntry>)
    ensures
        r.deep_view() == held_dependencies(fields.deep_view(), name@),
{
    match get_set(fields, name) {
        Some(FieldValue::Dependencies(entries)) => entries.duplicate(),
        _ => no_items(),
    }
}

fn get_entries(fields: &StructFields, name: &str) -> (r: Vec<EnvEntry>)
    ensures
        r.deep_view() == held_entries(fields.deep_view(), name@),
{
    match get_set(fields, name) {
        Some(FieldValue::LiteralMap(entries)) => entries.duplicate(),
        _ => no_items(),
    }
}

fn get_labels(fields: &StructFields, name: &str) -> (r: Vec<LabelEntry>)
    ensures
        r.deep_view() == held_labels(fields.deep_view(), name@),
{
    match get_set(fields, name) {
        Some(FieldValue::LabelMap(entries)) => entries.duplicate(),
        _ => no_items(),
    }
}

fn get_mounts(fields: &StructFields, name: &str) -> (r: Vec<ArrowMapEntry>)
    ensures
        r.deep_view() == held_mounts(fields.deep_view(), name@),
{
    match get_set(fields, name) {
        Some(FieldValue::MountMap(entries)) => entries.duplicate(),
        _ => no_items(),
    }
}

fn get_raw(fields: &StructFields, name: &str) -> (r: Vec<RawEntry>)
    ensures
        r.deep_view() == held_raw(fields.deep_view(), name@),
{
    match get_set(fields, name) {
        Some(FieldValue::Raw(entries)) => entries.duplicate(),
        _ => no_items(),
    }
}

fn extend<T: Duplicate>(held: Vec<T>, more: &Vec<T>) -> (r: Vec<T>)
    ensures
        r.deep_view() == held.deep_view() + more.deep_view(),
{
    let mut out = held;
    let mut i: usize = 0;
    while i < more.len()
        invariant
            i <= more@.len(),
            out.deep_view() == held.deep_view() + more.deep_view().take(i as int),
        decreases more@.len() - i,
    {
        push_to(&mut out, more[i].duplicate());
        assert(out.deep_view() =~= held.deep_view() + more.deep_view().take(i + 1));
        i = i + 1;
    }
    assert(out.deep_view() =~= held.deep_view() + more.deep_view());
    out
}

fn map_side(schema: &TypeSchema) -> (r: MapSide)
    ensures
        r == side_of(schema.deep_view()),
{
    match schema.uniqueness {
        Some(side) => side,
        None => MapSide::Key,
    }
}

fn text_of_entry(entry: &EnvEntry, side: MapSide) -> (r: &str)
    ensures
        r@ == entry_text(entry.deep_view(), side),
{
    match side {
        MapSide::Key => entry.key.text(),
        MapSide::Value => entry.value.text(),
    }
}

fn text_of_mount(entry: &ArrowMapEntry, side: MapSide) -> (r: &str)
    ensures
        r@ == mount_text(entry.deep_view(), side),
{
    match side {
        MapSide::Key => entry.host.text(),
        MapSide::Value => entry.container.text(),
    }
}

fn find_entry(entries: &Vec<EnvEntry>, side: MapSide, text: &str) -> (r: usize)
    ensures
        r == entry_index(entries.deep_view(), side, text@, 0),
        r <= entries@.len(),
{
    let mut i: usize = 0;
    while i < entries.len()
        invariant
            i <= entries@.len(),
            entry_index(entries.deep_view(), side, text@, 0) == entry_index(
                entries.deep_view(),
                side,
                text@,
                i as int,
            ),
        decreases entries@.len() - i,
    {
        assert(entries.deep_view()[i as int] == entries@[i as int].deep_view());
        if same_text(text_of_entry(&entries[i], side), text) {
            return i;
        }
        i = i + 1;
    }
    i
}

fn find_label(entries: &Vec<LabelEntry>, key: &str) -> (r: usize)
    ensures
        r == label_index(entries.deep_view(), key@, 0),
        r <= entries@.len(),
{
    let mut i: usize = 0;
    while i < entries.len()
        invariant
            i <= entries@.len(),
            label_index(entries.deep_view(), key@, 0) == label_index(
                entries.deep_view(),
                key@,
                i as int,
            ),
        decreases entries@.len() - i,
    {
        assert(entries.deep_view()[i as int] == entries@[i as int].deep_view());
        if same_text(entries[i].key.text(), key) {
            return i;
        }
        i = i + 1;
    }
    i
}

fn find_mount(entries: &Vec<ArrowMapEntry>, side: MapSide, text: &str) -> (r: usize)
    ensures
        r == mount_index(entries.deep_view(), side, text@, 0),
        r <= entries@.len(),
{
    let mut i: usize = 0;
    while i < entries.len()
        invariant
            i <= entries@.len(),
            mount_index(entries.deep_view(), side, text@, 0) == mount_index(
                entries.deep_view(),
                side,
                text@,
                i as int,
            ),
        decreases entries@.len() - i,
    {
        assert(entries.deep_view()[i as int] == entries@[i as int].deep_view());
        if same_text(text_of_mount(&entries[i], side), text) {
            return i;
        }
        i = i + 1;
    }
    i
}

fn find_raw(entries: &Vec<RawEntry>, key: &str) -> (r: usize)
    ensures
        r == raw_index(entries.deep_view(), key@, 0),
        r <= entries@.len(),
{
    let mut i: usize = 0;
    while i < entries.len()
        invariant
            i <= entries@.len(),
            raw_index(entries.deep_view(), key@, 0) == raw_index(
                entries.deep_view(),
                key@,
                i as int,
            ),
        decreases entries@.len() - i,
    {
        assert(entries.deep_view()[i as int] == entries@[i as int].deep_view());
        if same_text(entries[i].key.text(), key) {
            return i;
        }
        i = i + 1;
    }
    i
}

fn find_pair(pairs: &Vec<(Literal, RawValue)>, key: &str) -> (r: usize)
    ensures
        r == pair_index(pairs.deep_view(), key@, 0),
        r <= pairs@.len(),
{
    let mut i: usize = 0;
    while i < pairs.len()
        invariant
            i <= pairs@.len(),
            pair_index(pairs.deep_view(), key@, 0) == pair_index(
                pairs.deep_view(),
                key@,
                i as int,
            ),
        decreases pairs@.len() - i,
    {
        assert(pairs.deep_view()[i as int] == pairs@[i as int].deep_view());
        if same_text(pairs[i].0.text(), key) {
            return i;
        }
        i = i + 1;
    }
    i
}

fn find_param(params: &Vec<Param>, name: &str) -> (r: usize)
    ensures
        r == param_index(params.deep_view(), name@, 0),
        r <= params@.len(),
{
    let mut i: usize = 0;
    while i < params.len()
        invariant
            i <= params@.len(),
            param_index(params.deep_view(), name@, 0) == param_index(
                params.deep_view(),
                name@,
                i as int,
            ),
        decreases params@.len() - i,
    {
        assert(params.deep_view()[i as int] == params@[i as int].deep_view());
        if same_text(params[i].name.name.as_str(), name) {
            return i;
        }
        i = i + 1;
    }
    i
}

fn merge_map_entries(held: Vec<EnvEntry>, more: &Vec<EnvEntry>, schema: &TypeSchema) -> (r: Result<
    Vec<EnvEntry>,
    ParseError,
>)
    ensures
        outcome(r) == with_entries(
            held.deep_view(),
            more.deep_view(),
            0,
            schema.deep_view(),
        ),
        r matches Err(error) ==> error.deep_view().has_place(),
{
    let side = map_side(schema);
    let mut out = held;
    let mut i: usize = 0;
    while i < more.len()
        invariant
            i <= more@.len(),
            side == side_of(schema.deep_view()),
            with_entries(held.deep_view(), more.deep_view(), 0, schema.deep_view())
                == with_entries(
                out.deep_view(),
                more.deep_view(),
                i as int,
                schema.deep_view(),
            ),
        decreases more@.len() - i,
    {
        assert(more.deep_view()[i as int] == more@[i as int].deep_view());
        let text = text_of_entry(&more[i], side);
        let first = find_entry(&out, side, text);
        if first < out.len() {
            assert(out.deep_view()[first as int] == out@[first as int].deep_view());
            return Err(
                ParseError::DuplicateMapKey {
                    on_type: schema.name,
                    side,
                    value: text.to_owned(),
                    first: out[first].span,
                    second: more[i].span,
                },
            );
        }
        push_to(&mut out, more[i].duplicate());
        i = i + 1;
    }
    Ok(out)
}

fn merge_label_entries(
    held: Vec<LabelEntry>,
    more: &Vec<LabelEntry>,
    schema: &TypeSchema,
) -> (r: Result<Vec<LabelEntry>, ParseError>)
    ensures
        outcome(r) == with_labels(held.deep_view(), more.deep_view(), 0, schema.deep_view()),
        r matches Err(error) ==> error.deep_view().has_place(),
{
    let mut out = held;
    let mut i: usize = 0;
    while i < more.len()
        invariant
            i <= more@.len(),
            with_labels(held.deep_view(), more.deep_view(), 0, schema.deep_view()) == with_labels(
                out.deep_view(),
                more.deep_view(),
                i as int,
                schema.deep_view(),
            ),
        decreases more@.len() - i,
    {
        assert(more.deep_view()[i as int] == more@[i as int].deep_view());
        let key = more[i].key.text();
        let first = find_label(&out, key);
        if first < out.len() {
            assert(out.deep_view()[first as int] == out@[first as int].deep_view());
            return Err(
                ParseError::DuplicateMapKey {
                    on_type: schema.name,
                    side: MapSide::Key,
                    value: key.to_owned(),
                    first: out[first].span,
                    second: more[i].span,
                },
            );
        }
        push_to(&mut out, more[i].duplicate());
        i = i + 1;
    }
    Ok(out)
}

fn merge_mount_map_entries(
    held: Vec<ArrowMapEntry>,
    more: &Vec<ArrowMapEntry>,
    schema: &TypeSchema,
) -> (r: Result<Vec<ArrowMapEntry>, ParseError>)
    ensures
        outcome(r) == with_mounts(held.deep_view(), more.deep_view(), 0, schema.deep_view()),
        r matches Err(error) ==> error.deep_view().has_place(),
{
    let side = map_side(schema);
    let mut out = held;
    let mut i: usize = 0;
    while i < more.len()
        invariant
            i <= more@.len(),
            side == side_of(schema.deep_view()),
            with_mounts(held.deep_view(), more.deep_view(), 0, schema.deep_view()) == with_mounts(
                out.deep_view(),
                more.deep_view(),
                i as int,
                schema.deep_view(),
            ),
        decreases more@.len() - i,
    {
        assert(more.deep_view()[i as int] == more@[i as int].deep_view());
        let text = text_of_mount(&more[i], side);
        let first = find_mount(&out, side, text);
        if first < out.len() {
            assert(out.deep_view()[first as int] == out@[first as int].deep_view());
            return Err(
                ParseError::DuplicateMapKey {
                    on_type: schema.name,
                    side,
                    value: text.to_owned(),
                    first: out[first].span,
                    second: more[i].span,
                },
            );
        }
        push_to(&mut out, more[i].duplicate());
        i = i + 1;
    }
    Ok(out)
}

fn merge_raw_entries(held: Vec<RawEntry>, more: &Vec<RawEntry>) -> (r: Result<
    Vec<RawEntry>,
    ParseError,
>)
    ensures
        outcome(r) == with_raw_entries(held.deep_view(), more.deep_view(), 0),
        r matches Err(error) ==> error.deep_view().has_place(),
{
    let mut out = held;
    let mut i: usize = 0;
    while i < more.len()
        invariant
            i <= more@.len(),
            with_raw_entries(held.deep_view(), more.deep_view(), 0) == with_raw_entries(
                out.deep_view(),
                more.deep_view(),
                i as int,
            ),
        decreases more@.len() - i,
    {
        assert(more.deep_view()[i as int] == more@[i as int].deep_view());
        let key = more[i].key.text();
        let first = find_raw(&out, key);
        if first < out.len() {
            assert(out.deep_view()[first as int] == out@[first as int].deep_view());
            return Err(
                ParseError::DuplicateMapKey {
                    on_type: "raw",
                    side: MapSide::Key,
                    value: key.to_owned(),
                    first: out[first].span,
                    second: more[i].span,
                },
            );
        }
        push_to(&mut out, more[i].duplicate());
        i = i + 1;
    }
    Ok(out)
}

fn str_literal(tok: &Token) -> (r: Result<Literal, ParseError>)
    ensures
        outcome(r) == string_literal(tok.deep_view()),
{
    match &tok.content {
        Ok(text) => Ok(Literal::Str(text.clone(), tok.span)),
        Err(error) => {
            let mut errors: Vec<LexError> = no_items();
            push_to(&mut errors, error.clone());
            assert(errors.deep_view() =~= seq![error.deep_view()]);
            Err(ParseError::Lex(errors))
        },
    }
}

fn qualify(qualifier: &Token, name: &Token) -> (r: Literal)
    ensures
        r.deep_view() == qualified_name(qualifier.deep_view(), name.deep_view()),
{
    Literal::Qualified(
        Box::new(
            QualifiedRef {
                qualifier: Ident { name: qualifier.lexeme.clone(), span: qualifier.span },
                name: name.lexeme.clone(),
                name_span: name.span,
                span: qualifier.span.to(name.span),
            },
        ),
    )
}

fn value_can_start(kind: TokenKind) -> (r: bool)
    ensures
        r == starts_value(kind),
{
    match kind {
        TokenKind::Ident | TokenKind::Str | TokenKind::Number | TokenKind::LBracket
        | TokenKind::Dollar => true,
        _ => false,
    }
}

/// The tokens of a file, and the parameters of the template whose body is
/// being read, if one is.
pub struct Parser<'a> {
    pub tokens: &'a Vec<Token>,
    pub template_params: Option<&'a Vec<Param>>,
}

impl<'a> Parser<'a> {
    /// The tokens, as the grammar sees them.
    pub open spec fn ts(&self) -> Seq<TokenV> {
        self.tokens.deep_view()
    }

    /// The parameters in scope, as the grammar sees them.
    pub open spec fn params(&self) -> Option<Seq<ParamV>> {
        self.template_params.deep_view()
    }

    /// Whether a position lies among tokens that end as they have to.
    pub open spec fn can_read(&self, pos: usize) -> bool {
        ends_with_eof(self.ts()) && pos < self.tokens@.len()
    }

    pub(crate) fn kind(&self, pos: usize) -> (r: TokenKind)
        requires
            self.can_read(pos),
        ensures
            r == self.ts()[pos as int].kind,
            r != TokenKind::Eof ==> pos + 1 < self.tokens@.len() <= usize::MAX,
    {
        let r = self.tokens[pos].kind;
        let count: usize = self.tokens.len();
        assert(self.ts()[pos as int] == self.tokens@[pos as int].deep_view());
        assert(pos + 1 == self.tokens@.len() ==> self.ts().last() == self.ts()[pos as int]);
        r
    }

    pub(crate) fn token(&self, pos: usize) -> (r: &'a Token)
        requires
            self.can_read(pos),
        ensures
            r.deep_view() == self.ts()[pos as int],
    {
        &self.tokens[pos]
    }

    pub(crate) fn span_at(&self, pos: usize) -> (r: Span)
        requires
            self.can_read(pos),
        ensures
            r == self.ts()[pos as int].span,
    {
        assert(self.ts()[pos as int] == self.tokens@[pos as int].deep_view());
        self.tokens[pos].span
    }

    fn unexpected(&self, pos: usize, wanted: Expected) -> (r: ParseError)
        requires
            self.can_read(pos),
        ensures
            r.deep_view() == unexpected(self.ts(), pos as int, wanted.deep_view()),
    {
        let tok = self.token(pos);
        ParseError::UnexpectedToken {
            expected: wanted,
            found_kind: tok.kind,
            found_lexeme: tok.lexeme.clone(),
            span: tok.span,
        }
    }

    pub(crate) fn described(&self, pos: usize, wanted: &'static str) -> (r: ParseError)
        requires
            self.can_read(pos),
        ensures
            r.deep_view() == described(self.ts(), pos as int, wanted@),
    {
        self.unexpected(pos, Expected::Description(wanted))
    }

    pub(crate) fn expect(
        &self,
        pos: usize,
        kind: TokenKind,
    ) -> (r: Result<(&'a Token, usize), ParseError>)
        requires
            self.can_read(pos),
            kind != TokenKind::Eof,
        ensures
            at(r) == expected(self.ts(), pos as int, kind),
            advances(r, pos, self.tokens@.len()),
    {
        if self.kind(pos) == kind {
            Ok((self.token(pos), pos + 1))
        } else {
            Err(self.unexpected(pos, Expected::Token(kind)))
        }
    }

    pub(crate) fn skip_colon(&self, pos: usize) -> (r: usize)
        requires
            self.can_read(pos),
        ensures
            r == past_colon(self.ts(), pos as int),
            pos <= r < self.tokens@.len(),
    {
        if self.kind(pos) == TokenKind::Colon {
            pos + 1
        } else {
            pos
        }
    }

    fn parse_param_reference(&self, pos: usize) -> (r: Result<(Literal, usize), ParseError>)
        requires
            self.can_read(pos),
            self.ts()[pos as int].kind == TokenKind::Dollar,
        ensures
            at(r) == read_param(self.ts(), pos as int, self.params()),
            advances(r, pos, self.tokens@.len()),
    {
        let dollar = self.span_at(pos);
        let kind = self.kind(pos);
        let (name_tok, next) = match self.expect(pos + 1, TokenKind::Ident) {
            Ok(read) => read,
            Err(error) => {
                return Err(error);
            },
        };
        let name = name_tok.lexeme.clone();
        let span = dollar.to(name_tok.span);
        match self.template_params {
            None => Err(ParseError::ParamReferenceOutsideTemplate { name, span }),
            Some(declared) => if has_param(declared, name.as_str()) {
                Ok((Literal::Param(name, span), next))
            } else {
                Err(ParseError::UnknownTemplateParam { name, span })
            },
        }
    }

    fn parse_access(&self, pos: usize, base: Literal) -> (r: Result<(Literal, usize), ParseError>)
        requires
            self.can_read(pos),
            self.ts()[pos as int].kind == TokenKind::Dot,
        ensures
            at(r) == read_access(self.ts(), pos as int, base.deep_view()),
            advances(r, pos, self.tokens@.len()),
    {
        let dot = self.kind(pos);
        match self.expect(pos + 1, TokenKind::Ident) {
            Ok((field, end)) => {
                let span = base.span().to(field.span);
                let access = Literal::Field(
                    Box::new(
                        FieldAccess {
                            base,
                            field: Ident { name: field.lexeme.clone(), span: field.span },
                            span,
                        },
                    ),
                );
                proof {
                    reveal_with_fuel(crate::ast::literal_view, 2);
                }
                Ok((access, end))
            },
            Err(error) => Err(error),
        }
    }

    fn parse_named_value(&self, pos: usize) -> (r: Result<(Literal, usize), ParseError>)
        requires
            self.can_read(pos),
            self.ts()[pos as int].kind == TokenKind::Ident,
        ensures
            at(r) == read_named_value(self.ts(), pos as int),
            advances(r, pos, self.tokens@.len()),
    {
        let first = self.token(pos);
        let kind = self.kind(pos);
        let bare = Literal::Ident(first.lexeme.clone(), first.span);
        if self.kind(pos + 1) != TokenKind::Dot {
            return Ok((bare, pos + 1));
        }
        match self.expect(pos + 2, TokenKind::Ident) {
            Ok((second, next)) => if self.kind(next) == TokenKind::Dot {
                self.parse_access(next, qualify(first, second))
            } else {
                self.parse_access(pos + 1, bare)
            },
            Err(error) => Err(error),
        }
    }

    fn parse_param_value(&self, pos: usize) -> (r: Result<(Literal, usize), ParseError>)
        requires
            self.can_read(pos),
            self.ts()[pos as int].kind == TokenKind::Dollar,
        ensures
            at(r) == read_param_value(self.ts(), pos as int, self.params()),
            advances(r, pos, self.tokens@.len()),
    {
        match self.parse_param_reference(pos) {
            Ok((param, next)) => if self.kind(next) == TokenKind::Dot {
                self.parse_access(next, param)
            } else {
                Ok((param, next))
            },
            Err(error) => Err(error),
        }
    }

    fn parse_literal(&self, pos: usize) -> (r: Result<(Literal, usize), ParseError>)
        requires
            self.can_read(pos),
        ensures
            at(r) == read_literal(self.ts(), pos as int, self.params()),
            advances(r, pos, self.tokens@.len()),
    {
        let tok = self.token(pos);
        match self.kind(pos) {
            TokenKind::Str => match str_literal(tok) {
                Ok(lit) => Ok((lit, pos + 1)),
                Err(error) => Err(error),
            },
            TokenKind::Ident => self.parse_named_value(pos),
            TokenKind::Number => match parse_number(tok.lexeme.as_str()) {
                Some(value) => Ok(
                    (
                        Literal::Number { text: tok.lexeme.clone(), value, span: tok.span },
                        pos + 1,
                    ),
                ),
                None => Err(
                    ParseError::NumberOutOfRange { text: tok.lexeme.clone(), span: tok.span },
                ),
            },
            TokenKind::Dollar => self.parse_param_value(pos),
            _ => Err(self.described(pos, "a literal (string, number, or identifier)")),
        }
    }

    fn parse_key(&self, pos: usize) -> (r: Result<(Literal, usize), ParseError>)
        requires
            self.can_read(pos),
        ensures
            at(r) == read_key(self.ts(), pos as int),
            advances(r, pos, self.tokens@.len()),
    {
        let tok = self.token(pos);
        match self.kind(pos) {
            TokenKind::Str => match str_literal(tok) {
                Ok(lit) => Ok((lit, pos + 1)),
                Err(error) => Err(error),
            },
            TokenKind::Ident => Ok((Literal::Ident(tok.lexeme.clone(), tok.span), pos + 1)),
            _ => Err(self.described(pos, "a field name (identifier or string)")),
        }
    }

    pub(crate) fn parse_literal_reference(&self, pos: usize) -> (r: Result<
        (Literal, usize),
        ParseError,
    >)
        requires
            self.can_read(pos),
        ensures
            at(r) == read_reference(self.ts(), pos as int, self.params()),
            advances(r, pos, self.tokens@.len()),
    {
        if self.kind(pos) == TokenKind::Dollar {
            return self.parse_param_reference(pos);
        }
        let (key, next) = match self.parse_key(pos) {
            Ok(read) => read,
            Err(error) => {
                return Err(error);
            },
        };
        let bare = match &key {
            Literal::Ident(_, _) => true,
            _ => false,
        };
        if bare && self.kind(next) == TokenKind::Dot {
            let (name_tok, end) = match self.expect(next + 1, TokenKind::Ident) {
                Ok(read) => read,
                Err(error) => {
                    return Err(error);
                },
            };
            return Ok((qualify(self.token(pos), name_tok), end));
        }
        Ok((key, next))
    }

    fn comma_starts_a_new_field(&self, pos: usize) -> (r: bool)
        requires
            self.can_read(pos),
            self.ts()[pos as int].kind == TokenKind::Comma,
        ensures
            r == comma_starts_field(self.ts(), pos as int),
    {
        let comma = self.kind(pos);
        let named = match self.kind(pos + 1) {
            TokenKind::Ident | TokenKind::Str => true,
            _ => false,
        };
        named && self.kind(pos + 2) == TokenKind::Colon
    }

    pub(crate) fn parse_items<K: ItemRule>(
        &self,
        pos: usize,
    ) -> (r: Result<(Vec<K::Item>, usize), ParseError>)
        requires
            self.can_read(pos),
        ensures
            at(r) == read_items::<K>(self.ts(), pos as int, self.params(), Seq::empty()),
            advances(r, pos, self.tokens@.len()),
    {
        let mut items: Vec<K::Item> = no_items();
        let mut p: usize = pos;
        loop
            invariant
                self.can_read(p),
                pos <= p,
                read_items::<K>(self.ts(), pos as int, self.params(), Seq::empty())
                    == read_items::<K>(
                    self.ts(),
                    p as int,
                    self.params(),
                    items.deep_view(),
                ),
            decreases self.tokens@.len() - p,
        {
            let (item, next) = match K::parse_item(self, p) {
                Ok(read) => read,
                Err(error) => {
                    return Err(error);
                },
            };
            push_to(&mut items, item);
            if self.kind(next) != TokenKind::Comma {
                return Ok((items, next));
            }
            p = next + 1;
        }
    }

    fn parse_bracketed<K: ItemRule>(&self, pos: usize) -> (r: Result<
        ((Vec<K::Item>, Span), usize),
        ParseError,
    >)
        requires
            self.can_read(pos),
        ensures
            at(r) == read_bracketed::<K>(self.ts(), pos as int, self.params()),
            advances(r, pos, self.tokens@.len()),
    {
        let (open, first) = match self.expect(pos, TokenKind::LBracket) {
            Ok(read) => read,
            Err(error) => {
                return Err(error);
            },
        };
        let (items, last) = if self.kind(first) == TokenKind::RBracket {
            (no_items(), first)
        } else {
            match self.parse_items::<K>(first) {
                Ok(read) => read,
                Err(error) => {
                    return Err(error);
                },
            }
        };
        match self.expect(last, TokenKind::RBracket) {
            Ok((close, end)) => Ok(((items, open.span.to(close.span)), end)),
            Err(error) => Err(error),
        }
    }

    fn parse_bare<K: ItemRule>(&self, pos: usize) -> (r: Result<(Vec<K::Item>, usize), ParseError>)
        requires
            self.can_read(pos),
        ensures
            at(r) == read_bare::<K>(self.ts(), pos as int, self.params(), Seq::empty()),
            advances(r, pos, self.tokens@.len()),
    {
        let mut items: Vec<K::Item> = no_items();
        let mut p: usize = pos;
        loop
            invariant
                self.can_read(p),
                pos <= p,
                read_bare::<K>(self.ts(), pos as int, self.params(), Seq::empty())
                    == read_bare::<K>(
                    self.ts(),
                    p as int,
                    self.params(),
                    items.deep_view(),
                ),
            decreases self.tokens@.len() - p,
        {
            let (item, next) = match K::parse_item(self, p) {
                Ok(read) => read,
                Err(error) => {
                    return Err(error);
                },
            };
            push_to(&mut items, item);
            if self.kind(next) != TokenKind::Comma || (K::stops_at_fields()
                && self.comma_starts_a_new_field(next)) {
                return Ok((items, next));
            }
            p = next + 1;
        }
    }

    fn parse_list_value<K: ItemRule>(&self, pos: usize) -> (r: Result<
        (Vec<K::Item>, usize),
        ParseError,
    >)
        requires
            self.can_read(pos),
        ensures
            at(r) == read_list::<K>(self.ts(), pos as int, self.params()),
            advances(r, pos, self.tokens@.len()),
    {
        let start = self.skip_colon(pos);
        if self.kind(start) == TokenKind::LBracket {
            match self.parse_bracketed::<K>(start) {
                Ok(((items, _), end)) => Ok((items, end)),
                Err(error) => Err(error),
            }
        } else if K::can_open(self.kind(start)) {
            self.parse_bare::<K>(start)
        } else {
            Err(self.described(start, K::wanted_text()))
        }
    }

    fn parse_scalar_or_list_value(&self, pos: usize) -> (r: Result<
        (ScalarOrList, usize),
        ParseError,
    >)
        requires
            self.can_read(pos),
        ensures
            at(r) == read_scalar_or_list(self.ts(), pos as int, self.params()),
            advances(r, pos, self.tokens@.len()),
    {
        let start = self.skip_colon(pos);
        if self.kind(start) == TokenKind::LBracket {
            match self.parse_bracketed::<Literals>(start) {
                Ok(((items, span), end)) => Ok((ScalarOrList::List(items, span), end)),
                Err(error) => Err(error),
            }
        } else if value_can_start(self.kind(start)) {
            match self.parse_literal(start) {
                Ok((lit, end)) => Ok((ScalarOrList::Scalar(lit), end)),
                Err(error) => Err(error),
            }
        } else {
            Err(self.described(start, "a value or a bracketed list"))
        }
    }

    fn parse_depends_on_condition(&self, pos: usize) -> (r: Result<
        ((DependsOnCondition, Span), usize),
        ParseError,
    >)
        requires
            self.can_read(pos),
        ensures
            at(r) == read_condition(self.ts(), pos as int),
            advances(r, pos, self.tokens@.len()),
    {
        let tok = self.token(pos);
        match self.kind(pos) {
            TokenKind::Ident | TokenKind::Str => match DependsOnCondition::parse(
                tok.lexeme.as_str(),
            ) {
                Some(condition) => Ok(((condition, tok.span), pos + 1)),
                None => Err(
                    ParseError::InvalidDependsOnCondition {
                        found: tok.lexeme.clone(),
                        span: tok.span,
                    },
                ),
            },
            _ => Err(
                self.described(
                    pos,
                    "one of `service_started`, `service_healthy`, `service_completed_successfully`",
                ),
            ),
        }
    }

    fn parse_condition_block(&self, pos: usize) -> (r: Result<
        (((DependsOnCondition, Span), Span), usize),
        ParseError,
    >)
        requires
            self.can_read(pos),
        ensures
            at(r) == read_condition_block(self.ts(), pos as int),
            advances(r, pos, self.tokens@.len()),
    {
        let (key, after_key) = match self.expect(pos, TokenKind::Ident) {
            Ok(read) => read,
            Err(error) => {
                return Err(error);
            },
        };
        if !same_text(key.lexeme.as_str(), "condition") {
            return Err(
                ParseError::UnknownField {
                    on_type: "depends_on",
                    field: key.lexeme.clone(),
                    raw_escape_hatch: false,
                    span: key.span,
                },
            );
        }
        let (_, after_colon) = match self.expect(after_key, TokenKind::Colon) {
            Ok(read) => read,
            Err(error) => {
                return Err(error);
            },
        };
        let (condition, after) = match self.parse_depends_on_condition(after_colon) {
            Ok(read) => read,
            Err(error) => {
                return Err(error);
            },
        };
        match self.expect(after, TokenKind::RBrace) {
            Ok((close, end)) => Ok(((condition, close.span), end)),
            Err(error) => Err(error),
        }
    }

    fn parse_depends_on_entry(&self, pos: usize) -> (r: Result<(DependsOnEntry, usize), ParseError>)
        requires
            self.can_read(pos),
        ensures
            at(r) == read_dependency(self.ts(), pos as int, self.params()),
            advances(r, pos, self.tokens@.len()),
    {
        let (reference, next) = match self.parse_literal_reference(pos) {
            Ok(read) => read,
            Err(error) => {
                return Err(error);
            },
        };
        let span = reference.span();
        if self.kind(next) == TokenKind::LBrace {
            match self.parse_condition_block(next + 1) {
                Ok(((condition, close), end)) => Ok(
                    (
                        DependsOnEntry {
                            reference,
                            condition: Some(condition),
                            span: span.to(close),
                        },
                        end,
                    ),
                ),
                Err(error) => Err(error),
            }
        } else {
            Ok((DependsOnEntry { reference, condition: None, span }, next))
        }
    }

    fn parse_raw_value(&self, pos: usize, depth: usize) -> (r: Result<
        (RawValue, usize),
        ParseError,
    >)
        requires
            self.can_read(pos),
            depth <= MAX_RAW_VALUE_DEPTH,
        ensures
            at(r) == read_raw_value(self.ts(), pos as int, self.params(), depth as int),
            advances(r, pos, self.tokens@.len()),
        decreases self.tokens@.len() - pos, 0int,
    {
        let level: usize = depth + 1;
        if level > MAX_RAW_VALUE_DEPTH {
            return Err(
                ParseError::RawValueTooDeep {
                    limit: MAX_RAW_VALUE_DEPTH,
                    span: self.span_at(pos),
                },
            );
        }
        let open = self.span_at(pos);
        match self.kind(pos) {
            TokenKind::LBracket => {
                let (items, last) = if self.kind(pos + 1) == TokenKind::RBracket {
                    (no_items(), pos + 1)
                } else {
                    match self.parse_raw_items(pos + 1, level) {
                        Ok(read) => read,
                        Err(error) => {
                            return Err(error);
                        },
                    }
                };
                match self.expect(last, TokenKind::RBracket) {
                    Ok((close, end)) => {
                        let value = RawValue::List(items, open.to(close.span));
                        proof {
                            crate::ast::lemma_raw_view(value);
                        }
                        Ok((value, end))
                    },
                    Err(error) => Err(error),
                }
            },
            TokenKind::LBrace => {
                let (pairs, last) = match self.parse_raw_pairs(pos + 1, level) {
                    Ok(read) => read,
                    Err(error) => {
                        return Err(error);
                    },
                };
                match self.expect(last, TokenKind::RBrace) {
                    Ok((close, end)) => {
                        let value = RawValue::Mapping(pairs, open.to(close.span));
                        proof {
                            crate::ast::lemma_raw_view(value);
                        }
                        Ok((value, end))
                    },
                    Err(error) => Err(error),
                }
            },
            _ => match self.parse_literal(pos) {
                Ok((lit, end)) => Ok((RawValue::Literal(lit), end)),
                Err(error) => Err(error),
            },
        }
    }

    fn parse_raw_items(&self, pos: usize, depth: usize) -> (r: Result<
        (Vec<RawValue>, usize),
        ParseError,
    >)
        requires
            self.can_read(pos),
            depth <= MAX_RAW_VALUE_DEPTH,
        ensures
            at(r) == read_raw_items(
                self.ts(),
                pos as int,
                self.params(),
                depth as int,
                Seq::empty(),
            ),
            advances(r, pos, self.tokens@.len()),
        decreases self.tokens@.len() - pos, 1int,
    {
        let mut items: Vec<RawValue> = no_items();
        let mut p: usize = pos;
        loop
            invariant
                self.can_read(p),
                pos <= p,
                depth <= MAX_RAW_VALUE_DEPTH,
                read_raw_items(self.ts(), pos as int, self.params(), depth as int, Seq::empty())
                    == read_raw_items(
                    self.ts(),
                    p as int,
                    self.params(),
                    depth as int,
                    items.deep_view(),
                ),
            decreases self.tokens@.len() - p,
        {
            let (item, next) = match self.parse_raw_value(p, depth) {
                Ok(read) => read,
                Err(error) => {
                    return Err(error);
                },
            };
            push_to(&mut items, item);
            if self.kind(next) != TokenKind::Comma {
                return Ok((items, next));
            }
            p = next + 1;
        }
    }

    fn parse_raw_pairs(&self, pos: usize, depth: usize) -> (r: Result<
        (Vec<(Literal, RawValue)>, usize),
        ParseError,
    >)
        requires
            self.can_read(pos),
            depth <= MAX_RAW_VALUE_DEPTH,
        ensures
            at(r) == read_raw_pairs(
                self.ts(),
                pos as int,
                self.params(),
                depth as int,
                Seq::empty(),
            ),
            goes_on(r, pos, self.tokens@.len()),
        decreases self.tokens@.len() - pos, 1int,
    {
        let mut pairs: Vec<(Literal, RawValue)> = no_items();
        let mut p: usize = pos;
        loop
            invariant
                self.can_read(p),
                pos <= p,
                depth <= MAX_RAW_VALUE_DEPTH,
                read_raw_pairs(self.ts(), pos as int, self.params(), depth as int, Seq::empty())
                    == read_raw_pairs(
                    self.ts(),
                    p as int,
                    self.params(),
                    depth as int,
                    pairs.deep_view(),
                ),
            decreases self.tokens@.len() - p,
        {
            if self.kind(p) == TokenKind::RBrace {
                return Ok((pairs, p));
            }
            let (key, after_key) = match self.parse_key(p) {
                Ok(read) => read,
                Err(error) => {
                    return Err(error);
                },
            };
            let (_, after_colon) = match self.expect(after_key, TokenKind::Colon) {
                Ok(read) => read,
                Err(error) => {
                    return Err(error);
                },
            };
            let (value, after) = match self.parse_raw_value(after_colon, depth) {
                Ok(read) => read,
                Err(error) => {
                    return Err(error);
                },
            };
            let first = find_pair(&pairs, key.text());
            if first < pairs.len() {
                assert(pairs.deep_view()[first as int] == pairs@[first as int].deep_view());
                return Err(
                    ParseError::DuplicateMapKey {
                        on_type: "raw",
                        side: MapSide::Key,
                        value: key.text().to_owned(),
                        first: pairs[first].0.span(),
                        second: key.span(),
                    },
                );
            }
            push_to(&mut pairs, (key, value));
            p =
            if self.kind(after) == TokenKind::Comma {
                after + 1
            } else {
                after
            };
        }
    }

    fn parse_raw_entry(&self, pos: usize) -> (r: Result<(RawEntry, usize), ParseError>)
        requires
            self.can_read(pos),
        ensures
            at(r) == read_raw_entry(self.ts(), pos as int, self.params()),
            advances(r, pos, self.tokens@.len()),
    {
        let (key, after_key) = match self.parse_key(pos) {
            Ok(read) => read,
            Err(error) => {
                return Err(error);
            },
        };
        let (_, after_colon) = match self.expect(after_key, TokenKind::Colon) {
            Ok(read) => read,
            Err(error) => {
                return Err(error);
            },
        };
        match self.parse_raw_value(after_colon, 0) {
            Ok((value, end)) => {
                let span = key.span().to(value.span());
                Ok((RawEntry { key, value, span }, end))
            },
            Err(error) => Err(error),
        }
    }

    fn parse_map_body<E: EntryRule>(&self, pos: usize, schema: &TypeSchema) -> (r: Result<
        (Vec<E::Entry>, usize),
        ParseError,
    >)
        requires
            self.can_read(pos),
        ensures
            at(r) == read_map_body::<E>(
                self.ts(),
                pos as int,
                self.params(),
                schema.deep_view(),
            ),
            advances(r, pos, self.tokens@.len()),
    {
        let (_, first) = match self.expect(pos, TokenKind::LBrace) {
            Ok(read) => read,
            Err(error) => {
                return Err(error);
            },
        };
        let mut entries: Vec<E::Entry> = no_items();
        let mut p: usize = first;
        while self.kind(p) != TokenKind::RBrace
            invariant
                self.can_read(p),
                first <= p,
                expected(self.ts(), pos as int, TokenKind::LBrace) matches Ok((_, q)) && q == first,
                read_entries::<E>(
                    self.ts(),
                    first as int,
                    self.params(),
                    schema.deep_view(),
                    Seq::empty(),
                ) == read_entries::<E>(
                    self.ts(),
                    p as int,
                    self.params(),
                    schema.deep_view(),
                    entries.deep_view(),
                ),
            decreases self.tokens@.len() - p,
        {
            let (entry, after) = match E::parse_entry(self, p, schema) {
                Ok(read) => read,
                Err(error) => {
                    return Err(error);
                },
            };
            push_to(&mut entries, entry);
            if self.kind(after) == TokenKind::Comma {
                p = after + 1;
            } else if self.kind(after) != TokenKind::RBrace && self.span_at(after).line
                == self.span_at(after - 1).line {
                return Err(self.described(after, "a comma or a newline before the next entry"));
            } else {
                p = after;
            }
        }
        match self.expect(p, TokenKind::RBrace) {
            Ok((_, end)) => Ok((entries, end)),
            Err(error) => Err(error),
        }
    }

    fn parse_map<E: EntryRule>(&self, pos: usize, schema: &TypeSchema) -> (r: Result<
        (Vec<E::Entry>, usize),
        ParseError,
    >)
        requires
            self.can_read(pos),
        ensures
            at(r) == read_map::<E>(self.ts(), pos as int, self.params(), schema.deep_view()),
            advances(r, pos, self.tokens@.len()),
    {
        if self.kind(pos) == TokenKind::LBrace {
            self.parse_map_body::<E>(pos, schema)
        } else if value_can_start(self.kind(pos)) {
            match E::parse_entry(self, pos, schema) {
                Ok((entry, end)) => {
                    let mut entries: Vec<E::Entry> = no_items();
                    push_to(&mut entries, entry);
                    assert(entries.deep_view() =~= seq![entry.deep_view()]);
                    Ok((entries, end))
                },
                Err(error) => Err(error),
            }
        } else {
            Err(self.described(pos, "a value or `{`"))
        }
    }

    fn expect_map_separator(&self, pos: usize, schema: &TypeSchema, key_span: Span) -> (r: Result<
        usize,
        ParseError,
    >)
        requires
            self.can_read(pos),
        ensures
            match r {
                Ok(next) => past_separator(self.ts(), pos as int, schema.deep_view(), key_span)
                    == Ok::<int, ParseErrorV>(next as int) && pos <= next < self.tokens@.len(),
                Err(error) => past_separator(self.ts(), pos as int, schema.deep_view(), key_span)
                    == Err::<int, ParseErrorV>(error.deep_view()),
            },
    {
        let separator = match schema.map_separator {
            Some(kind) => kind,
            None => TokenKind::Colon,
        };
        let kind = self.kind(pos);
        if kind == TokenKind::Colon || kind == separator {
            if kind == TokenKind::Eof {
                Ok(pos)
            } else {
                Ok(pos + 1)
            }
        } else {
            Err(
                ParseError::MapEntryMissingSeparator {
                    on_type: schema.name,
                    separator,
                    span: key_span,
                },
            )
        }
    }

    fn parse_literal_map_entry(&self, pos: usize, schema: &TypeSchema) -> (r: Result<
        (EnvEntry, usize),
        ParseError,
    >)
        requires
            self.can_read(pos),
        ensures
            at(r) == LiteralEntries::entry(
                self.ts(),
                pos as int,
                self.params(),
                schema.deep_view(),
            ),
            advances(r, pos, self.tokens@.len()),
    {
        let (key, after_key) = match self.parse_literal(pos) {
            Ok(read) => read,
            Err(error) => {
                return Err(error);
            },
        };
        let after = match self.expect_map_separator(after_key, schema, key.span()) {
            Ok(after) => after,
            Err(error) => {
                return Err(error);
            },
        };
        match self.parse_literal(after) {
            Ok((value, end)) => {
                let span = key.span().to(value.span());
                Ok((EnvEntry { key, value, span }, end))
            },
            Err(error) => Err(error),
        }
    }

    fn parse_label_value(&self, pos: usize) -> (r: Result<(LabelValue, usize), ParseError>)
        requires
            self.can_read(pos),
        ensures
            at(r) == read_label_value(self.ts(), pos as int, self.params()),
            advances(r, pos, self.tokens@.len()),
    {
        if self.kind(pos) == TokenKind::LBracket {
            match self.parse_bracketed::<Literals>(pos) {
                Ok(((items, span), end)) => Ok((LabelValue::List(items, span), end)),
                Err(error) => Err(error),
            }
        } else {
            match self.parse_literal(pos) {
                Ok((lit, end)) => Ok((LabelValue::Scalar(lit), end)),
                Err(error) => Err(error),
            }
        }
    }

    fn parse_label_map_entry(&self, pos: usize, schema: &TypeSchema) -> (r: Result<
        (LabelEntry, usize),
        ParseError,
    >)
        requires
            self.can_read(pos),
        ensures
            at(r) == LabelEntries::entry(
                self.ts(),
                pos as int,
                self.params(),
                schema.deep_view(),
            ),
            advances(r, pos, self.tokens@.len()),
    {
        let (key, after_key) = match self.parse_literal(pos) {
            Ok(read) => read,
            Err(error) => {
                return Err(error);
            },
        };
        let after = match self.expect_map_separator(after_key, schema, key.span()) {
            Ok(after) => after,
            Err(error) => {
                return Err(error);
            },
        };
        match self.parse_label_value(after) {
            Ok((value, end)) => {
                let span = key.span().to(value.span());
                Ok((LabelEntry { key, value, span }, end))
            },
            Err(error) => Err(error),
        }
    }

    fn parse_host(&self, pos: usize) -> (r: Result<(ArrowMapHost, usize), ParseError>)
        requires
            self.can_read(pos),
        ensures
            at(r) == read_host(self.ts(), pos as int, self.params()),
            advances(r, pos, self.tokens@.len()),
    {
        if self.kind(pos) == TokenKind::Ident {
            match self.parse_literal_reference(pos) {
                Ok((lit, end)) => Ok((ArrowMapHost::Named(lit), end)),
                Err(error) => Err(error),
            }
        } else {
            match self.parse_literal(pos) {
                Ok((lit, end)) => Ok((ArrowMapHost::BindMount(lit), end)),
                Err(error) => Err(error),
            }
        }
    }

    fn parse_mount_options(&self, pos: usize, schema: &TypeSchema) -> (r: Result<
        (Span, usize),
        ParseError,
    >)
        requires
            self.can_read(pos),
        ensures
            at(r) == read_mount_options(self.ts(), pos as int, schema.deep_view()),
            advances(r, pos, self.tokens@.len()),
    {
        let (key, after_key) = match self.expect(pos, TokenKind::Ident) {
            Ok(read) => read,
            Err(error) => {
                return Err(error);
            },
        };
        if !same_text(key.lexeme.as_str(), "read_only") {
            return Err(
                ParseError::UnknownField {
                    on_type: schema.name,
                    field: key.lexeme.clone(),
                    raw_escape_hatch: false,
                    span: key.span,
                },
            );
        }
        match self.expect(after_key, TokenKind::RBrace) {
            Ok((close, end)) => Ok((close.span, end)),
            Err(error) => Err(error),
        }
    }

    fn parse_mount_map_entry(&self, pos: usize, schema: &TypeSchema) -> (r: Result<
        (ArrowMapEntry, usize),
        ParseError,
    >)
        requires
            self.can_read(pos),
        ensures
            at(r) == MountEntries::entry(
                self.ts(),
                pos as int,
                self.params(),
                schema.deep_view(),
            ),
            advances(r, pos, self.tokens@.len()),
    {
        let (host, after_host) = match self.parse_host(pos) {
            Ok(read) => read,
            Err(error) => {
                return Err(error);
            },
        };
        let start = host.span();
        let after = match self.expect_map_separator(after_host, schema, start) {
            Ok(after) => after,
            Err(error) => {
                return Err(error);
            },
        };
        let (container, next) = match self.parse_literal(after) {
            Ok(read) => read,
            Err(error) => {
                return Err(error);
            },
        };
        if self.kind(next) == TokenKind::LBrace {
            match self.parse_mount_options(next + 1, schema) {
                Ok((close, end)) => Ok(
                    (
                        ArrowMapEntry { host, container, read_only: true, span: start.to(close) },
                        end,
                    ),
                ),
                Err(error) => Err(error),
            }
        } else {
            let span = start.to(container.span());
            Ok((ArrowMapEntry { host, container, read_only: false, span }, next))
        }
    }

    fn parse_arguments(&self, pos: usize, name: Span) -> (r: Result<
        ((RawMap, Span), usize),
        ParseError,
    >)
        requires
            self.can_read(pos),
        ensures
            at(r) == read_arguments(self.ts(), pos as int, self.params(), name),
            goes_on(r, pos, self.tokens@.len()),
    {
        if self.kind(pos) == TokenKind::LBrace {
            let schema = BuiltIn::Raw.schema();
            match self.parse_map_body::<RawEntries>(pos, &schema) {
                Ok((entries, end)) => Ok(((RawMap { entries }, self.span_at(end - 1)), end)),
                Err(error) => Err(error),
            }
        } else {
            Ok(((RawMap { entries: no_items() }, name), pos))
        }
    }

    fn parse_template_name(&self, pos: usize) -> (r: Result<
        ((Option<Ident>, Ident), usize),
        ParseError,
    >)
        requires
            self.can_read(pos),
        ensures
            at(r) == read_template_name(self.ts(), pos as int),
            advances(r, pos, self.tokens@.len()),
    {
        let (first, next) = match self.expect(pos, TokenKind::Ident) {
            Ok(read) => read,
            Err(error) => {
                return Err(error);
            },
        };
        let first_ident = Ident { name: first.lexeme.clone(), span: first.span };
        if self.kind(next) == TokenKind::Dot {
            match self.expect(next + 1, TokenKind::Ident) {
                Ok((second, end)) => Ok(
                    (
                        (
                            Some(first_ident),
                            Ident { name: second.lexeme.clone(), span: second.span },
                        ),
                        end,
                    ),
                ),
                Err(error) => Err(error),
            }
        } else {
            Ok(((None, first_ident), next))
        }
    }

    fn parse_template_invocation(&self, pos: usize) -> (r: Result<
        (TemplateInvocation, usize),
        ParseError,
    >)
        requires
            self.can_read(pos),
        ensures
            at(r) == read_invocation(self.ts(), pos as int, self.params()),
            advances(r, pos, self.tokens@.len()),
    {
        let ((qualifier, name), next) = match self.parse_template_name(pos) {
            Ok(read) => read,
            Err(error) => {
                return Err(error);
            },
        };
        let start = match &qualifier {
            Some(q) => q.span,
            None => name.span,
        };
        match self.parse_arguments(next, name.span) {
            Ok(((args, last), end)) => Ok(
                (TemplateInvocation { qualifier, name, args, span: start.to(last) }, end),
            ),
            Err(error) => Err(error),
        }
    }

    fn parse_field_value_literal(&self, pos: usize) -> (r: Result<(Literal, usize), ParseError>)
        requires
            self.can_read(pos),
        ensures
            at(r) == read_field_value(self.ts(), pos as int, self.params()),
            advances(r, pos, self.tokens@.len()),
    {
        let kind = self.kind(pos);
        if kind == TokenKind::Colon {
            self.parse_literal(pos + 1)
        } else if value_can_start(kind) {
            self.parse_literal(pos)
        } else {
            Err(self.described(pos, "a value"))
        }
    }

    fn parse_map_field(
        &self,
        pos: usize,
        name: &'static str,
        nested: &TypeSchema,
        fields: StructFields,
    ) -> (r: Result<(StructFields, usize), ParseError>)
        requires
            self.can_read(pos),
        ensures
            at(r) == read_map_field(
                self.ts(),
                pos as int,
                self.params(),
                name@,
                nested.deep_view(),
                fields.deep_view(),
            ),
            advances(r, pos, self.tokens@.len()),
    {
        if nested.schema_free {
            let (entries, end) = match self.parse_map::<RawEntries>(pos, nested) {
                Ok(read) => read,
                Err(error) => {
                    return Err(error);
                },
            };
            match merge_raw_entries(get_raw(&fields, name), &entries) {
                Ok(all) => Ok((put_value(fields, name, FieldValue::Raw(all)), end)),
                Err(error) => Err(error),
            }
        } else if nested.key_may_be_reference {
            let (entries, end) = match self.parse_map::<MountEntries>(pos, nested) {
                Ok(read) => read,
                Err(error) => {
                    return Err(error);
                },
            };
            match merge_mount_map_entries(get_mounts(&fields, name), &entries, nested) {
                Ok(all) => Ok((put_value(fields, name, FieldValue::MountMap(all)), end)),
                Err(error) => Err(error),
            }
        } else if nested.built_in == BuiltIn::Labels {
            let (entries, end) = match self.parse_map::<LabelEntries>(pos, nested) {
                Ok(read) => read,
                Err(error) => {
                    return Err(error);
                },
            };
            match merge_label_entries(get_labels(&fields, name), &entries, nested) {
                Ok(all) => Ok((put_value(fields, name, FieldValue::LabelMap(all)), end)),
                Err(error) => Err(error),
            }
        } else {
            let (entries, end) = match self.parse_map::<LiteralEntries>(pos, nested) {
                Ok(read) => read,
                Err(error) => {
                    return Err(error);
                },
            };
            match merge_map_entries(get_entries(&fields, name), &entries, nested) {
                Ok(all) => Ok((put_value(fields, name, FieldValue::LiteralMap(all)), end)),
                Err(error) => Err(error),
            }
        }
    }

    fn parse_list_field(
        &self,
        pos: usize,
        name: &'static str,
        kind: FieldKind,
        fields: StructFields,
    ) -> (r: Result<(StructFields, usize), ParseError>)
        requires
            self.can_read(pos),
        ensures
            at(r) == read_list_field(
                self.ts(),
                pos as int,
                self.params(),
                name@,
                kind,
                fields.deep_view(),
            ),
            advances(r, pos, self.tokens@.len()),
    {
        match kind {
            FieldKind::TemplateInvocationList => match self.parse_list_value::<Invocations>(pos) {
                Ok((more, end)) => {
                    let all = extend(get_invocations(&fields, name), &more);
                    Ok((put_value(fields, name, FieldValue::Invocations(all)), end))
                },
                Err(error) => Err(error),
            },
            FieldKind::DependsOnList => match self.parse_list_value::<Dependencies>(pos) {
                Ok((more, end)) => {
                    let all = extend(get_dependencies(&fields, name), &more);
                    Ok((put_value(fields, name, FieldValue::Dependencies(all)), end))
                },
                Err(error) => Err(error),
            },
            _ => match self.parse_list_value::<References>(pos) {
                Ok((more, end)) => {
                    let all = extend(get_references(&fields, name), &more);
                    Ok((put_value(fields, name, FieldValue::References(all)), end))
                },
                Err(error) => Err(error),
            },
        }
    }

    fn parse_statement_into(&self, pos: usize, schema: &TypeSchema, fields: StructFields) -> (r:
        Result<(StructFields, usize), ParseError>)
        requires
            self.can_read(pos),
        ensures
            at(r) == read_statement(
                self.ts(),
                pos as int,
                self.params(),
                schema.deep_view(),
                fields.deep_view(),
            ),
            advances(r, pos, self.tokens@.len()),
        decreases self.tokens@.len() - pos, 0int,
    {
        let (key, next) = match self.parse_key(pos) {
            Ok(read) => read,
            Err(error) => {
                return Err(error);
            },
        };
        let key_span = key.span();
        let field = match resolve_field(schema, key.text()) {
            FieldResolution::Field(field) => field,
            FieldResolution::Moved(guidance) => {
                return Err(
                    ParseError::MovedField {
                        on_type: schema.name,
                        field: key.text().to_owned(),
                        guidance,
                        span: key_span,
                    },
                );
            },
            _ => {
                return Err(
                    ParseError::UnknownField {
                        on_type: schema.name,
                        field: key.text().to_owned(),
                        raw_escape_hatch: supports_raw(schema),
                        span: key_span,
                    },
                );
            },
        };
        match field.kind {
            FieldKind::Scalar => match self.parse_field_value_literal(next) {
                Ok((lit, end)) => insert_single_at(
                    schema,
                    fields,
                    field.name,
                    FieldValue::Scalar(lit),
                    end,
                ),
                Err(error) => Err(error),
            },
            FieldKind::BoolFlag => if self.kind(next) == TokenKind::Colon {
                Err(self.described(next, "no value — this flag is set by bare presence only"))
            } else {
                insert_single_at(schema, fields, field.name, FieldValue::Flag(key_span), next)
            },
            FieldKind::ScalarOrList => match self.parse_scalar_or_list_value(next) {
                Ok((value, end)) => insert_single_at(
                    schema,
                    fields,
                    field.name,
                    FieldValue::ScalarOrList(value),
                    end,
                ),
                Err(error) => Err(error),
            },
            FieldKind::Nested(nested) => self.parse_nested_into(
                next,
                schema,
                field.name,
                &nested.schema(),
                fields,
            ),
            kind => self.parse_list_field(next, field.name, kind, fields),
        }
    }

    fn parse_nested_into(
        &self,
        pos: usize,
        schema: &TypeSchema,
        name: &'static str,
        nested: &TypeSchema,
        fields: StructFields,
    ) -> (r: Result<(StructFields, usize), ParseError>)
        requires
            self.can_read(pos),
        ensures
            at(r) == read_nested(
                self.ts(),
                pos as int,
                self.params(),
                schema.deep_view(),
                name@,
                nested.deep_view(),
                fields.deep_view(),
            ),
            advances(r, pos, self.tokens@.len()),
        decreases self.tokens@.len() - pos, 3int,
    {
        let start = self.skip_colon(pos);
        match nested.kind {
            SchemaKind::Mapping => self.parse_map_field(start, name, nested, fields),
            SchemaKind::Struct => {
                let bare = value_can_start(self.kind(start));
                let ((inner, span), end) = if self.kind(start) == TokenKind::LBrace {
                    match self.parse_struct_body(start, nested) {
                        Ok(read) => read,
                        Err(error) => {
                            return Err(error);
                        },
                    }
                } else {
                    match nested.primary_field {
                        None => {
                            return Err(self.unexpected(start, Expected::Token(TokenKind::LBrace)));
                        },
                        Some(primary) => {
                            if !bare {
                                return Err(self.described(start, "a value or `{`"));
                            }
                            match self.parse_struct_primary_shorthand(start, nested, primary) {
                                Ok(read) => read,
                                Err(error) => {
                                    return Err(error);
                                },
                            }
                        },
                    }
                };
                if bare && nested.built_in == BuiltIn::Expose && self.kind(end) == TokenKind::Ident
                    && same_text(self.token(end).lexeme.as_str(), "as") {
                    return Err(ParseError::RemovedExposeAsSugar { span: self.span_at(end) });
                }
                let value = FieldValue::Struct(inner, span);
                proof {
                    lemma_struct_view(value);
                }
                insert_single_at(schema, fields, name, value, end)
            },
        }
    }

    fn parse_invocation_shorthand(&self, pos: usize, primary: &'static str) -> (r: Result<
        ((StructFields, Span), usize),
        ParseError,
    >)
        requires
            self.can_read(pos),
        ensures
            at(r) == read_invocation_shorthand(
                self.ts(),
                pos as int,
                self.params(),
                primary@,
            ),
            advances(r, pos, self.tokens@.len()),
    {
        let start = self.span_at(pos);
        let (items, end) = if self.kind(pos) == TokenKind::LBracket {
            match self.parse_bracketed::<Invocations>(pos) {
                Ok(((items, _), end)) => (items, end),
                Err(error) => {
                    return Err(error);
                },
            }
        } else {
            match self.parse_bare::<Invocations>(pos) {
                Ok(read) => read,
                Err(error) => {
                    return Err(error);
                },
            }
        };
        let value = FieldValue::Invocations(items);
        let mut fields: StructFields = no_items();
        push_to(&mut fields, (primary, value));
        assert(fields.deep_view() =~= seq![(primary@, value.deep_view())]);
        Ok(((fields, start), end))
    }

    fn parse_literal_shorthand(&self, pos: usize, primary: &'static str) -> (r: Result<
        ((StructFields, Span), usize),
        ParseError,
    >)
        requires
            self.can_read(pos),
        ensures
            at(r) == read_literal_shorthand(self.ts(), pos as int, self.params(), primary@),
            advances(r, pos, self.tokens@.len()),
    {
        let (lit, end) = match self.parse_literal(pos) {
            Ok(read) => read,
            Err(error) => {
                return Err(error);
            },
        };
        let start = lit.span();
        let value = FieldValue::Scalar(lit);
        let mut fields: StructFields = no_items();
        push_to(&mut fields, (primary, value));
        assert(fields.deep_view() =~= seq![(primary@, value.deep_view())]);
        Ok(((fields, start), end))
    }

    fn parse_struct_primary_shorthand(
        &self,
        pos: usize,
        nested: &TypeSchema,
        primary: &'static str,
    ) -> (r: Result<((StructFields, Span), usize), ParseError>)
        requires
            self.can_read(pos),
            nested.deep_view().primary_field == Some(primary@),
        ensures
            at(r) == read_shorthand(
                self.ts(),
                pos as int,
                self.params(),
                nested.deep_view(),
            ),
            advances(r, pos, self.tokens@.len()),
        decreases self.tokens@.len() - pos, 2int,
    {
        let invokes = match find_field(nested, primary) {
            Some(field) => match field.kind {
                FieldKind::TemplateInvocationList => true,
                _ => false,
            },
            None => false,
        };
        let ((fields, start), next) = if invokes {
            match self.parse_invocation_shorthand(pos, primary) {
                Ok(read) => read,
                Err(error) => {
                    return Err(error);
                },
            }
        } else {
            match self.parse_literal_shorthand(pos, primary) {
                Ok(read) => read,
                Err(error) => {
                    return Err(error);
                },
            }
        };
        match self.parse_secondary_fields(next, nested, fields) {
            Ok((all, end)) => Ok(((all, start.to(self.span_at(end - 1))), end)),
            Err(error) => Err(error),
        }
    }

    fn continues(&self, pos: usize, nested: &TypeSchema) -> (r: bool)
        requires
            self.can_read(pos),
        ensures
            r == continues_with_field(self.ts(), pos as int, nested.deep_view()),
            r ==> pos + 1 < self.tokens@.len() <= usize::MAX,
    {
        if self.kind(pos) != TokenKind::Comma {
            return false;
        }
        match self.kind(pos + 1) {
            TokenKind::Ident | TokenKind::Str => match resolve_field(
                nested,
                self.token(pos + 1).lexeme.as_str(),
            ) {
                FieldResolution::Field(_) => true,
                _ => false,
            },
            _ => false,
        }
    }

    fn parse_secondary_fields(&self, pos: usize, nested: &TypeSchema, fields: StructFields) -> (r:
        Result<(StructFields, usize), ParseError>)
        requires
            self.can_read(pos),
        ensures
            at(r) == read_secondary(
                self.ts(),
                pos as int,
                self.params(),
                nested.deep_view(),
                fields.deep_view(),
            ),
            goes_on(r, pos, self.tokens@.len()),
        decreases self.tokens@.len() - pos, 1int,
    {
        let mut all = fields;
        let mut p: usize = pos;
        while self.continues(p, nested)
            invariant
                self.can_read(p),
                pos <= p,
                read_secondary(
                    self.ts(),
                    pos as int,
                    self.params(),
                    nested.deep_view(),
                    fields.deep_view(),
                ) == read_secondary(
                    self.ts(),
                    p as int,
                    self.params(),
                    nested.deep_view(),
                    all.deep_view(),
                ),
            decreases self.tokens@.len() - p,
        {
            match self.parse_statement_into(p + 1, nested, all) {
                Ok((more, next)) => {
                    all = more;
                    p = next;
                },
                Err(error) => {
                    return Err(error);
                },
            }
        }
        Ok((all, p))
    }

    fn parse_struct_body(&self, pos: usize, schema: &TypeSchema) -> (r: Result<
        ((StructFields, Span), usize),
        ParseError,
    >)
        requires
            self.can_read(pos),
        ensures
            at(r) == read_struct_body(
                self.ts(),
                pos as int,
                self.params(),
                schema.deep_view(),
            ),
            advances(r, pos, self.tokens@.len()),
        decreases self.tokens@.len() - pos, 2int,
    {
        let (open, first) = match self.expect(pos, TokenKind::LBrace) {
            Ok(read) => read,
            Err(error) => {
                return Err(error);
            },
        };
        let mut fields: StructFields = no_items();
        let mut p: usize = first;
        let mut fresh = true;
        while self.kind(p) != TokenKind::RBrace
            invariant
                self.can_read(p),
                pos < first <= p,
                fresh == (p == first),
                expected(self.ts(), pos as int, TokenKind::LBrace) == Ok::<
                    (TokenV, int),
                    ParseErrorV,
                >((open.deep_view(), first as int)),
                read_statements(
                    self.ts(),
                    first as int,
                    self.params(),
                    schema.deep_view(),
                    Seq::empty(),
                    true,
                ) == read_statements(
                    self.ts(),
                    p as int,
                    self.params(),
                    schema.deep_view(),
                    fields.deep_view(),
                    fresh,
                ),
            decreases self.tokens@.len() - p,
        {
            if !fresh && self.span_at(p - 1).line == self.span_at(p).line {
                return Err(self.described(p, "a newline before the next field"));
            }
            match self.parse_statement_into(p, schema, fields) {
                Ok((more, next)) => {
                    fields = more;
                    p = next;
                },
                Err(error) => {
                    return Err(error);
                },
            }
            fresh = false;
        }
        match self.expect(p, TokenKind::RBrace) {
            Ok((close, end)) => Ok(((fields, open.span.to(close.span)), end)),
            Err(error) => Err(error),
        }
    }

    fn parse_params(&self, pos: usize) -> (r: Result<(Vec<Param>, usize), ParseError>)
        requires
            self.can_read(pos),
        ensures
            at(r) == read_params(self.ts(), pos as int, Seq::empty()),
            advances(r, pos, self.tokens@.len()),
    {
        let mut params: Vec<Param> = no_items();
        let mut p: usize = pos;
        loop
            invariant
                self.can_read(p),
                pos <= p,
                read_params(self.ts(), pos as int, Seq::empty()) == read_params(
                    self.ts(),
                    p as int,
                    params.deep_view(),
                ),
            decreases self.tokens@.len() - p,
        {
            let (tok, next) = match self.expect(p, TokenKind::Ident) {
                Ok(read) => read,
                Err(error) => {
                    return Err(error);
                },
            };
            let first = find_param(&params, tok.lexeme.as_str());
            if first < params.len() {
                assert(params.deep_view()[first as int] == params@[first as int].deep_view());
                return Err(
                    ParseError::DuplicateTemplateParam {
                        param: tok.lexeme.clone(),
                        first: params[first].name.span,
                        second: tok.span,
                    },
                );
            }
            push_to(
                &mut params,
                Param { name: Ident { name: tok.lexeme.clone(), span: tok.span } },
            );
            if self.kind(next) != TokenKind::Comma {
                return Ok((params, next));
            }
            p = next + 1;
        }
    }

    fn parse_param_list(&self, pos: usize) -> (r: Result<(Vec<Param>, usize), ParseError>)
        requires
            self.can_read(pos),
        ensures
            at(r) == read_param_list(self.ts(), pos as int),
            advances(r, pos, self.tokens@.len()),
    {
        let (_, first) = match self.expect(pos, TokenKind::LParen) {
            Ok(read) => read,
            Err(error) => {
                return Err(error);
            },
        };
        let (params, last) = if self.kind(first) == TokenKind::RParen {
            (no_items(), first)
        } else {
            match self.parse_params(first) {
                Ok(read) => read,
                Err(error) => {
                    return Err(error);
                },
            }
        };
        match self.expect(last, TokenKind::RParen) {
            Ok((_, end)) => Ok((params, end)),
            Err(error) => Err(error),
        }
    }

    fn parse_template_decl(&self, pos: usize) -> (r: Result<(TemplateDecl, usize), ParseError>)
        requires
            self.can_read(pos),
        ensures
            at(r) == read_template(self.ts(), pos as int),
            advances(r, pos, self.tokens@.len()),
    {
        let (keyword, after_keyword) = match self.expect(pos, TokenKind::Template) {
            Ok(read) => read,
            Err(error) => {
                return Err(error);
            },
        };
        let (name, after_name) = match self.expect(after_keyword, TokenKind::Ident) {
            Ok(read) => read,
            Err(error) => {
                return Err(error);
            },
        };
        let (params, next) = if self.kind(after_name) == TokenKind::LParen {
            match self.parse_param_list(after_name) {
                Ok(read) => read,
                Err(error) => {
                    return Err(error);
                },
            }
        } else {
            (no_items(), after_name)
        };
        if self.kind(next) != TokenKind::LBrace {
            return Err(self.described(next, "`{`"));
        }
        let inside = Parser { tokens: self.tokens, template_params: Some(&params) };
        let schema = BuiltIn::Template.schema();
        let ((fields, body), end) = match inside.parse_struct_body(next, &schema) {
            Ok(read) => read,
            Err(error) => {
                return Err(error);
            },
        };
        let fields = lower_service_fields(&fields);
        Ok(
            (
                TemplateDecl {
                    name: Ident { name: name.lexeme.clone(), span: name.span },
                    params,
                    fields,
                    span: keyword.span.to(body),
                },
                end,
            ),
        )
    }

    fn parse_use_decl(&self, pos: usize) -> (r: Result<(UseDecl, usize), ParseError>)
        requires
            self.can_read(pos),
        ensures
            at(r) == read_use(self.ts(), pos as int),
            advances(r, pos, self.tokens@.len()),
    {
        let (keyword, after_keyword) = match self.expect(pos, TokenKind::Ident) {
            Ok(read) => read,
            Err(error) => {
                return Err(error);
            },
        };
        let (path_tok, after_path) = match self.expect(after_keyword, TokenKind::Str) {
            Ok(read) => read,
            Err(error) => {
                return Err(error);
            },
        };
        let path = match str_literal(path_tok) {
            Ok(path) => path,
            Err(error) => {
                return Err(error);
            },
        };
        if self.kind(after_path) != TokenKind::Ident || !same_text(
            self.token(after_path).lexeme.as_str(),
            "as",
        ) {
            return Err(self.described(after_path, "`as`"));
        }
        match self.expect(after_path + 1, TokenKind::Ident) {
            Ok((alias, end)) => Ok(
                (
                    UseDecl {
                        path,
                        alias: Ident { name: alias.lexeme.clone(), span: alias.span },
                        span: keyword.span.to(alias.span),
                    },
                    end,
                ),
            ),
            Err(error) => Err(error),
        }
    }

    fn parse_top_decl(&self, pos: usize) -> (r: Result<(TopDecl, usize), ParseError>)
        requires
            self.can_read(pos),
            self.template_params is None,
        ensures
            at(r) == read_decl(self.ts(), pos as int),
            advances(r, pos, self.tokens@.len()),
    {
        if self.kind(pos) == TokenKind::Template {
            return match self.parse_template_decl(pos) {
                Ok((decl, end)) => Ok((TopDecl::Template(Box::new(decl)), end)),
                Err(error) => Err(error),
            };
        }
        if self.kind(pos) == TokenKind::Ident && same_text(
            self.token(pos).lexeme.as_str(),
            "use",
        ) {
            return match self.parse_use_decl(pos) {
                Ok((decl, end)) => Ok((TopDecl::Use(decl), end)),
                Err(error) => Err(error),
            };
        }
        let (keyword, after_keyword) = match self.expect(pos, TokenKind::Ident) {
            Ok(read) => read,
            Err(error) => {
                return Err(error);
            },
        };
        let schema = match top_level_type(keyword.lexeme.as_str()) {
            Some(schema) => schema,
            None => {
                return Err(
                    ParseError::UnknownTopLevelType {
                        name: keyword.lexeme.clone(),
                        span: keyword.span,
                    },
                );
            },
        };
        let (name_tok, after_name) = match self.expect(after_keyword, TokenKind::Ident) {
            Ok(read) => read,
            Err(error) => {
                return Err(error);
            },
        };
        let name = Ident { name: name_tok.lexeme.clone(), span: name_tok.span };
        match self.parse_struct_body(after_name, &schema) {
            Ok(((fields, body), end)) => Ok(
                (lower_decl(schema.built_in, name, &fields, keyword.span.to(body)), end),
            ),
            Err(error) => Err(error),
        }
    }

    fn parse_program(&self) -> (r: Result<Program, ParseError>)
        requires
            self.can_read(0),
            self.template_params is None,
        ensures
            outcome(r) == read_program(Ok(self.ts())),
            r matches Err(error) ==> error.deep_view().has_place(),
    {
        let mut decls: Vec<TopDecl> = no_items();
        let mut p: usize = 0;
        while self.kind(p) != TokenKind::Eof
            invariant
                self.can_read(p),
                self.template_params is None,
                read_decls(self.ts(), 0, Seq::empty()) == read_decls(
                    self.ts(),
                    p as int,
                    decls.deep_view(),
                ),
            decreases self.tokens@.len() - p,
        {
            match self.parse_top_decl(p) {
                Ok((decl, next)) => {
                    push_to(&mut decls, decl);
                    p = next;
                },
                Err(error) => {
                    return Err(error);
                },
            }
        }
        Ok(Program { decls })
    }
}

/// Reads the items of a list.
pub trait ItemRule: ItemSpec {
    type Item: DeepView<V = <Self as ItemSpec>::V>;

    fn parse_item(parser: &Parser<'_>, pos: usize) -> (r: Result<(Self::Item, usize), ParseError>)
        requires
            parser.can_read(pos),
        ensures
            at(r) == Self::item(parser.ts(), pos as int, parser.params()),
            advances(r, pos, parser.tokens@.len()),
    ;

    fn can_open(kind: TokenKind) -> (r: bool)
        ensures
            r == Self::opens(kind),
    ;

    fn stops_at_fields() -> (r: bool)
        ensures
            r == Self::yields_to_fields(),
    ;

    fn wanted_text() -> (r: &'static str)
        ensures
            r@ == Self::wanted(),
    ;
}

impl ItemRule for References {
    type Item = Literal;

    fn parse_item(parser: &Parser<'_>, pos: usize) -> (r: Result<(Literal, usize), ParseError>) {
        parser.parse_literal_reference(pos)
    }

    fn can_open(kind: TokenKind) -> (r: bool) {
        value_can_start(kind)
    }

    fn stops_at_fields() -> (r: bool) {
        true
    }

    fn wanted_text() -> (r: &'static str) {
        "a reference or a list of references"
    }
}

impl ItemRule for Literals {
    type Item = Literal;

    fn parse_item(parser: &Parser<'_>, pos: usize) -> (r: Result<(Literal, usize), ParseError>) {
        parser.parse_literal(pos)
    }

    fn can_open(kind: TokenKind) -> (r: bool) {
        value_can_start(kind)
    }

    fn stops_at_fields() -> (r: bool) {
        true
    }

    fn wanted_text() -> (r: &'static str) {
        "a value or a bracketed list"
    }
}

impl ItemRule for Dependencies {
    type Item = DependsOnEntry;

    fn parse_item(parser: &Parser<'_>, pos: usize) -> (r: Result<
        (DependsOnEntry, usize),
        ParseError,
    >) {
        parser.parse_depends_on_entry(pos)
    }

    fn can_open(kind: TokenKind) -> (r: bool) {
        value_can_start(kind)
    }

    fn stops_at_fields() -> (r: bool) {
        true
    }

    fn wanted_text() -> (r: &'static str) {
        "a service reference or a list of service references"
    }
}

impl ItemRule for Invocations {
    type Item = TemplateInvocation;

    fn parse_item(parser: &Parser<'_>, pos: usize) -> (r: Result<
        (TemplateInvocation, usize),
        ParseError,
    >) {
        parser.parse_template_invocation(pos)
    }

    fn can_open(kind: TokenKind) -> (r: bool) {
        match kind {
            TokenKind::Ident => true,
            _ => false,
        }
    }

    fn stops_at_fields() -> (r: bool) {
        false
    }

    fn wanted_text() -> (r: &'static str) {
        "a template invocation or a list of template invocations"
    }
}

/// Reads the entries of a map.
pub trait EntryRule: EntrySpec {
    type Entry: DeepView<V = <Self as EntrySpec>::V>;

    fn parse_entry(parser: &Parser<'_>, pos: usize, schema: &TypeSchema) -> (r: Result<
        (Self::Entry, usize),
        ParseError,
    >)
        requires
            parser.can_read(pos),
        ensures
            at(r) == Self::entry(
                parser.ts(),
                pos as int,
                parser.params(),
                schema.deep_view(),
            ),
            advances(r, pos, parser.tokens@.len()),
    ;
}

impl EntryRule for RawEntries {
    type Entry = RawEntry;

    fn parse_entry(parser: &Parser<'_>, pos: usize, schema: &TypeSchema) -> (r: Result<
        (RawEntry, usize),
        ParseError,
    >) {
        parser.parse_raw_entry(pos)
    }
}

impl EntryRule for LiteralEntries {
    type Entry = EnvEntry;

    fn parse_entry(parser: &Parser<'_>, pos: usize, schema: &TypeSchema) -> (r: Result<
        (EnvEntry, usize),
        ParseError,
    >) {
        parser.parse_literal_map_entry(pos, schema)
    }
}

impl EntryRule for LabelEntries {
    type Entry = LabelEntry;

    fn parse_entry(parser: &Parser<'_>, pos: usize, schema: &TypeSchema) -> (r: Result<
        (LabelEntry, usize),
        ParseError,
    >) {
        parser.parse_label_map_entry(pos, schema)
    }
}

impl EntryRule for MountEntries {
    type Entry = ArrowMapEntry;

    fn parse_entry(parser: &Parser<'_>, pos: usize, schema: &TypeSchema) -> (r: Result<
        (ArrowMapEntry, usize),
        ParseError,
    >) {
        parser.parse_mount_map_entry(pos, schema)
    }
}

fn get_scalar(fields: &StructFields, name: &str) -> (r: Option<Literal>)
    ensures
        r.deep_view() == scalar_of(fields.deep_view(), name@),
{
    match get_set(fields, name) {
        Some(FieldValue::Scalar(lit)) => Some(lit.duplicate()),
        _ => None,
    }
}

fn get_flag(fields: &StructFields, name: &str) -> (r: Option<Span>)
    ensures
        r.deep_view() == flag_of(fields.deep_view(), name@),
{
    match get_set(fields, name) {
        Some(FieldValue::Flag(span)) => Some(*span),
        _ => None,
    }
}

fn get_command<'b>(fields: &'b StructFields, name: &str) -> (r: Option<&'b ScalarOrList>)
    ensures
        r.deep_view() == command_of(fields.deep_view(), name@),
{
    match get_set(fields, name) {
        Some(FieldValue::ScalarOrList(value)) => Some(value),
        _ => None,
    }
}

fn get_struct<'b>(fields: &'b StructFields, name: &str) -> (r: Option<(&'b StructFields, Span)>)
    ensures
        r.deep_view() == struct_of(fields.deep_view(), name@),
{
    match get_set(fields, name) {
        Some(value) => {
            proof {
                lemma_struct_view(*value);
            }
            match value {
                FieldValue::Struct(inner, span) => Some((inner, *span)),
                _ => None,
            }
        },
        None => None,
    }
}

fn to_mounts(entries: &Vec<EnvEntry>) -> (r: Vec<ArrowMapEntry>)
    ensures
        r.deep_view() == as_mounts(entries.deep_view()),
{
    let mut out: Vec<ArrowMapEntry> = no_items();
    let mut i: usize = 0;
    while i < entries.len()
        invariant
            i <= entries@.len(),
            out.deep_view() == as_mounts(entries.deep_view()).take(i as int),
        decreases entries@.len() - i,
    {
        let entry = &entries[i];
        assert(entries.deep_view()[i as int] == entry.deep_view());
        push_to(
            &mut out,
            ArrowMapEntry {
                host: ArrowMapHost::BindMount(entry.key.duplicate()),
                container: entry.value.duplicate(),
                read_only: false,
                span: entry.span,
            },
        );
        assert(out.deep_view() =~= as_mounts(entries.deep_view()).take(i + 1));
        i = i + 1;
    }
    assert(out.deep_view() =~= as_mounts(entries.deep_view()));
    out
}

fn to_driver_opts(entries: &Vec<EnvEntry>) -> (r: Vec<VolumeDriverOpt>)
    ensures
        r.deep_view() == as_driver_opts(entries.deep_view()),
{
    let mut out: Vec<VolumeDriverOpt> = no_items();
    let mut i: usize = 0;
    while i < entries.len()
        invariant
            i <= entries@.len(),
            out.deep_view() == as_driver_opts(entries.deep_view()).take(i as int),
        decreases entries@.len() - i,
    {
        let entry = &entries[i];
        assert(entries.deep_view()[i as int] == entry.deep_view());
        push_to(
            &mut out,
            VolumeDriverOpt {
                key: entry.key.duplicate(),
                value: entry.value.duplicate(),
                span: entry.span,
            },
        );
        assert(out.deep_view() =~= as_driver_opts(entries.deep_view()).take(i + 1));
        i = i + 1;
    }
    assert(out.deep_view() =~= as_driver_opts(entries.deep_view()));
    out
}

fn lower_network(name: Ident, fields: &StructFields, span: Span) -> (r: Network)
    ensures
        r.deep_view() == lowered_network(name.deep_view(), fields.deep_view(), span),
{
    Network {
        name,
        external: get_flag(fields, "external"),
        real_name: get_scalar(fields, "name"),
        span,
    }
}

fn lower_volume(name: Ident, fields: &StructFields, span: Span) -> (r: Volume)
    ensures
        r.deep_view() == lowered_volume(name.deep_view(), fields.deep_view(), span),
{
    Volume {
        name,
        external: get_flag(fields, "external"),
        real_name: get_scalar(fields, "name"),
        driver: get_scalar(fields, "driver"),
        driver_opts: to_driver_opts(&get_entries(fields, "driver_opts")),
        span,
    }
}

fn lower_image(fields: &StructFields, span: Span) -> (r: Image)
    ensures
        r.deep_view() == lowered_image(fields.deep_view(), span),
{
    Image { reference: get_scalar(fields, "ref"), span }
}

fn lower_build(fields: &StructFields, span: Span) -> (r: Build)
    ensures
        r.deep_view() == lowered_build(fields.deep_view(), span),
{
    Build {
        context: get_scalar(fields, "context"),
        dockerfile: get_scalar(fields, "dockerfile"),
        span,
    }
}

fn lower_expose(fields: &StructFields, span: Span) -> (r: Expose)
    ensures
        r.deep_view() == lowered_expose(fields.deep_view(), span),
{
    Expose { port: get_scalar(fields, "port"), span }
}

fn lower_restart(fields: &StructFields, span: Span) -> (r: Restart)
    ensures
        r.deep_view() == lowered_restart(fields.deep_view(), span),
{
    Restart { policy: get_scalar(fields, "policy"), span }
}

fn lower_healthcheck(fields: &StructFields, span: Span) -> (r: Healthcheck)
    ensures
        r.deep_view() == lowered_healthcheck(fields.deep_view(), span),
{
    let test = match get_command(fields, "test") {
        Some(ScalarOrList::Scalar(lit)) => Some(HealthcheckTest::Shell(lit.duplicate())),
        Some(ScalarOrList::List(items, list_span)) => Some(
            HealthcheckTest::Exec(items.duplicate(), *list_span),
        ),
        None => None,
    };
    Healthcheck {
        test,
        interval: get_scalar(fields, "interval"),
        timeout: get_scalar(fields, "timeout"),
        retries: get_scalar(fields, "retries"),
        start_period: get_scalar(fields, "start_period"),
        start_interval: get_scalar(fields, "start_interval"),
        disable: get_flag(fields, "disable"),
        span,
    }
}

fn lower_with(fields: &StructFields) -> (r: Vec<TemplateInvocation>)
    ensures
        r.deep_view() == lowered_with(fields.deep_view()),
{
    match get_struct(fields, "with") {
        Some((inner, _)) => get_invocations(inner, "templates"),
        None => no_items(),
    }
}

fn lower_service_fields(fields: &StructFields) -> (r: ServiceFields)
    ensures
        r.deep_view() == lowered_service_fields(fields.deep_view()),
{
    let image = match get_struct(fields, "image") {
        Some((inner, span)) => Some(lower_image(inner, span)),
        None => None,
    };
    let build = match get_struct(fields, "build") {
        Some((inner, span)) => Some(lower_build(inner, span)),
        None => None,
    };
    let expose = match get_struct(fields, "expose") {
        Some((inner, span)) => Some(lower_expose(inner, span)),
        None => None,
    };
    let restart = match get_struct(fields, "restart") {
        Some((inner, span)) => Some(lower_restart(inner, span)),
        None => None,
    };
    let healthcheck = match get_struct(fields, "healthcheck") {
        Some((inner, span)) => Some(lower_healthcheck(inner, span)),
        None => None,
    };
    let command = match get_command(fields, "command") {
        Some(ScalarOrList::Scalar(lit)) => Some(Command::Shell(lit.duplicate())),
        Some(ScalarOrList::List(items, list_span)) => Some(
            Command::Exec(items.duplicate(), *list_span),
        ),
        None => None,
    };
    let entrypoint = match get_command(fields, "entrypoint") {
        Some(ScalarOrList::Scalar(lit)) => Some(Entrypoint::Shell(lit.duplicate())),
        Some(ScalarOrList::List(items, list_span)) => Some(
            Entrypoint::Exec(items.duplicate(), *list_span),
        ),
        None => None,
    };
    ServiceFields {
        image,
        build,
        expose,
        restart,
        healthcheck,
        publish: ArrowMap { entries: to_mounts(&get_entries(fields, "publish")) },
        volumes: ArrowMap { entries: get_mounts(fields, "volume") },
        env: EnvMap { entries: get_entries(fields, "env") },
        labels: LabelMap { entries: get_labels(fields, "labels") },
        raw: RawMap { entries: get_raw(fields, "raw") },
        depends_on: get_dependencies(fields, "depends_on"),
        networks: get_references(fields, "networks"),
        dns: get_references(fields, "dns"),
        env_file: get_references(fields, "env_file"),
        privileged: get_flag(fields, "privileged"),
        devices: ArrowMap { entries: to_mounts(&get_entries(fields, "devices")) },
        container_name: get_scalar(fields, "container_name"),
        command,
        entrypoint,
        with: lower_with(fields),
    }
}

fn lower_decl(built_in: BuiltIn, name: Ident, fields: &StructFields, span: Span) -> (r: TopDecl)
    ensures
        r.deep_view() == lowered_decl(built_in, name.deep_view(), fields.deep_view(), span),
{
    match built_in {
        BuiltIn::Network => TopDecl::Network(lower_network(name, fields, span)),
        BuiltIn::VolumeDecl => TopDecl::Volume(lower_volume(name, fields, span)),
        _ => TopDecl::Service(
            Box::new(Service { name, fields: lower_service_fields(fields), span }),
        ),
    }
}

/// What a lexer hands over, seen through its views.
pub open spec fn lexed_view(lexed: Result<Vec<Token>, Vec<LexError>>) -> Result<
    Seq<TokenV>,
    Seq<LexErrorV>,
> {
    match lexed {
        Ok(tokens) => Ok(tokens.deep_view()),
        Err(errors) => Err(errors.deep_view()),
    }
}

fn move_error(error: LexError, file: FileId) -> (r: LexError)
    ensures
        r.deep_view() == error_in(error.deep_view(), file),
{
    LexError { text: error.text, span: Span { file, ..error.span } }
}

fn move_errors(errors: Vec<LexError>, file: FileId) -> (r: Vec<LexError>)
    ensures
        r.deep_view() == errors.deep_view().map_values(
            |error: LexErrorV| error_in(error, file),
        ),
{
    let mut r: Vec<LexError> = no_items();
    let mut i: usize = 0;
    while i < errors.len()
        invariant
            i <= errors@.len(),
            r.deep_view() == errors.deep_view().map_values(
                |error: LexErrorV| error_in(error, file),
            ).take(i as int),
        decreases errors@.len() - i,
    {
        push_to(&mut r, move_error(errors[i].clone(), file));
        assert(errors.deep_view()[i as int] == errors@[i as int].deep_view());
        assert(r.deep_view() =~= errors.deep_view().map_values(
            |error: LexErrorV| error_in(error, file),
        ).take(i + 1));
        i = i + 1;
    }
    assert(r.deep_view() =~= errors.deep_view().map_values(
        |error: LexErrorV| error_in(error, file),
    ));
    r
}

fn move_token(tok: &Token, file: FileId) -> (r: Token)
    ensures
        r.deep_view() == token_in(tok.deep_view(), file),
{
    let content = match &tok.content {
        Ok(text) => Ok(text.clone()),
        Err(error) => Err(move_error(error.clone(), file)),
    };
    Token { kind: tok.kind, lexeme: tok.lexeme.clone(), content, span: Span { file, ..tok.span } }
}

fn move_tokens(tokens: Vec<Token>, file: FileId) -> (r: Vec<Token>)
    ensures
        r.deep_view() == tokens.deep_view().map_values(|tok: TokenV| token_in(tok, file)),
{
    let mut r: Vec<Token> = no_items();
    let mut i: usize = 0;
    while i < tokens.len()
        invariant
            i <= tokens@.len(),
            r.deep_view() == tokens.deep_view().map_values(
                |tok: TokenV| token_in(tok, file),
            ).take(i as int),
        decreases tokens@.len() - i,
    {
        push_to(&mut r, move_token(&tokens[i], file));
        assert(tokens.deep_view()[i as int] == tokens@[i as int].deep_view());
        assert(r.deep_view() =~= tokens.deep_view().map_values(
            |tok: TokenV| token_in(tok, file),
        ).take(i + 1));
        i = i + 1;
    }
    assert(r.deep_view() =~= tokens.deep_view().map_values(|tok: TokenV| token_in(tok, file)));
    r
}

/// Parses a lexed file that has no name. The tokens end with the one that
/// says so. Every error says where it is, unless it is a lexer's report of
/// no error.
pub fn parse(lexed: Result<Vec<Token>, Vec<LexError>>) -> (r: Result<Program, ParseError>)
    requires
        lexed_view(lexed) matches Ok(ts) ==> ends_with_eof(ts),
    ensures
        outcome(r) == read_program(lexed_in(lexed_view(lexed), FileId::Anonymous)),
        r matches Err(error) ==> (error.deep_view().has_place() || (lexed matches Err(errors)
            && errors@.len() == 0)),
{
    parse_in_file(lexed, FileId::Anonymous)
}

/// Parses a lexed file as [`parse`] does, with `file` in every place that
/// the tree or the error holds.
pub fn parse_in_file(lexed: Result<Vec<Token>, Vec<LexError>>, file: FileId) -> (r: Result<
    Program,
    ParseError,
>)
    requires
        lexed_view(lexed) matches Ok(ts) ==> ends_with_eof(ts),
    ensures
        outcome(r) == read_program(lexed_in(lexed_view(lexed), file)),
        r matches Err(error) ==> (error.deep_view().has_place() || (lexed matches Err(errors)
            && errors@.len() == 0)),
{
    match lexed {
        Ok(tokens) => {
            let tokens = move_tokens(tokens, file);
            let parser = Parser { tokens: &tokens, template_params: None };
            parser.parse_program()
        },
        Err(errors) => Err(ParseError::Lex(move_errors(errors, file))),
    }
}

} // verus!
