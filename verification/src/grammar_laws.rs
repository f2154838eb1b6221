//! What holds of every program that is read: parameters stay inside the
//! templates that declare them, and no map holds a key twice.

use vstd::prelude::*;
use vstd::string::*;

use crate::ast::{
    ArrowMapEntry, ArrowMapEntryV, Build, Command, DependsOnEntry, EnvEntry, EnvEntryV, Expose,
    Healthcheck, Image, LabelEntry, LabelEntryV, LabelMap, Literal, LiteralV, ParamV, RawEntry,
    RawEntryV, RawMap, RawValueV, Restart, ServiceFields, ServiceFieldsV, TemplateInvocation,
    TopDeclV,
};
use crate::compose::engine::composed_program;
use crate::compose::laws::{
    declarations_sound, law_compose_finishes_every_service, param_names, parameter_free,
    service_finished, template_sound,
};
use crate::compose::merge_laws::own_keys_distinct;
use crate::compose::slots::{literal_within, raw_within, Slots};
use crate::grammar::{
    as_mounts, command_of, entry_index, entry_text, expected, held_dependencies, held_entries,
    held_invocations, held_labels, held_mounts, held_raw, held_references, label_index,
    lowered_healthcheck, lowered_service_fields, lowered_with, mount_index, mount_text, param_index,
    past_colon, past_separator, raw_index, read_arguments, read_bare, read_bracketed, read_decl,
    read_decls, read_entries, read_field_value, read_host, read_invocation_shorthand, read_items,
    read_key, read_list, read_list_field, read_literal, read_literal_shorthand, read_map,
    read_map_body, read_map_field, read_nested, read_param, read_param_list, read_params,
    read_program, read_raw_entry, read_raw_items, read_raw_pairs, read_raw_value, read_reference,
    read_scalar_or_list, read_secondary, read_shorthand, read_statement, read_statements,
    read_struct_body, read_template, scalar_of, set_index, set_value, side_of, single_at,
    starts_value, struct_of, with_entries, with_labels, with_mounts, with_raw_entries, with_value,
    Dependencies, EntrySpec, FieldValueV, FieldsV, Invocations, ItemSpec, LabelEntries,
    LiteralEntries, Literals, MountEntries, RawEntries, References, MAX_RAW_VALUE_DEPTH,
};
use crate::schema::{
    field_from, resolution, schema_of, service_fields, top_level_built_in, BuiltIn, FieldKind,
    FieldResolutionV, FieldSchemaV, MapSide, SchemaKind, TypeSchemaV,
};
use crate::source::{LexErrorV, Span, TokenKind, TokenV};

verus! {

/// The parameters that may be referred to: those of the template whose
/// body is being read, if one is.
pub open spec fn scope_names(params: Option<Seq<ParamV>>) -> Set<Seq<char>> {
    match params {
        Some(declared) => param_names(declared),
        None => Set::empty(),
    }
}

proof fn lemma_literal_within(ts: Seq<TokenV>, p: int, params: Option<Seq<ParamV>>)
    ensures
        read_literal(ts, p, params) matches Ok((lit, _)) ==> literal_within(
            lit,
            scope_names(params),
        ),
        read_param(ts, p, params) matches Ok((lit, _)) ==> literal_within(
            lit,
            scope_names(params),
        ),
{
}

proof fn lemma_key_within(ts: Seq<TokenV>, p: int)
    ensures
        read_key(ts, p) matches Ok((lit, _)) ==> literal_within(lit, Set::empty())
            && forall|names: Set<Seq<char>>| literal_within(lit, names),
{
}

proof fn lemma_reference_within(ts: Seq<TokenV>, p: int, params: Option<Seq<ParamV>>)
    ensures
        read_reference(ts, p, params) matches Ok((lit, _)) ==> literal_within(
            lit,
            scope_names(params),
        ) && (ts[p].kind == TokenKind::Ident ==> literal_within(lit, Set::empty())),
{
    lemma_key_within(ts, p);
}

proof fn lemma_raw_value_within(
    ts: Seq<TokenV>,
    p: int,
    params: Option<Seq<ParamV>>,
    depth: int,
)
    ensures
        read_raw_value(ts, p, params, depth) matches Ok((value, _)) ==> raw_within(
            value,
            scope_names(params),
        ),
    decreases ts.len() - p, 0int,
{
    lemma_literal_within(ts, p, params);
    if !(depth + 1 > MAX_RAW_VALUE_DEPTH) && !(p < 0 || p + 1 >= ts.len()) {
        if ts[p].kind == TokenKind::LBracket {
            lemma_raw_items_within(ts, p + 1, params, depth + 1, Seq::empty());
        } else if ts[p].kind == TokenKind::LBrace {
            lemma_raw_pairs_within(ts, p + 1, params, depth + 1, Seq::empty());
        }
    }
}

proof fn lemma_raw_items_within(
    ts: Seq<TokenV>,
    p: int,
    params: Option<Seq<ParamV>>,
    depth: int,
    before: Seq<RawValueV>,
)
    requires
        forall|i: int|
            0 <= i < before.len() ==> raw_within(#[trigger] before[i], scope_names(params)),
    ensures
        read_raw_items(ts, p, params, depth, before) matches Ok((items, _)) ==> forall|i: int|
            0 <= i < items.len() ==> raw_within(#[trigger] items[i], scope_names(params)),
    decreases ts.len() - p, 1int,
{
    lemma_raw_value_within(ts, p, params, depth);
    if let Ok((item, next)) = read_raw_value(ts, p, params, depth) {
        if ts[next].kind == TokenKind::Comma && p <= next && next + 1 < ts.len() {
            lemma_raw_items_within(ts, next + 1, params, depth, before.push(item));
        }
    }
}

proof fn lemma_raw_pairs_within(
    ts: Seq<TokenV>,
    p: int,
    params: Option<Seq<ParamV>>,
    depth: int,
    before: Seq<(LiteralV, RawValueV)>,
)
    requires
        forall|i: int|
            0 <= i < before.len() ==> literal_within(
                (#[trigger] before[i]).0,
                scope_names(params),
            ) && raw_within(before[i].1, scope_names(params)),
    ensures
        read_raw_pairs(ts, p, params, depth, before) matches Ok((pairs, _)) ==> forall|i: int|
            0 <= i < pairs.len() ==> literal_within((#[trigger] pairs[i]).0, scope_names(params))
                && raw_within(pairs[i].1, scope_names(params)),
    decreases ts.len() - p, 1int,
{
    lemma_key_within(ts, p);
    if ts[p].kind != TokenKind::RBrace {
        if let Ok((key, after_key)) = read_key(ts, p) {
            if let Ok((_, after_colon)) = expected(ts, after_key, TokenKind::Colon) {
                if p < after_colon && after_colon < ts.len() {
                    lemma_raw_value_within(ts, after_colon, params, depth);
                    if let Ok((value, after)) = read_raw_value(ts, after_colon, params, depth) {
                        let next = if ts[after].kind == TokenKind::Comma {
                            after + 1
                        } else {
                            after
                        };
                        if p < next && next < ts.len() {
                            lemma_raw_pairs_within(
                                ts,
                                next,
                                params,
                                depth,
                                before.push((key, value)),
                            );
                        }
                    }
                }
            }
        }
    }
}

/// Items whose literals are known.
pub trait ItemWithin: ItemSpec {
    type Held: Slots<V = <Self as ItemSpec>::V>;

    /// An item refers to no parameter but those in scope.
    proof fn lemma_item_within(ts: Seq<TokenV>, p: int, params: Option<Seq<ParamV>>)
        ensures
            Self::item(ts, p, params) matches Ok((item, _)) ==> Self::Held::within(
                item,
                scope_names(params),
            ),
    ;
}

impl ItemWithin for References {
    type Held = Literal;

    proof fn lemma_item_within(ts: Seq<TokenV>, p: int, params: Option<Seq<ParamV>>) {
        lemma_reference_within(ts, p, params);
    }
}

impl ItemWithin for Literals {
    type Held = Literal;

    proof fn lemma_item_within(ts: Seq<TokenV>, p: int, params: Option<Seq<ParamV>>) {
        lemma_literal_within(ts, p, params);
    }
}

impl ItemWithin for Dependencies {
    type Held = DependsOnEntry;

    proof fn lemma_item_within(ts: Seq<TokenV>, p: int, params: Option<Seq<ParamV>>) {
        lemma_reference_within(ts, p, params);
    }
}

impl ItemWithin for Invocations {
    type Held = TemplateInvocation;

    proof fn lemma_item_within(ts: Seq<TokenV>, p: int, params: Option<Seq<ParamV>>) {
        assert forall|q: int, name: Span|
            (#[trigger] read_arguments(ts, q, params, name)) matches Ok(((args, _), _)) implies (
        read_arguments(ts, q, params, name) matches Ok(((args, _), _)) && RawMap::within(
            args,
            scope_names(params),
        )) by {
            lemma_map_body_within::<RawEntries>(ts, q, params, schema_of(BuiltIn::Raw));
        }
    }
}

proof fn lemma_items_within<K: ItemWithin>(
    ts: Seq<TokenV>,
    p: int,
    params: Option<Seq<ParamV>>,
    before: Seq<<K as ItemSpec>::V>,
)
    requires
        Vec::<K::Held>::within(before, scope_names(params)),
    ensures
        read_items::<K>(ts, p, params, before) matches Ok((items, _)) ==> Vec::<K::Held>::within(
            items,
            scope_names(params),
        ),
    decreases ts.len() - p,
{
    K::lemma_item_within(ts, p, params);
    if let Ok((item, next)) = K::item(ts, p, params) {
        assert(Vec::<K::Held>::within(before.push(item), scope_names(params)));
        if ts[next].kind == TokenKind::Comma && p <= next && next + 1 < ts.len() {
            lemma_items_within::<K>(ts, next + 1, params, before.push(item));
        }
    }
}

proof fn lemma_bracketed_within<K: ItemWithin>(
    ts: Seq<TokenV>,
    p: int,
    params: Option<Seq<ParamV>>,
)
    ensures
        read_bracketed::<K>(ts, p, params) matches Ok(((items, _), _)) ==> Vec::<K::Held>::within(
            items,
            scope_names(params),
        ),
{
    if let Ok((_, first)) = expected(ts, p, TokenKind::LBracket) {
        lemma_items_within::<K>(ts, first, params, Seq::empty());
    }
}

proof fn lemma_bare_within<K: ItemWithin>(
    ts: Seq<TokenV>,
    p: int,
    params: Option<Seq<ParamV>>,
    before: Seq<<K as ItemSpec>::V>,
)
    requires
        Vec::<K::Held>::within(before, scope_names(params)),
    ensures
        read_bare::<K>(ts, p, params, before) matches Ok((items, _)) ==> Vec::<K::Held>::within(
            items,
            scope_names(params),
        ),
    decreases ts.len() - p,
{
    K::lemma_item_within(ts, p, params);
    if let Ok((item, next)) = K::item(ts, p, params) {
        assert(Vec::<K::Held>::within(before.push(item), scope_names(params)));
        if p <= next && next + 1 < ts.len() {
            lemma_bare_within::<K>(ts, next + 1, params, before.push(item));
        }
    }
}

proof fn lemma_list_within<K: ItemWithin>(ts: Seq<TokenV>, p: int, params: Option<Seq<ParamV>>)
    ensures
        read_list::<K>(ts, p, params) matches Ok((items, _)) ==> Vec::<K::Held>::within(
            items,
            scope_names(params),
        ),
{
    let start = past_colon(ts, p);
    lemma_bracketed_within::<K>(ts, start, params);
    lemma_bare_within::<K>(ts, start, params, Seq::empty());
}

/// Entries whose literals are known.
pub trait EntryWithin: EntrySpec {
    type Held: Slots<V = <Self as EntrySpec>::V>;

    /// An entry refers to no parameter but those in scope.
    proof fn lemma_entry_within(
        ts: Seq<TokenV>,
        p: int,
        params: Option<Seq<ParamV>>,
        schema: TypeSchemaV,
    )
        ensures
            Self::entry(ts, p, params, schema) matches Ok((entry, _)) ==> Self::Held::within(
                entry,
                scope_names(params),
            ),
    ;
}

impl EntryWithin for RawEntries {
    type Held = RawEntry;

    proof fn lemma_entry_within(
        ts: Seq<TokenV>,
        p: int,
        params: Option<Seq<ParamV>>,
        schema: TypeSchemaV,
    ) {
        lemma_key_within(ts, p);
        if let Ok((key, after_key)) = read_key(ts, p) {
            if let Ok((_, after_colon)) = expected(ts, after_key, TokenKind::Colon) {
                lemma_raw_value_within(ts, after_colon, params, 0);
            }
        }
    }
}

impl EntryWithin for LiteralEntries {
    type Held = EnvEntry;

    proof fn lemma_entry_within(
        ts: Seq<TokenV>,
        p: int,
        params: Option<Seq<ParamV>>,
        schema: TypeSchemaV,
    ) {
        lemma_literal_within(ts, p, params);
        if let Ok((key, after_key)) = read_literal(ts, p, params) {
            if let Ok(after) = past_separator(ts, after_key, schema, key.span()) {
                lemma_literal_within(ts, after, params);
            }
        }
    }
}

impl EntryWithin for LabelEntries {
    type Held = LabelEntry;

    proof fn lemma_entry_within(
        ts: Seq<TokenV>,
        p: int,
        params: Option<Seq<ParamV>>,
        schema: TypeSchemaV,
    ) {
        lemma_literal_within(ts, p, params);
        if let Ok((key, after_key)) = read_literal(ts, p, params) {
            if let Ok(after) = past_separator(ts, after_key, schema, key.span()) {
                lemma_literal_within(ts, after, params);
                lemma_bracketed_within::<Literals>(ts, after, params);
            }
        }
    }
}

impl EntryWithin for MountEntries {
    type Held = ArrowMapEntry;

    proof fn lemma_entry_within(
        ts: Seq<TokenV>,
        p: int,
        params: Option<Seq<ParamV>>,
        schema: TypeSchemaV,
    ) {
        lemma_literal_within(ts, p, params);
        lemma_reference_within(ts, p, params);
        if let Ok((host, after_host)) = read_host(ts, p, params) {
            if let Ok(after) = past_separator(ts, after_host, schema, host.literal().span()) {
                lemma_literal_within(ts, after, params);
            }
        }
    }
}

proof fn lemma_entries_within<E: EntryWithin>(
    ts: Seq<TokenV>,
    p: int,
    params: Option<Seq<ParamV>>,
    schema: TypeSchemaV,
    before: Seq<<E as EntrySpec>::V>,
)
    requires
        Vec::<E::Held>::within(before, scope_names(params)),
    ensures
        read_entries::<E>(ts, p, params, schema, before) matches Ok((entries, _)) ==> Vec::<
            E::Held,
        >::within(entries, scope_names(params)),
    decreases ts.len() - p,
{
    if ts[p].kind != TokenKind::RBrace {
        E::lemma_entry_within(ts, p, params, schema);
        if let Ok((entry, after)) = E::entry(ts, p, params, schema) {
            assert(Vec::<E::Held>::within(before.push(entry), scope_names(params)));
            let next = if ts[after].kind == TokenKind::Comma {
                after + 1
            } else {
                after
            };
            if p < next && next < ts.len() {
                lemma_entries_within::<E>(ts, next, params, schema, before.push(entry));
            }
        }
    }
}

proof fn lemma_map_body_within<E: EntryWithin>(
    ts: Seq<TokenV>,
    p: int,
    params: Option<Seq<ParamV>>,
    schema: TypeSchemaV,
)
    ensures
        read_map_body::<E>(ts, p, params, schema) matches Ok((entries, _)) ==> Vec::<
            E::Held,
        >::within(entries, scope_names(params)),
{
    if let Ok((_, first)) = expected(ts, p, TokenKind::LBrace) {
        lemma_entries_within::<E>(ts, first, params, schema, Seq::empty());
    }
}

proof fn lemma_map_within<E: EntryWithin>(
    ts: Seq<TokenV>,
    p: int,
    params: Option<Seq<ParamV>>,
    schema: TypeSchemaV,
)
    ensures
        read_map::<E>(ts, p, params, schema) matches Ok((entries, _)) ==> Vec::<E::Held>::within(
            entries,
            scope_names(params),
        ),
{
    lemma_map_body_within::<E>(ts, p, params, schema);
    E::lemma_entry_within(ts, p, params, schema);
}

/// The side of a map field that holds each text once, by the field's name.
pub open spec fn unique_side(name: Seq<char>) -> MapSide {
    if name == "volume"@ || name == "publish"@ || name == "devices"@ {
        MapSide::Value
    } else {
        MapSide::Key
    }
}

/// Whether no two entries have the same text on a side.
pub open spec fn entries_distinct(entries: Seq<EnvEntryV>, side: MapSide) -> bool {
    forall|i: int, j: int|
        0 <= i < j < entries.len() ==> entry_text(#[trigger] entries[i], side) != entry_text(
            #[trigger] entries[j],
            side,
        )
}

/// Whether no two mounts have the same text on a side.
pub open spec fn mounts_distinct(entries: Seq<ArrowMapEntryV>, side: MapSide) -> bool {
    forall|i: int, j: int|
        0 <= i < j < entries.len() ==> mount_text(#[trigger] entries[i], side) != mount_text(
            #[trigger] entries[j],
            side,
        )
}

/// What holds of each value that a body sets a field to.
pub open spec fn value_sound(value: FieldValueV, side: MapSide, names: Set<Seq<char>>) -> bool
    decreases value,
{
    match value {
        FieldValueV::Scalar(lit) => literal_within(lit, names),
        FieldValueV::Flag(_) => true,
        FieldValueV::Struct(inner, _) => forall|i: int|
            0 <= i < inner.len() ==> value_sound(
                (#[trigger] inner[i]).1,
                unique_side(inner[i].0),
                names,
            ),
        FieldValueV::LiteralMap(entries) => Vec::<EnvEntry>::within(entries, names)
            && entries_distinct(entries, side),
        FieldValueV::LabelMap(entries) => Vec::<LabelEntry>::within(entries, names)
            && own_keys_distinct::<LabelEntry>(entries),
        FieldValueV::MountMap(entries) => Vec::<ArrowMapEntry>::within(entries, names)
            && mounts_distinct(entries, side),
        FieldValueV::Raw(entries) => Vec::<RawEntry>::within(entries, names)
            && own_keys_distinct::<RawEntry>(entries),
        FieldValueV::References(refs) => Vec::<Literal>::within(refs, names),
        FieldValueV::Invocations(items) => Vec::<TemplateInvocation>::within(items, names),
        FieldValueV::ScalarOrList(command) => Command::within(command, names),
        FieldValueV::Dependencies(entries) => Vec::<DependsOnEntry>::within(entries, names),
    }
}

/// What holds of everything that a body sets.
pub open spec fn body_sound(fields: FieldsV, names: Set<Seq<char>>) -> bool {
    forall|i: int|
        0 <= i < fields.len() ==> value_sound(
            (#[trigger] fields[i]).1,
            unique_side(fields[i].0),
            names,
        )
}

proof fn lemma_set_index(fields: FieldsV, name: Seq<char>, i: int)
    requires
        0 <= i <= fields.len(),
    ensures
        i <= set_index(fields, name, i) <= fields.len(),
        set_index(fields, name, i) < fields.len() ==> fields[set_index(fields, name, i)].0 == name,
    decreases fields.len() - i,
{
    if i < fields.len() {
        lemma_set_index(fields, name, i + 1);
    }
}

proof fn lemma_value_of_sound(fields: FieldsV, name: Seq<char>, names: Set<Seq<char>>)
    requires
        body_sound(fields, names),
    ensures
        set_value(fields, name) matches Some(value) ==> value_sound(
            value,
            unique_side(name),
            names,
        ),
{
    lemma_set_index(fields, name, 0);
}

proof fn lemma_with_value_sound(
    fields: FieldsV,
    name: Seq<char>,
    value: FieldValueV,
    names: Set<Seq<char>>,
)
    requires
        body_sound(fields, names),
        value_sound(value, unique_side(name), names),
    ensures
        body_sound(with_value(fields, name, value), names),
        body_sound(fields.push((name, value)), names),
{
    lemma_set_index(fields, name, 0);
}

proof fn lemma_single_sound(
    schema: TypeSchemaV,
    fields: FieldsV,
    name: Seq<char>,
    value: FieldValueV,
    end: int,
    names: Set<Seq<char>>,
)
    requires
        body_sound(fields, names),
        value_sound(value, unique_side(name), names),
    ensures
        single_at(schema, fields, name, value, end) matches Ok((all, _)) ==> body_sound(all, names),
{
    lemma_with_value_sound(fields, name, value, names);
}

proof fn lemma_entry_index(entries: Seq<EnvEntryV>, side: MapSide, text: Seq<char>, i: int)
    requires
        0 <= i <= entries.len(),
    ensures
        entry_index(entries, side, text, i) >= entries.len() ==> forall|j: int|
            i <= j < entries.len() ==> entry_text(#[trigger] entries[j], side) != text,
    decreases entries.len() - i,
{
    if i < entries.len() {
        lemma_entry_index(entries, side, text, i + 1);
    }
}

proof fn lemma_mount_index(entries: Seq<ArrowMapEntryV>, side: MapSide, text: Seq<char>, i: int)
    requires
        0 <= i <= entries.len(),
    ensures
        mount_index(entries, side, text, i) >= entries.len() ==> forall|j: int|
            i <= j < entries.len() ==> mount_text(#[trigger] entries[j], side) != text,
    decreases entries.len() - i,
{
    if i < entries.len() {
        lemma_mount_index(entries, side, text, i + 1);
    }
}

proof fn lemma_label_index(entries: Seq<LabelEntryV>, key: Seq<char>, i: int)
    requires
        0 <= i <= entries.len(),
    ensures
        label_index(entries, key, i) >= entries.len() ==> forall|j: int|
            i <= j < entries.len() ==> (#[trigger] entries[j]).key.text() != key,
    decreases entries.len() - i,
{
    if i < entries.len() {
        lemma_label_index(entries, key, i + 1);
    }
}

proof fn lemma_raw_index(entries: Seq<RawEntryV>, key: Seq<char>, i: int)
    requires
        0 <= i <= entries.len(),
    ensures
        raw_index(entries, key, i) >= entries.len() ==> forall|j: int|
            i <= j < entries.len() ==> (#[trigger] entries[j]).key.text() != key,
    decreases entries.len() - i,
{
    if i < entries.len() {
        lemma_raw_index(entries, key, i + 1);
    }
}

/// Entries that join a map field leave no text of its unique side twice,
/// and bring in no parameters but their own.
pub proof fn law_joined_entries_are_distinct(
    held: Seq<EnvEntryV>,
    more: Seq<EnvEntryV>,
    i: int,
    schema: TypeSchemaV,
    names: Set<Seq<char>>,
)
    requires
        0 <= i,
        entries_distinct(held, side_of(schema)),
    ensures
        with_entries(held, more, i, schema) matches Ok(all) ==> entries_distinct(
            all,
            side_of(schema),
        ) && (Vec::<EnvEntry>::within(held, names) && Vec::<EnvEntry>::within(more, names)
            ==> Vec::<EnvEntry>::within(all, names)),
    decreases more.len() - i,
{
    if i < more.len() {
        let side = side_of(schema);
        lemma_entry_index(held, side, entry_text(more[i], side), 0);
        if !(entry_index(held, side, entry_text(more[i], side), 0) < held.len()) {
            law_joined_entries_are_distinct(held.push(more[i]), more, i + 1, schema, names);
        }
    }
}

/// Mounts that join a map field leave no text of its unique side twice, and
/// bring in no parameters but their own.
pub proof fn law_joined_mounts_are_distinct(
    held: Seq<ArrowMapEntryV>,
    more: Seq<ArrowMapEntryV>,
    i: int,
    schema: TypeSchemaV,
    names: Set<Seq<char>>,
)
    requires
        0 <= i,
        mounts_distinct(held, side_of(schema)),
    ensures
        with_mounts(held, more, i, schema) matches Ok(all) ==> mounts_distinct(
            all,
            side_of(schema),
        ) && (Vec::<ArrowMapEntry>::within(held, names) && Vec::<ArrowMapEntry>::within(
            more,
            names,
        ) ==> Vec::<ArrowMapEntry>::within(all, names)),
    decreases more.len() - i,
{
    if i < more.len() {
        let side = side_of(schema);
        lemma_mount_index(held, side, mount_text(more[i], side), 0);
        if !(mount_index(held, side, mount_text(more[i], side), 0) < held.len()) {
            law_joined_mounts_are_distinct(held.push(more[i]), more, i + 1, schema, names);
        }
    }
}

/// Labels that join a map field leave no key twice, and bring in no
/// parameters but their own.
pub proof fn law_joined_labels_are_distinct(
    held: Seq<LabelEntryV>,
    more: Seq<LabelEntryV>,
    i: int,
    schema: TypeSchemaV,
    names: Set<Seq<char>>,
)
    requires
        0 <= i,
        own_keys_distinct::<LabelEntry>(held),
    ensures
        with_labels(held, more, i, schema) matches Ok(all) ==> own_keys_distinct::<LabelEntry>(all)
            && (Vec::<LabelEntry>::within(held, names) && Vec::<LabelEntry>::within(more, names)
            ==> Vec::<LabelEntry>::within(all, names)),
    decreases more.len() - i,
{
    if i < more.len() {
        lemma_label_index(held, more[i].key.text(), 0);
        if !(label_index(held, more[i].key.text(), 0) < held.len()) {
            law_joined_labels_are_distinct(held.push(more[i]), more, i + 1, schema, names);
        }
    }
}

/// Raw entries that join a map field leave no key twice, and bring in no
/// parameters but their own.
pub proof fn law_joined_raw_entries_are_distinct(
    held: Seq<RawEntryV>,
    more: Seq<RawEntryV>,
    i: int,
    names: Set<Seq<char>>,
)
    requires
        0 <= i,
        own_keys_distinct::<RawEntry>(held),
    ensures
        with_raw_entries(held, more, i) matches Ok(all) ==> own_keys_distinct::<RawEntry>(all) && (
        Vec::<RawEntry>::within(held, names) && Vec::<RawEntry>::within(more, names) ==> Vec::<
            RawEntry,
        >::within(all, names)),
    decreases more.len() - i,
{
    if i < more.len() {
        lemma_raw_index(held, more[i].key.text(), 0);
        if !(raw_index(held, more[i].key.text(), 0) < held.len()) {
            law_joined_raw_entries_are_distinct(held.push(more[i]), more, i + 1, names);
        }
    }
}

/// Whether a field that holds a map has the unique side its name says.
pub open spec fn side_fits(field: FieldSchemaV) -> bool {
    field.kind matches FieldKind::Nested(nested) ==> schema_of(nested).kind == SchemaKind::Mapping
        ==> side_of(schema_of(nested)) == unique_side(field.name)
}

/// Whether that holds of every field from index `i` on.
pub open spec fn sides_fit(fields: Seq<FieldSchemaV>, i: int) -> bool
    decreases fields.len() - i,
{
    i >= fields.len() || (side_fits(fields[i]) && sides_fit(fields, i + 1))
}

proof fn lemma_field_fits(fields: Seq<FieldSchemaV>, key: Seq<char>, i: int)
    requires
        sides_fit(fields, i),
    ensures
        field_from(fields, key, i) matches Some(field) ==> side_fits(field),
    decreases fields.len() - i,
{
    if i < fields.len() {
        lemma_field_fits(fields, key, i + 1);
    }
}

proof fn lemma_unique_sides()
    ensures
        unique_side("volume"@) == MapSide::Value,
        unique_side("publish"@) == MapSide::Value,
        unique_side("devices"@) == MapSide::Value,
        unique_side("env"@) == MapSide::Key,
        unique_side("labels"@) == MapSide::Key,
        unique_side("raw"@) == MapSide::Key,
        unique_side("driver_opts"@) == MapSide::Key,
{
    reveal_strlit("volume");
    reveal_strlit("publish");
    reveal_strlit("devices");
    reveal_strlit("env");
    reveal_strlit("labels");
    reveal_strlit("raw");
    reveal_strlit("driver_opts");
    assert("volume"@.len() == 6 && "publish"@.len() == 7 && "devices"@.len() == 7);
    assert("env"@.len() == 3 && "raw"@.len() == 3 && "driver_opts"@.len() == 11);
    assert("labels"@.len() == 6);
    assert("labels"@[0] == 'l');
    assert("volume"@[0] == 'v');
}

proof fn lemma_schema_fits(built_in: BuiltIn)
    ensures
        sides_fit(schema_of(built_in).fields, 0),
{
    reveal_with_fuel(sides_fit, 25);
    lemma_unique_sides();
    match built_in {
        BuiltIn::Service => {
            assert(sides_fit(service_fields(), 0));
        },
        BuiltIn::Template => {
            assert(sides_fit(service_fields(), 0));
        },
        _ => {},
    }
}

proof fn lemma_map_field_sound(
    ts: Seq<TokenV>,
    p: int,
    params: Option<Seq<ParamV>>,
    name: Seq<char>,
    nested: TypeSchemaV,
    fields: FieldsV,
)
    requires
        body_sound(fields, scope_names(params)),
        side_of(nested) == unique_side(name),
    ensures
        read_map_field(ts, p, params, name, nested, fields) matches Ok((all, _)) ==> body_sound(
            all,
            scope_names(params),
        ),
{
    let names = scope_names(params);
    lemma_value_of_sound(fields, name, names);
    if let Ok((all, end)) = read_map_field(ts, p, params, name, nested, fields) {
        if nested.schema_free {
            lemma_map_within::<RawEntries>(ts, p, params, nested);
            let entries = read_map::<RawEntries>(ts, p, params, nested)->Ok_0.0;
            let held = held_raw(fields, name);
            law_joined_raw_entries_are_distinct(held, entries, 0, names);
            let joined = with_raw_entries(held, entries, 0)->Ok_0;
            lemma_with_value_sound(fields, name, FieldValueV::Raw(joined), names);
        } else if nested.key_may_be_reference {
            lemma_map_within::<MountEntries>(ts, p, params, nested);
            let entries = read_map::<MountEntries>(ts, p, params, nested)->Ok_0.0;
            let held = held_mounts(fields, name);
            law_joined_mounts_are_distinct(held, entries, 0, nested, names);
            let joined = with_mounts(held, entries, 0, nested)->Ok_0;
            lemma_with_value_sound(fields, name, FieldValueV::MountMap(joined), names);
        } else if nested.built_in == BuiltIn::Labels {
            lemma_map_within::<LabelEntries>(ts, p, params, nested);
            let entries = read_map::<LabelEntries>(ts, p, params, nested)->Ok_0.0;
            let held = held_labels(fields, name);
            law_joined_labels_are_distinct(held, entries, 0, nested, names);
            let joined = with_labels(held, entries, 0, nested)->Ok_0;
            lemma_with_value_sound(fields, name, FieldValueV::LabelMap(joined), names);
        } else {
            lemma_map_within::<LiteralEntries>(ts, p, params, nested);
            let entries = read_map::<LiteralEntries>(ts, p, params, nested)->Ok_0.0;
            let held = held_entries(fields, name);
            law_joined_entries_are_distinct(held, entries, 0, nested, names);
            let joined = with_entries(held, entries, 0, nested)->Ok_0;
            lemma_with_value_sound(fields, name, FieldValueV::LiteralMap(joined), names);
        }
    }
}

proof fn lemma_list_field_sound(
    ts: Seq<TokenV>,
    p: int,
    params: Option<Seq<ParamV>>,
    name: Seq<char>,
    kind: FieldKind,
    fields: FieldsV,
)
    requires
        body_sound(fields, scope_names(params)),
    ensures
        read_list_field(ts, p, params, name, kind, fields) matches Ok((all, _)) ==> body_sound(
            all,
            scope_names(params),
        ),
{
    let names = scope_names(params);
    lemma_value_of_sound(fields, name, names);
    match kind {
        FieldKind::TemplateInvocationList => {
            lemma_list_within::<Invocations>(ts, p, params);
            if let Ok((more, _)) = read_list::<Invocations>(ts, p, params) {
                let all = held_invocations(fields, name) + more;
                assert(Vec::<TemplateInvocation>::within(all, names));
                lemma_with_value_sound(fields, name, FieldValueV::Invocations(all), names);
            }
        },
        FieldKind::DependsOnList => {
            lemma_list_within::<Dependencies>(ts, p, params);
            if let Ok((more, _)) = read_list::<Dependencies>(ts, p, params) {
                let all = held_dependencies(fields, name) + more;
                assert(Vec::<DependsOnEntry>::within(all, names));
                lemma_with_value_sound(fields, name, FieldValueV::Dependencies(all), names);
            }
        },
        _ => {
            lemma_list_within::<References>(ts, p, params);
            if let Ok((more, _)) = read_list::<References>(ts, p, params) {
                let all = held_references(fields, name) + more;
                assert(Vec::<Literal>::within(all, names));
                lemma_with_value_sound(fields, name, FieldValueV::References(all), names);
            }
        },
    }
}

proof fn lemma_command_within(ts: Seq<TokenV>, p: int, params: Option<Seq<ParamV>>)
    ensures
        read_scalar_or_list(ts, p, params) matches Ok((command, _)) ==> Command::within(
            command,
            scope_names(params),
        ),
{
    let start = past_colon(ts, p);
    lemma_bracketed_within::<Literals>(ts, start, params);
    lemma_literal_within(ts, start, params);
}

proof fn lemma_statement_sound(
    ts: Seq<TokenV>,
    p: int,
    params: Option<Seq<ParamV>>,
    built_in: BuiltIn,
    fields: FieldsV,
)
    requires
        body_sound(fields, scope_names(params)),
    ensures
        read_statement(ts, p, params, schema_of(built_in), fields) matches Ok((all, _))
            ==> body_sound(all, scope_names(params)),
    decreases ts.len() - p, 0int,
{
    let names = scope_names(params);
    let schema = schema_of(built_in);
    if let Ok((key, next)) = read_key(ts, p) {
        lemma_schema_fits(built_in);
        lemma_field_fits(schema.fields, key.text(), 0);
        if let FieldResolutionV::Field(field) = resolution(schema, key.text()) {
            match field.kind {
                FieldKind::Scalar => {
                    lemma_literal_within(ts, next, params);
                    lemma_literal_within(ts, next + 1, params);
                    if let Ok((lit, end)) = read_field_value(ts, next, params) {
                        lemma_single_sound(
                            schema,
                            fields,
                            field.name,
                            FieldValueV::Scalar(lit),
                            end,
                            names,
                        );
                    }
                },
                FieldKind::BoolFlag => {
                    lemma_single_sound(
                        schema,
                        fields,
                        field.name,
                        FieldValueV::Flag(key.span()),
                        next,
                        names,
                    );
                },
                FieldKind::ScalarOrList => {
                    lemma_command_within(ts, next, params);
                    if let Ok((value, end)) = read_scalar_or_list(ts, next, params) {
                        lemma_single_sound(
                            schema,
                            fields,
                            field.name,
                            FieldValueV::ScalarOrList(value),
                            end,
                            names,
                        );
                    }
                },
                FieldKind::Nested(nested) => {
                    if p < next && next < ts.len() {
                        lemma_nested_sound(ts, next, params, schema, field.name, nested, fields);
                    }
                },
                kind => {
                    lemma_list_field_sound(ts, next, params, field.name, kind, fields);
                },
            }
        }
    }
}

proof fn lemma_nested_sound(
    ts: Seq<TokenV>,
    p: int,
    params: Option<Seq<ParamV>>,
    schema: TypeSchemaV,
    name: Seq<char>,
    nested: BuiltIn,
    fields: FieldsV,
)
    requires
        body_sound(fields, scope_names(params)),
        schema_of(nested).kind == SchemaKind::Mapping ==> side_of(schema_of(nested)) == unique_side(
            name,
        ),
    ensures
        read_nested(ts, p, params, schema, name, schema_of(nested), fields) matches Ok((all, _))
            ==> body_sound(all, scope_names(params)),
    decreases ts.len() - p, 3int,
{
    let start = past_colon(ts, p);
    if schema_of(nested).kind == SchemaKind::Mapping {
        lemma_map_field_sound(ts, start, params, name, schema_of(nested), fields);
    } else if start < ts.len() {
        lemma_struct_body_sound(ts, start, params, nested);
        lemma_shorthand_sound(ts, start, params, nested);
        let body = if ts[start].kind == TokenKind::LBrace {
            read_struct_body(ts, start, params, schema_of(nested))
        } else {
            read_shorthand(ts, start, params, schema_of(nested))
        };
        if let Ok(((inner, span), end)) = body {
            lemma_single_sound(
                schema,
                fields,
                name,
                FieldValueV::Struct(inner, span),
                end,
                scope_names(params),
            );
        }
    }
}

proof fn lemma_shorthand_sound(
    ts: Seq<TokenV>,
    p: int,
    params: Option<Seq<ParamV>>,
    nested: BuiltIn,
)
    ensures
        read_shorthand(ts, p, params, schema_of(nested)) matches Ok(((fields, _), _))
            ==> body_sound(fields, scope_names(params)),
    decreases ts.len() - p, 2int,
{
    let schema = schema_of(nested);
    let primary = schema.primary_field->Some_0;
    lemma_bracketed_within::<Invocations>(ts, p, params);
    lemma_bare_within::<Invocations>(ts, p, params, Seq::empty());
    lemma_literal_within(ts, p, params);
    let first = match field_from(schema.fields, primary, 0) {
        Some(field) if field.kind == FieldKind::TemplateInvocationList => read_invocation_shorthand(
            ts,
            p,
            params,
            primary,
        ),
        _ => read_literal_shorthand(ts, p, params, primary),
    };
    if let Ok(((fields, start), next)) = first {
        assert(body_sound(fields, scope_names(params)));
        if p < next && next < ts.len() {
            lemma_secondary_sound(ts, next, params, nested, fields);
        }
    }
}

proof fn lemma_secondary_sound(
    ts: Seq<TokenV>,
    p: int,
    params: Option<Seq<ParamV>>,
    nested: BuiltIn,
    fields: FieldsV,
)
    requires
        body_sound(fields, scope_names(params)),
    ensures
        read_secondary(ts, p, params, schema_of(nested), fields) matches Ok((all, _))
            ==> body_sound(all, scope_names(params)),
    decreases ts.len() - p, 1int,
{
    if p + 1 < ts.len() {
        lemma_statement_sound(ts, p + 1, params, nested, fields);
        if let Ok((more, next)) = read_statement(ts, p + 1, params, schema_of(nested), fields) {
            if p < next && next < ts.len() {
                lemma_secondary_sound(ts, next, params, nested, more);
            }
        }
    }
}

proof fn lemma_struct_body_sound(
    ts: Seq<TokenV>,
    p: int,
    params: Option<Seq<ParamV>>,
    built_in: BuiltIn,
)
    ensures
        read_struct_body(ts, p, params, schema_of(built_in)) matches Ok(((fields, _), _))
            ==> body_sound(fields, scope_names(params)),
    decreases ts.len() - p, 2int,
{
    if let Ok((_, first)) = expected(ts, p, TokenKind::LBrace) {
        if p < first && first < ts.len() {
            lemma_statements_sound(ts, first, params, built_in, Seq::empty(), true);
        }
    }
}

proof fn lemma_statements_sound(
    ts: Seq<TokenV>,
    p: int,
    params: Option<Seq<ParamV>>,
    built_in: BuiltIn,
    fields: FieldsV,
    first: bool,
)
    requires
        body_sound(fields, scope_names(params)),
    ensures
        read_statements(ts, p, params, schema_of(built_in), fields, first) matches Ok((all, _))
            ==> body_sound(all, scope_names(params)),
    decreases ts.len() - p, 4int,
{
    lemma_statement_sound(ts, p, params, built_in, fields);
    if let Ok((more, next)) = read_statement(ts, p, params, schema_of(built_in), fields) {
        if p < next && next < ts.len() {
            lemma_statements_sound(ts, next, params, built_in, more, false);
        }
    }
}

/// Whether every map field of a body holds each key once.
pub open spec fn maps_distinct(fields: ServiceFieldsV) -> bool {
    &&& own_keys_distinct::<ArrowMapEntry>(fields.volumes.entries)
    &&& own_keys_distinct::<ArrowMapEntry>(fields.publish.entries)
    &&& own_keys_distinct::<ArrowMapEntry>(fields.devices.entries)
    &&& own_keys_distinct::<EnvEntry>(fields.env.entries)
    &&& own_keys_distinct::<LabelEntry>(fields.labels.entries)
    &&& own_keys_distinct::<RawEntry>(fields.raw.entries)
}

proof fn lemma_mounts_of_entries(entries: Seq<EnvEntryV>, names: Set<Seq<char>>)
    requires
        Vec::<EnvEntry>::within(entries, names),
        entries_distinct(entries, MapSide::Value),
    ensures
        Vec::<ArrowMapEntry>::within(as_mounts(entries), names),
        own_keys_distinct::<ArrowMapEntry>(as_mounts(entries)),
{
    let mounts = as_mounts(entries);
    assert forall|i: int| 0 <= i < mounts.len() implies ArrowMapEntry::within(
        #[trigger] mounts[i],
        names,
    ) by {
        assert(EnvEntry::within(entries[i], names));
    }
    assert forall|i: int, j: int| 0 <= i < j < mounts.len() implies (
    #[trigger] mounts[i]).container.text() != (#[trigger] mounts[j]).container.text() by {
        assert(entry_text(entries[i], MapSide::Value) != entry_text(entries[j], MapSide::Value));
    }
}

proof fn lemma_inner_sound(fields: FieldsV, name: Seq<char>, names: Set<Seq<char>>)
    requires
        body_sound(fields, names),
    ensures
        struct_of(fields, name) matches Some((inner, _)) ==> body_sound(inner, names),
        scalar_of(fields, name) matches Some(lit) ==> literal_within(lit, names),
        command_of(fields, name) matches Some(command) ==> Command::within(command, names),
        Vec::<Literal>::within(held_references(fields, name), names),
        Vec::<DependsOnEntry>::within(held_dependencies(fields, name), names),
        Vec::<TemplateInvocation>::within(held_invocations(fields, name), names),
        Vec::<EnvEntry>::within(held_entries(fields, name), names),
        Vec::<LabelEntry>::within(held_labels(fields, name), names),
        Vec::<ArrowMapEntry>::within(held_mounts(fields, name), names),
        Vec::<RawEntry>::within(held_raw(fields, name), names),
        entries_distinct(held_entries(fields, name), unique_side(name)),
        own_keys_distinct::<LabelEntry>(held_labels(fields, name)),
        mounts_distinct(held_mounts(fields, name), unique_side(name)),
        own_keys_distinct::<RawEntry>(held_raw(fields, name)),
{
    lemma_value_of_sound(fields, name, names);
}

proof fn lemma_healthcheck_within(fields: FieldsV, span: Span, names: Set<Seq<char>>)
    requires
        body_sound(fields, names),
    ensures
        Healthcheck::within(lowered_healthcheck(fields, span), names),
{
    lemma_inner_sound(fields, "test"@, names);
    lemma_inner_sound(fields, "interval"@, names);
    lemma_inner_sound(fields, "timeout"@, names);
    lemma_inner_sound(fields, "retries"@, names);
    lemma_inner_sound(fields, "start_period"@, names);
    lemma_inner_sound(fields, "start_interval"@, names);
}

proof fn lemma_nested_fields_within(fields: FieldsV, names: Set<Seq<char>>)
    requires
        body_sound(fields, names),
    ensures
        Option::<Image>::within(lowered_service_fields(fields).image, names),
        Option::<Build>::within(lowered_service_fields(fields).build, names),
        Option::<Expose>::within(lowered_service_fields(fields).expose, names),
        Option::<Restart>::within(lowered_service_fields(fields).restart, names),
        Option::<Healthcheck>::within(lowered_service_fields(fields).healthcheck, names),
        Vec::<TemplateInvocation>::within(lowered_with(fields), names),
{
    lemma_inner_sound(fields, "image"@, names);
    if let Some((inner, _)) = struct_of(fields, "image"@) {
        lemma_inner_sound(inner, "ref"@, names);
    }
    lemma_inner_sound(fields, "build"@, names);
    if let Some((inner, _)) = struct_of(fields, "build"@) {
        lemma_inner_sound(inner, "context"@, names);
        lemma_inner_sound(inner, "dockerfile"@, names);
    }
    lemma_inner_sound(fields, "expose"@, names);
    if let Some((inner, _)) = struct_of(fields, "expose"@) {
        lemma_inner_sound(inner, "port"@, names);
    }
    lemma_inner_sound(fields, "restart"@, names);
    if let Some((inner, _)) = struct_of(fields, "restart"@) {
        lemma_inner_sound(inner, "policy"@, names);
    }
    lemma_inner_sound(fields, "healthcheck"@, names);
    if let Some((inner, span)) = struct_of(fields, "healthcheck"@) {
        lemma_healthcheck_within(inner, span, names);
    }
    lemma_inner_sound(fields, "with"@, names);
    if let Some((inner, _)) = struct_of(fields, "with"@) {
        lemma_inner_sound(inner, "templates"@, names);
    }
}

proof fn lemma_lowered_sound(fields: FieldsV, names: Set<Seq<char>>)
    requires
        body_sound(fields, names),
    ensures
        ServiceFields::within(lowered_service_fields(fields), names),
        maps_distinct(lowered_service_fields(fields)),
{
    lemma_nested_fields_within(fields, names);
    lemma_inner_sound(fields, "publish"@, names);
    lemma_inner_sound(fields, "volume"@, names);
    lemma_inner_sound(fields, "env"@, names);
    lemma_inner_sound(fields, "labels"@, names);
    lemma_inner_sound(fields, "raw"@, names);
    lemma_inner_sound(fields, "depends_on"@, names);
    lemma_inner_sound(fields, "networks"@, names);
    lemma_inner_sound(fields, "dns"@, names);
    lemma_inner_sound(fields, "env_file"@, names);
    lemma_inner_sound(fields, "devices"@, names);
    lemma_inner_sound(fields, "container_name"@, names);
    lemma_inner_sound(fields, "command"@, names);
    lemma_inner_sound(fields, "entrypoint"@, names);
    lemma_mounts_of_entries(held_entries(fields, "publish"@), names);
    lemma_mounts_of_entries(held_entries(fields, "devices"@), names);
    let mounts = held_mounts(fields, "volume"@);
    assert forall|i: int, j: int| 0 <= i < j < mounts.len() implies (
    #[trigger] mounts[i]).container.text() != (#[trigger] mounts[j]).container.text() by {
        assert(mount_text(mounts[i], MapSide::Value) != mount_text(mounts[j], MapSide::Value));
    }
    let entries = held_entries(fields, "env"@);
    lemma_unique_sides();
    assert forall|i: int, j: int| 0 <= i < j < entries.len() implies (
    #[trigger] entries[i]).key.text() != (#[trigger] entries[j]).key.text() by {
        assert(entry_text(entries[i], MapSide::Key) != entry_text(entries[j], MapSide::Key));
    }
}

proof fn lemma_param_index(params: Seq<ParamV>, name: Seq<char>, i: int)
    requires
        0 <= i <= params.len(),
    ensures
        param_index(params, name, i) >= params.len() ==> forall|j: int|
            i <= j < params.len() ==> (#[trigger] params[j]).name.name != name,
    decreases params.len() - i,
{
    if i < params.len() {
        lemma_param_index(params, name, i + 1);
    }
}

/// Whether no two parameters have the same name.
pub open spec fn params_distinct(params: Seq<ParamV>) -> bool {
    forall|i: int, j: int|
        0 <= i < j < params.len() ==> (#[trigger] params[i]).name.name != (
        #[trigger] params[j]).name.name
}

proof fn lemma_params_distinct(ts: Seq<TokenV>, p: int, before: Seq<ParamV>)
    requires
        params_distinct(before),
    ensures
        read_params(ts, p, before) matches Ok((params, _)) ==> params_distinct(params),
    decreases ts.len() - p,
{
    if let Ok((tok, next)) = expected(ts, p, TokenKind::Ident) {
        lemma_param_index(before, tok.lexeme, 0);
        if !(param_index(before, tok.lexeme, 0) < before.len()) {
            let all = before.push(
                ParamV { name: crate::ast::IdentV { name: tok.lexeme, span: tok.span } },
            );
            assert(params_distinct(all));
            if p <= next && next + 1 < ts.len() {
                lemma_params_distinct(ts, next + 1, all);
            }
        }
    }
}

/// Whether the host sides of `publish` and `devices` are values, never
/// names of volumes.
pub open spec fn hosts_plain(fields: ServiceFieldsV) -> bool {
    &&& forall|i: int|
        0 <= i < fields.publish.entries.len() ==> (
        #[trigger] fields.publish.entries[i]).host is BindMount
    &&& forall|i: int|
        0 <= i < fields.devices.entries.len() ==> (
        #[trigger] fields.devices.entries[i]).host is BindMount
}

/// What holds of every declaration that is read.
pub open spec fn decl_sound(decl: TopDeclV) -> bool {
    match decl {
        TopDeclV::Template(t) => {
            &&& template_sound(t)
            &&& maps_distinct(t.fields)
            &&& hosts_plain(t.fields)
            &&& params_distinct(t.params)
        },
        TopDeclV::Service(s) => {
            &&& parameter_free(s.fields)
            &&& maps_distinct(s.fields)
            &&& hosts_plain(s.fields)
        },
        TopDeclV::Use(u) => u.path is Str,
        _ => true,
    }
}

proof fn lemma_decl_sound(ts: Seq<TokenV>, p: int)
    ensures
        read_decl(ts, p) matches Ok((decl, _)) ==> decl_sound(decl),
{
    if ts[p].kind == TokenKind::Template {
        if let Ok((decl, _)) = read_template(ts, p) {
            let after_keyword = expected(ts, p, TokenKind::Template)->Ok_0.1;
            let after_name = expected(ts, after_keyword, TokenKind::Ident)->Ok_0.1;
            if ts[after_name].kind == TokenKind::LParen {
                let first = expected(ts, after_name, TokenKind::LParen)->Ok_0.1;
                lemma_params_distinct(ts, first, Seq::empty());
            }
            let next = if ts[after_name].kind == TokenKind::LParen {
                read_param_list(ts, after_name)->Ok_0.1
            } else {
                after_name
            };
            let list = decl.params;
            lemma_struct_body_sound(ts, next, Some(list), BuiltIn::Template);
            let fields = read_struct_body(
                ts,
                next,
                Some(list),
                schema_of(BuiltIn::Template),
            )->Ok_0.0.0;
            lemma_lowered_sound(fields, param_names(list));
        }
    } else if let Ok((keyword, after_keyword)) = expected(ts, p, TokenKind::Ident) {
        if let Some(built_in) = top_level_built_in(keyword.lexeme) {
            if let Ok((_, after_name)) = expected(ts, after_keyword, TokenKind::Ident) {
                lemma_struct_body_sound(ts, after_name, None, built_in);
                if let Ok(((fields, _), _)) = read_struct_body(
                    ts,
                    after_name,
                    None,
                    schema_of(built_in),
                ) {
                    lemma_lowered_sound(fields, Set::empty());
                }
            }
        }
    }
}

proof fn lemma_decls_sound(ts: Seq<TokenV>, p: int, before: Seq<TopDeclV>)
    requires
        forall|k: int| 0 <= k < before.len() ==> decl_sound(#[trigger] before[k]),
    ensures
        read_decls(ts, p, before) matches Ok(decls) ==> forall|k: int|
            0 <= k < decls.len() ==> decl_sound(#[trigger] decls[k]),
    decreases ts.len() - p,
{
    if ts[p].kind != TokenKind::Eof {
        lemma_decl_sound(ts, p);
        if let Ok((decl, next)) = read_decl(ts, p) {
            if p < next && next < ts.len() {
                lemma_decls_sound(ts, next, before.push(decl));
            }
        }
    }
}

/// In every program that is read, a template refers to no parameters but
/// its own and declares each of them once, a service refers to none, no
/// map field of either holds a key twice, only `volume` names volumes on
/// its host side, and the path of a `use` is a string.
pub proof fn law_programs_are_sound(lexed: Result<Seq<TokenV>, Seq<LexErrorV>>)
    ensures
        read_program(lexed) matches Ok(program) ==> declarations_sound(program.decls) && forall|
            k: int,
        |
            0 <= k < program.decls.len() ==> decl_sound(#[trigger] program.decls[k]),
{
    if let Ok(ts) = lexed {
        lemma_decls_sound(ts, 0, Seq::empty());
        if let Ok(program) = read_program(lexed) {
            assert forall|k: int| 0 <= k < program.decls.len() implies match
            #[trigger] program.decls[k] {
                TopDeclV::Template(t) => template_sound(t),
                TopDeclV::Service(s) => parameter_free(s.fields),
                _ => true,
            } by {
                assert(decl_sound(program.decls[k]));
            }
        }
    }
}

/// Composing any program that is read, where it succeeds, leaves services
/// with no `with` list, no parameter and no field access.
pub proof fn law_read_programs_compose_to_finished_services(
    lexed: Result<Seq<TokenV>, Seq<LexErrorV>>,
)
    ensures
        read_program(lexed) matches Ok(program) ==> (composed_program(program) matches Ok(done)
            ==> forall|k: int|
            0 <= k < done.services.len() ==> service_finished(#[trigger] done.services[k])),
{
    law_programs_are_sound(lexed);
    if let Ok(program) = read_program(lexed) {
        law_compose_finishes_every_service(program);
    }
}

/// Whether a raw value nests at most `room` levels deep.
pub open spec fn nests_within(value: RawValueV, room: int) -> bool
    decreases value,
{
    &&& room >= 1
    &&& match value {
        RawValueV::Literal(_) => true,
        RawValueV::List(items, _) => forall|i: int|
            0 <= i < items.len() ==> nests_within(#[trigger] items[i], room - 1),
        RawValueV::Mapping(entries, _) => forall|i: int|
            0 <= i < entries.len() ==> nests_within((#[trigger] entries[i]).1, room - 1),
    }
}

proof fn lemma_raw_value_nests(ts: Seq<TokenV>, p: int, params: Option<Seq<ParamV>>, depth: int)
    ensures
        read_raw_value(ts, p, params, depth) matches Ok((value, _)) ==> nests_within(
            value,
            MAX_RAW_VALUE_DEPTH - depth,
        ),
    decreases ts.len() - p, 0int,
{
    if !(depth + 1 > MAX_RAW_VALUE_DEPTH) && !(p < 0 || p + 1 >= ts.len()) {
        if ts[p].kind == TokenKind::LBracket {
            lemma_raw_items_nest(ts, p + 1, params, depth + 1, Seq::empty());
        } else if ts[p].kind == TokenKind::LBrace {
            lemma_raw_pairs_nest(ts, p + 1, params, depth + 1, Seq::empty());
        }
    }
}

proof fn lemma_raw_items_nest(
    ts: Seq<TokenV>,
    p: int,
    params: Option<Seq<ParamV>>,
    depth: int,
    before: Seq<RawValueV>,
)
    requires
        forall|i: int|
            0 <= i < before.len() ==> nests_within(
                #[trigger] before[i],
                MAX_RAW_VALUE_DEPTH - depth,
            ),
    ensures
        read_raw_items(ts, p, params, depth, before) matches Ok((items, _)) ==> forall|i: int|
            0 <= i < items.len() ==> nests_within(#[trigger] items[i], MAX_RAW_VALUE_DEPTH - depth),
    decreases ts.len() - p, 1int,
{
    lemma_raw_value_nests(ts, p, params, depth);
    if let Ok((item, next)) = read_raw_value(ts, p, params, depth) {
        if ts[next].kind == TokenKind::Comma && p <= next && next + 1 < ts.len() {
            lemma_raw_items_nest(ts, next + 1, params, depth, before.push(item));
        }
    }
}

proof fn lemma_raw_pairs_nest(
    ts: Seq<TokenV>,
    p: int,
    params: Option<Seq<ParamV>>,
    depth: int,
    before: Seq<(LiteralV, RawValueV)>,
)
    requires
        forall|i: int|
            0 <= i < before.len() ==> nests_within(
                (#[trigger] before[i]).1,
                MAX_RAW_VALUE_DEPTH - depth,
            ),
    ensures
        read_raw_pairs(ts, p, params, depth, before) matches Ok((pairs, _)) ==> forall|i: int|
            0 <= i < pairs.len() ==> nests_within(
                (#[trigger] pairs[i]).1,
                MAX_RAW_VALUE_DEPTH - depth,
            ),
    decreases ts.len() - p, 1int,
{
    if ts[p].kind != TokenKind::RBrace {
        if let Ok((key, after_key)) = read_key(ts, p) {
            if let Ok((_, after_colon)) = expected(ts, after_key, TokenKind::Colon) {
                if p < after_colon && after_colon < ts.len() {
                    lemma_raw_value_nests(ts, after_colon, params, depth);
                    if let Ok((value, after)) = read_raw_value(ts, after_colon, params, depth) {
                        let next = if ts[after].kind == TokenKind::Comma {
                            after + 1
                        } else {
                            after
                        };
                        if p < next && next < ts.len() {
                            lemma_raw_pairs_nest(
                                ts,
                                next,
                                params,
                                depth,
                                before.push((key, value)),
                            );
                        }
                    }
                }
            }
        }
    }
}

/// No raw value that is read nests deeper than the limit.
pub proof fn law_raw_values_nest_within_the_limit(
    ts: Seq<TokenV>,
    p: int,
    params: Option<Seq<ParamV>>,
)
    ensures
        read_raw_entry(ts, p, params) matches Ok((entry, _)) ==> nests_within(
            entry.value,
            MAX_RAW_VALUE_DEPTH as int,
        ),
{
    if let Ok((key, after_key)) = read_key(ts, p) {
        if let Ok((_, after_colon)) = expected(ts, after_key, TokenKind::Colon) {
            lemma_raw_value_nests(ts, after_colon, params, 0);
        }
    }
}

/// `key: value` and `key value` read the same, whatever kind of value the
/// field takes.
pub proof fn law_colon_is_optional(
    ts: Seq<TokenV>,
    p: int,
    params: Option<Seq<ParamV>>,
    schema: TypeSchemaV,
    name: Seq<char>,
    nested: TypeSchemaV,
    fields: FieldsV,
)
    requires
        0 <= p,
        p + 1 < ts.len(),
        ts[p].kind == TokenKind::Colon,
        ts[p + 1].kind != TokenKind::Colon,
    ensures
        starts_value(ts[p + 1].kind) ==> read_field_value(ts, p, params) == read_field_value(
            ts,
            p + 1,
            params,
        ),
        read_scalar_or_list(ts, p, params) == read_scalar_or_list(ts, p + 1, params),
        read_list::<References>(ts, p, params) == read_list::<References>(ts, p + 1, params),
        read_list::<Dependencies>(ts, p, params) == read_list::<Dependencies>(ts, p + 1, params),
        read_list::<Invocations>(ts, p, params) == read_list::<Invocations>(ts, p + 1, params),
        read_nested(ts, p, params, schema, name, nested, fields) == read_nested(
            ts,
            p + 1,
            params,
            schema,
            name,
            nested,
            fields,
        ),
{
}

} // verus!
