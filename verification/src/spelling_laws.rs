//! That what is read spells the tokens it was read from: each part stands
//! for its own tokens, in their order, with nothing in between but the
//! separators.

use vstd::prelude::*;

use crate::ast::{
    condition_text, law_conditions_round_trip, ArrowMapEntryV, ArrowMapHostV, DependsOnEntryV,
    EnvEntryV, IdentV, LabelEntryV, LabelValueV, LiteralV, ParamV, RawEntryV, RawValueV,
    ShellOrExecV, TemplateInvocationV, TopDeclV,
};
use crate::grammar::{
    past_colon, read_bare, read_bracketed, read_decl, read_decls, read_dependency, read_entries,
    read_field_value, read_host, read_items, read_key, read_list, read_literal, read_map,
    read_map_body, read_param_list, read_params, read_program, read_raw_entry, read_raw_items,
    read_raw_pairs, read_raw_value, read_reference, read_scalar_or_list, Dependencies, EntrySpec,
    Invocations, ItemSpec, LabelEntries, LiteralEntries, Literals, MountEntries, RawEntries,
    References,
};
use crate::match_expr::{
    read_and, read_and_rest, read_matcher, read_or, read_or_rest, read_primary, read_rule,
    read_unary, MatchExprV,
};
use crate::schema::{schema_of, top_level_built_in, BuiltIn, TypeSchemaV};
use crate::source::{joined, TokenKind, TokenV};
use crate::text::numeral_value;

verus! {

/// Whether the token at `p` is this name.
pub open spec fn name_at(ts: Seq<TokenV>, p: int, name: IdentV) -> bool {
    ts[p].kind == TokenKind::Ident && ts[p].lexeme == name.name && ts[p].span == name.span
}

/// Whether the tokens from `p` up to `q` spell a value.
pub open spec fn value_spelled(lit: LiteralV, ts: Seq<TokenV>, p: int, q: int) -> bool
    decreases lit,
{
    match lit {
        LiteralV::Str(text, span) => q == p + 1 && ts[p].kind == TokenKind::Str && (
        ts[p].content matches Ok(content) && content == text) && ts[p].span == span,
        LiteralV::Number { text, value, span } => q == p + 1 && ts[p].kind == TokenKind::Number
            && ts[p].lexeme == text && numeral_value(text) == Some(value) && ts[p].span == span,
        LiteralV::Ident(name, span) => q == p + 1 && name_at(ts, p, IdentV { name, span }),
        LiteralV::Qualified(r) => q == p + 3 && name_at(ts, p, r.qualifier) && ts[p + 1].kind
            == TokenKind::Dot && name_at(ts, p + 2, IdentV { name: r.name, span: r.name_span })
            && r.span == joined(ts[p].span, ts[p + 2].span),
        LiteralV::Field(access) => value_spelled(access.base, ts, p, q - 2) && ts[q - 2].kind
            == TokenKind::Dot && name_at(ts, q - 1, access.field) && access.span == joined(
            access.base.span(),
            ts[q - 1].span,
        ),
        LiteralV::Param(name, span) => q == p + 2 && ts[p].kind == TokenKind::Dollar
            && ts[p + 1].kind == TokenKind::Ident && ts[p + 1].lexeme == name && span == joined(
            ts[p].span,
            ts[p + 1].span,
        ),
    }
}

/// Single values, keys and references spell the tokens they are read
/// from. A key is a name or a string; a reference reads no field.
pub proof fn law_values_spell_their_tokens(
    ts: Seq<TokenV>,
    p: int,
    params: Option<Seq<ParamV>>,
)
    ensures
        read_literal(ts, p, params) matches Ok((lit, q)) ==> value_spelled(lit, ts, p, q)
            && !(lit is Qualified),
        read_key(ts, p) matches Ok((lit, q)) ==> value_spelled(lit, ts, p, q) && (lit is Ident
            || lit is Str),
        read_reference(ts, p, params) matches Ok((lit, q)) ==> value_spelled(lit, ts, p, q)
            && !(lit is Field) && !(lit is Number),
{
    reveal_with_fuel(value_spelled, 3);
}

/// The value of a single-value field stands right behind its keyword, or
/// behind the colon there.
pub proof fn law_field_values_spell_their_tokens(
    ts: Seq<TokenV>,
    p: int,
    params: Option<Seq<ParamV>>,
)
    ensures
        read_field_value(ts, p, params) matches Ok((lit, q)) ==> value_spelled(
            lit,
            ts,
            past_colon(ts, p),
            q,
        ),
{
    law_values_spell_their_tokens(ts, past_colon(ts, p), params);
}

/// What the tokens of an item are.
pub trait ItemSpelled: ItemSpec {
    /// Whether the tokens from `p` up to `q` spell an item.
    spec fn item_spelled(item: Self::V, ts: Seq<TokenV>, p: int, q: int) -> bool;

    proof fn lemma_item_spelled(ts: Seq<TokenV>, p: int, params: Option<Seq<ParamV>>)
        ensures
            Self::item(ts, p, params) matches Ok((item, q)) ==> Self::item_spelled(item, ts, p, q),
    ;
}

/// Whether the tokens from `p` up to `q` spell items with a comma between
/// any two.
pub open spec fn row_spelled<K: ItemSpelled>(
    items: Seq<K::V>,
    ts: Seq<TokenV>,
    p: int,
    q: int,
) -> bool
    decreases items.len(),
{
    if items.len() == 0 {
        false
    } else if items.len() == 1 {
        K::item_spelled(items[0], ts, p, q)
    } else {
        exists|m: int|
            #![trigger ts[m]]
            row_spelled::<K>(items.drop_last(), ts, p, m) && ts[m].kind == TokenKind::Comma
                && K::item_spelled(items.last(), ts, m + 1, q)
    }
}

/// Whether the tokens from `p` up to `q` spell items in brackets.
pub open spec fn list_spelled<K: ItemSpelled>(
    items: Seq<K::V>,
    ts: Seq<TokenV>,
    p: int,
    q: int,
) -> bool {
    &&& ts[p].kind == TokenKind::LBracket
    &&& ts[q - 1].kind == TokenKind::RBracket
    &&& if items.len() == 0 {
        q == p + 2
    } else {
        row_spelled::<K>(items, ts, p + 1, q - 1)
    }
}

proof fn lemma_one_more_item<K: ItemSpelled>(
    before: Seq<K::V>,
    item: K::V,
    ts: Seq<TokenV>,
    s: int,
    p: int,
    q: int,
)
    requires
        before.len() == 0 ==> s == p,
        before.len() > 0 ==> row_spelled::<K>(before, ts, s, p - 1) && ts[p - 1].kind
            == TokenKind::Comma,
        K::item_spelled(item, ts, p, q),
    ensures
        row_spelled::<K>(before.push(item), ts, s, q),
{
    let all = before.push(item);
    assert(all.drop_last() =~= before);
    assert(all.last() == item);
    if before.len() > 0 {
        assert(row_spelled::<K>(all.drop_last(), ts, s, p - 1));
        assert(p - 1 + 1 == p);
    }
}

proof fn lemma_items_spelled<K: ItemSpelled>(
    ts: Seq<TokenV>,
    p: int,
    params: Option<Seq<ParamV>>,
    before: Seq<K::V>,
    s: int,
)
    requires
        before.len() == 0 ==> s == p,
        before.len() > 0 ==> row_spelled::<K>(before, ts, s, p - 1) && ts[p - 1].kind
            == TokenKind::Comma,
    ensures
        read_items::<K>(ts, p, params, before) matches Ok((all, q)) ==> all.len() > 0
            && row_spelled::<K>(all, ts, s, q),
    decreases ts.len() - p,
{
    K::lemma_item_spelled(ts, p, params);
    if let Ok((item, next)) = K::item(ts, p, params) {
        lemma_one_more_item::<K>(before, item, ts, s, p, next);
        if ts[next].kind == TokenKind::Comma && p <= next && next + 1 < ts.len() {
            lemma_items_spelled::<K>(ts, next + 1, params, before.push(item), s);
        }
    }
}

proof fn lemma_bare_spelled<K: ItemSpelled>(
    ts: Seq<TokenV>,
    p: int,
    params: Option<Seq<ParamV>>,
    before: Seq<K::V>,
    s: int,
)
    requires
        before.len() == 0 ==> s == p,
        before.len() > 0 ==> row_spelled::<K>(before, ts, s, p - 1) && ts[p - 1].kind
            == TokenKind::Comma,
    ensures
        read_bare::<K>(ts, p, params, before) matches Ok((all, q)) ==> row_spelled::<K>(
            all,
            ts,
            s,
            q,
        ),
    decreases ts.len() - p,
{
    K::lemma_item_spelled(ts, p, params);
    if let Ok((item, next)) = K::item(ts, p, params) {
        lemma_one_more_item::<K>(before, item, ts, s, p, next);
        if ts[next].kind == TokenKind::Comma && p <= next && next + 1 < ts.len() {
            lemma_bare_spelled::<K>(ts, next + 1, params, before.push(item), s);
        }
    }
}

/// Lists spell the tokens they are read from: every item, in order, a
/// comma between any two, and the brackets if there are any.
pub proof fn law_lists_spell_their_tokens<K: ItemSpelled>(
    ts: Seq<TokenV>,
    p: int,
    params: Option<Seq<ParamV>>,
)
    ensures
        read_bracketed::<K>(ts, p, params) matches Ok(((items, span), q)) ==> list_spelled::<K>(
            items,
            ts,
            p,
            q,
        ) && span == joined(ts[p].span, ts[q - 1].span),
        read_list::<K>(ts, p, params) matches Ok((items, q)) ==> {
            let start = past_colon(ts, p);
            if ts[start].kind == TokenKind::LBracket {
                list_spelled::<K>(items, ts, start, q)
            } else {
                row_spelled::<K>(items, ts, start, q)
            }
        },
{
    lemma_bracketed_spelled::<K>(ts, p, params);
    let start = past_colon(ts, p);
    lemma_bracketed_spelled::<K>(ts, start, params);
    lemma_bare_spelled::<K>(ts, start, params, Seq::empty(), start);
}

proof fn lemma_bracketed_spelled<K: ItemSpelled>(
    ts: Seq<TokenV>,
    p: int,
    params: Option<Seq<ParamV>>,
)
    ensures
        read_bracketed::<K>(ts, p, params) matches Ok(((items, span), q)) ==> list_spelled::<K>(
            items,
            ts,
            p,
            q,
        ) && span == joined(ts[p].span, ts[q - 1].span),
{
    lemma_items_spelled::<K>(ts, p + 1, params, Seq::empty(), p + 1);
}

impl ItemSpelled for References {
    open spec fn item_spelled(item: LiteralV, ts: Seq<TokenV>, p: int, q: int) -> bool {
        value_spelled(item, ts, p, q)
    }

    proof fn lemma_item_spelled(ts: Seq<TokenV>, p: int, params: Option<Seq<ParamV>>) {
        law_values_spell_their_tokens(ts, p, params);
    }
}

impl ItemSpelled for Literals {
    open spec fn item_spelled(item: LiteralV, ts: Seq<TokenV>, p: int, q: int) -> bool {
        value_spelled(item, ts, p, q)
    }

    proof fn lemma_item_spelled(ts: Seq<TokenV>, p: int, params: Option<Seq<ParamV>>) {
        law_values_spell_their_tokens(ts, p, params);
    }
}

/// A command is a bracketed list of values, or one value.
pub proof fn law_commands_spell_their_tokens(
    ts: Seq<TokenV>,
    p: int,
    params: Option<Seq<ParamV>>,
)
    ensures
        read_scalar_or_list(ts, p, params) matches Ok((command, q)) ==> match command {
            ShellOrExecV::Shell(lit) => value_spelled(lit, ts, past_colon(ts, p), q),
            ShellOrExecV::Exec(items, span) => list_spelled::<Literals>(
                items,
                ts,
                past_colon(ts, p),
                q,
            ) && span == joined(ts[past_colon(ts, p)].span, ts[q - 1].span),
        },
{
    let start = past_colon(ts, p);
    lemma_bracketed_spelled::<Literals>(ts, start, params);
    law_values_spell_their_tokens(ts, start, params);
}

impl ItemSpelled for Dependencies {
    /// A reference, and `{ condition: .. }` behind it if it has a
    /// condition.
    open spec fn item_spelled(item: DependsOnEntryV, ts: Seq<TokenV>, p: int, q: int) -> bool {
        match item.condition {
            None => value_spelled(item.reference, ts, p, q) && ts[q].kind != TokenKind::LBrace
                && item.span == item.reference.span(),
            Some((condition, span)) => value_spelled(item.reference, ts, p, q - 5)
                && ts[q - 5].kind == TokenKind::LBrace && ts[q - 4].kind == TokenKind::Ident
                && ts[q - 4].lexeme == "condition"@ && ts[q - 3].kind == TokenKind::Colon && (
            ts[q - 2].kind == TokenKind::Ident || ts[q - 2].kind == TokenKind::Str)
                && ts[q - 2].lexeme == condition_text(condition) && ts[q - 2].span == span
                && ts[q - 1].kind == TokenKind::RBrace && item.span == joined(
                item.reference.span(),
                ts[q - 1].span,
            ),
        }
    }

    proof fn lemma_item_spelled(ts: Seq<TokenV>, p: int, params: Option<Seq<ParamV>>) {
        law_values_spell_their_tokens(ts, p, params);
        if let Ok((item, q)) = read_dependency(ts, p, params) {
            if let Some((condition, _)) = item.condition {
                law_conditions_round_trip(condition, ts[q - 2].lexeme);
            }
        }
    }
}

/// What the tokens of an entry are.
pub trait EntrySpelled: EntrySpec {
    /// Whether the tokens from `p` up to `q` spell an entry of a map of
    /// this type.
    spec fn entry_spelled(
        entry: Self::V,
        ts: Seq<TokenV>,
        p: int,
        q: int,
        schema: TypeSchemaV,
    ) -> bool;

    proof fn lemma_entry_spelled(
        ts: Seq<TokenV>,
        p: int,
        params: Option<Seq<ParamV>>,
        schema: TypeSchemaV,
    )
        requires
            schema.map_separator != Some(TokenKind::Eof),
        ensures
            Self::entry(ts, p, params, schema) matches Ok((entry, q)) ==> Self::entry_spelled(
                entry,
                ts,
                p,
                q,
                schema,
            ),
    ;
}

/// Whether a token stands between the two sides of an entry of this type:
/// a colon, or the type's own separator.
pub open spec fn separates(kind: TokenKind, schema: TypeSchemaV) -> bool {
    kind == TokenKind::Colon || schema.map_separator == Some(kind)
}

/// Whether the tokens from `p` up to `q` spell entries, each with a comma
/// behind it or without.
pub open spec fn entries_spelled<E: EntrySpelled>(
    entries: Seq<E::V>,
    ts: Seq<TokenV>,
    p: int,
    q: int,
    schema: TypeSchemaV,
) -> bool
    decreases entries.len(),
{
    if entries.len() == 0 {
        p == q
    } else {
        exists|m: int|
            #![trigger ts[m]]
            entries_spelled::<E>(entries.drop_last(), ts, p, m, schema) && ts[m].kind
                != TokenKind::RBrace && (E::entry_spelled(
                entries.last(),
                ts,
                m,
                q,
                schema,
            ) || ts[q - 1].kind == TokenKind::Comma && E::entry_spelled(
                entries.last(),
                ts,
                m,
                q - 1,
                schema,
            ))
    }
}

proof fn lemma_entries_spelled<E: EntrySpelled>(
    ts: Seq<TokenV>,
    p: int,
    params: Option<Seq<ParamV>>,
    schema: TypeSchemaV,
    before: Seq<E::V>,
    s: int,
)
    requires
        schema.map_separator != Some(TokenKind::Eof),
        entries_spelled::<E>(before, ts, s, p, schema),
    ensures
        read_entries::<E>(ts, p, params, schema, before) matches Ok((all, q))
            ==> entries_spelled::<E>(all, ts, s, q, schema) && ts[q].kind == TokenKind::RBrace,
    decreases ts.len() - p,
{
    if ts[p].kind != TokenKind::RBrace {
        E::lemma_entry_spelled(ts, p, params, schema);
        if let Ok((entry, after)) = E::entry(ts, p, params, schema) {
            let next = if ts[after].kind == TokenKind::Comma {
                after + 1
            } else {
                after
            };
            let all = before.push(entry);
            assert(all.drop_last() =~= before);
            assert(all.last() == entry);
            assert(entries_spelled::<E>(all.drop_last(), ts, s, p, schema));
            assert(next == after + 1 ==> next - 1 == after);
            assert(entries_spelled::<E>(all, ts, s, next, schema));
            if p < next && next < ts.len() {
                lemma_entries_spelled::<E>(ts, next, params, schema, all, s);
            }
        }
    }
}

/// Maps spell the tokens they are read from: every entry, in order, with
/// braces around them, or a single entry without.
pub proof fn law_maps_spell_their_tokens<E: EntrySpelled>(
    ts: Seq<TokenV>,
    p: int,
    params: Option<Seq<ParamV>>,
    schema: TypeSchemaV,
)
    requires
        schema.map_separator != Some(TokenKind::Eof),
    ensures
        read_map_body::<E>(ts, p, params, schema) matches Ok((entries, q)) ==> ts[p].kind
            == TokenKind::LBrace && ts[q - 1].kind == TokenKind::RBrace && entries_spelled::<E>(
            entries,
            ts,
            p + 1,
            q - 1,
            schema,
        ),
        read_map::<E>(ts, p, params, schema) matches Ok((entries, q)) ==> if ts[p].kind
            == TokenKind::LBrace {
            ts[q - 1].kind == TokenKind::RBrace && entries_spelled::<E>(
                entries,
                ts,
                p + 1,
                q - 1,
                schema,
            )
        } else {
            entries.len() == 1 && E::entry_spelled(entries[0], ts, p, q, schema)
        },
{
    lemma_entries_spelled::<E>(ts, p + 1, params, schema, Seq::empty(), p + 1);
    E::lemma_entry_spelled(ts, p, params, schema);
}

impl EntrySpelled for LiteralEntries {
    /// The key, the separator, the value.
    open spec fn entry_spelled(
        entry: EnvEntryV,
        ts: Seq<TokenV>,
        p: int,
        q: int,
        schema: TypeSchemaV,
    ) -> bool {
        &&& exists|m: int| #[trigger]
            value_spelled(entry.key, ts, p, m) && separates(ts[m].kind, schema) && value_spelled(
                entry.value,
                ts,
                m + 1,
                q,
            )
        &&& entry.span == joined(entry.key.span(), entry.value.span())
    }

    proof fn lemma_entry_spelled(
        ts: Seq<TokenV>,
        p: int,
        params: Option<Seq<ParamV>>,
        schema: TypeSchemaV,
    ) {
        law_values_spell_their_tokens(ts, p, params);
        if let Ok((key, m)) = read_literal(ts, p, params) {
            law_values_spell_their_tokens(ts, m + 1, params);
        }
    }
}

/// Whether the tokens from `p` up to `q` spell what a label holds.
pub open spec fn label_spelled(value: LabelValueV, ts: Seq<TokenV>, p: int, q: int) -> bool {
    match value {
        LabelValueV::Scalar(lit) => value_spelled(lit, ts, p, q),
        LabelValueV::List(items, span) => list_spelled::<Literals>(items, ts, p, q) && span
            == joined(ts[p].span, ts[q - 1].span),
    }
}

impl EntrySpelled for LabelEntries {
    /// The key, the separator, and what the label holds.
    open spec fn entry_spelled(
        entry: LabelEntryV,
        ts: Seq<TokenV>,
        p: int,
        q: int,
        schema: TypeSchemaV,
    ) -> bool {
        &&& exists|m: int| #[trigger]
            value_spelled(entry.key, ts, p, m) && separates(ts[m].kind, schema) && label_spelled(
                entry.value,
                ts,
                m + 1,
                q,
            )
        &&& entry.span == joined(entry.key.span(), entry.value.span())
    }

    proof fn lemma_entry_spelled(
        ts: Seq<TokenV>,
        p: int,
        params: Option<Seq<ParamV>>,
        schema: TypeSchemaV,
    ) {
        law_values_spell_their_tokens(ts, p, params);
        if let Ok((key, m)) = read_literal(ts, p, params) {
            law_values_spell_their_tokens(ts, m + 1, params);
            lemma_bracketed_spelled::<Literals>(ts, m + 1, params);
        }
    }
}

/// Whether the tokens from `p` up to `q` spell the host side of a mount:
/// a volume starts with a name, a path does not.
pub open spec fn host_spelled(host: ArrowMapHostV, ts: Seq<TokenV>, p: int, q: int) -> bool {
    match host {
        ArrowMapHostV::Named(lit) => ts[p].kind == TokenKind::Ident && value_spelled(lit, ts, p, q),
        ArrowMapHostV::BindMount(lit) => ts[p].kind != TokenKind::Ident && value_spelled(
            lit,
            ts,
            p,
            q,
        ),
    }
}

impl EntrySpelled for MountEntries {
    /// The host, the separator, the container, and `{ read_only }` behind
    /// it if the mount is read only.
    open spec fn entry_spelled(
        entry: ArrowMapEntryV,
        ts: Seq<TokenV>,
        p: int,
        q: int,
        schema: TypeSchemaV,
    ) -> bool {
        let end = if entry.read_only {
            q - 3
        } else {
            q
        };
        &&& exists|m: int| #[trigger]
            host_spelled(entry.host, ts, p, m) && separates(ts[m].kind, schema) && value_spelled(
                entry.container,
                ts,
                m + 1,
                end,
            )
        &&& entry.read_only <==> ts[end].kind == TokenKind::LBrace
        &&& entry.read_only ==> ts[q - 2].kind == TokenKind::Ident && ts[q - 2].lexeme
            == "read_only"@ && ts[q - 1].kind == TokenKind::RBrace
        &&& entry.span == joined(
            entry.host.literal().span(),
            if entry.read_only {
                ts[q - 1].span
            } else {
                entry.container.span()
            },
        )
    }

    proof fn lemma_entry_spelled(
        ts: Seq<TokenV>,
        p: int,
        params: Option<Seq<ParamV>>,
        schema: TypeSchemaV,
    ) {
        law_values_spell_their_tokens(ts, p, params);
        if let Ok((host, m)) = read_host(ts, p, params) {
            assert(host_spelled(host, ts, p, m));
            law_values_spell_their_tokens(ts, m + 1, params);
        }
    }
}

/// Whether the tokens from `p` up to `q` spell a value of no fixed shape.
pub open spec fn raw_spelled(value: RawValueV, ts: Seq<TokenV>, p: int, q: int) -> bool
    decreases value,
{
    match value {
        RawValueV::Literal(lit) => value_spelled(lit, ts, p, q),
        RawValueV::List(items, span) => {
            &&& ts[p].kind == TokenKind::LBracket
            &&& ts[q - 1].kind == TokenKind::RBracket
            &&& if items.len() == 0 {
                q == p + 2
            } else {
                raw_row_spelled(items, ts, p + 1, q - 1)
            }
            &&& span == joined(ts[p].span, ts[q - 1].span)
        },
        RawValueV::Mapping(pairs, span) => {
            &&& ts[p].kind == TokenKind::LBrace
            &&& ts[q - 1].kind == TokenKind::RBrace
            &&& raw_pairs_spelled(pairs, ts, p + 1, q - 1)
            &&& span == joined(ts[p].span, ts[q - 1].span)
        },
    }
}

/// Whether the tokens from `p` up to `q` spell values of no fixed shape
/// with a comma between any two.
pub open spec fn raw_row_spelled(items: Seq<RawValueV>, ts: Seq<TokenV>, p: int, q: int) -> bool
    decreases items,
{
    if items.len() == 0 {
        false
    } else if items.len() == 1 {
        raw_spelled(items[0], ts, p, q)
    } else {
        exists|m: int|
            #![trigger ts[m]]
            raw_row_spelled(items.subrange(0, items.len() - 1), ts, p, m) && ts[m].kind
                == TokenKind::Comma && raw_spelled(items[items.len() - 1], ts, m + 1, q)
    }
}

/// Whether the tokens from `p` up to `q` spell keys and values of no fixed
/// shape, each pair with a comma behind it or without.
pub open spec fn raw_pairs_spelled(
    pairs: Seq<(LiteralV, RawValueV)>,
    ts: Seq<TokenV>,
    p: int,
    q: int,
) -> bool
    decreases pairs,
{
    if pairs.len() == 0 {
        p == q
    } else {
        let pair = pairs[pairs.len() - 1];
        exists|m: int|
            #![trigger ts[m]]
            raw_pairs_spelled(pairs.subrange(0, pairs.len() - 1), ts, p, m) && ts[m].kind
                != TokenKind::RBrace && value_spelled(
                pair.0,
                ts,
                m,
                m + 1,
            ) && ts[m + 1].kind == TokenKind::Colon && (raw_spelled(pair.1, ts, m + 2, q)
                || ts[q - 1].kind == TokenKind::Comma && raw_spelled(pair.1, ts, m + 2, q - 1))
    }
}

proof fn lemma_raw_value_spelled(
    ts: Seq<TokenV>,
    p: int,
    params: Option<Seq<ParamV>>,
    depth: int,
)
    ensures
        read_raw_value(ts, p, params, depth) matches Ok((value, q)) ==> raw_spelled(
            value,
            ts,
            p,
            q,
        ),
    decreases ts.len() - p, 0int,
{
    law_values_spell_their_tokens(ts, p, params);
    if 0 <= p && p + 1 < ts.len() {
        if ts[p].kind == TokenKind::LBracket {
            lemma_raw_items_spelled(ts, p + 1, params, depth + 1, Seq::empty(), p + 1);
        } else if ts[p].kind == TokenKind::LBrace {
            lemma_raw_pairs_spelled(ts, p + 1, params, depth + 1, Seq::empty(), p + 1);
        }
    }
}

proof fn lemma_raw_items_spelled(
    ts: Seq<TokenV>,
    p: int,
    params: Option<Seq<ParamV>>,
    depth: int,
    before: Seq<RawValueV>,
    s: int,
)
    requires
        before.len() == 0 ==> s == p,
        before.len() > 0 ==> raw_row_spelled(before, ts, s, p - 1) && ts[p - 1].kind
            == TokenKind::Comma,
    ensures
        read_raw_items(ts, p, params, depth, before) matches Ok((all, q)) ==> all.len() > 0
            && raw_row_spelled(all, ts, s, q),
    decreases ts.len() - p, 1int,
{
    lemma_raw_value_spelled(ts, p, params, depth);
    if let Ok((item, next)) = read_raw_value(ts, p, params, depth) {
        let all = before.push(item);
        assert(all.subrange(0, all.len() - 1) =~= before);
        assert(all[all.len() - 1] == item);
        if before.len() > 0 {
            assert(raw_row_spelled(all.subrange(0, all.len() - 1), ts, s, p - 1));
            assert(p - 1 + 1 == p);
        }
        assert(raw_row_spelled(all, ts, s, next));
        if ts[next].kind == TokenKind::Comma && p <= next && next + 1 < ts.len() {
            lemma_raw_items_spelled(ts, next + 1, params, depth, all, s);
        }
    }
}

proof fn lemma_raw_pairs_spelled(
    ts: Seq<TokenV>,
    p: int,
    params: Option<Seq<ParamV>>,
    depth: int,
    before: Seq<(LiteralV, RawValueV)>,
    s: int,
)
    requires
        raw_pairs_spelled(before, ts, s, p),
    ensures
        read_raw_pairs(ts, p, params, depth, before) matches Ok((all, q)) ==> raw_pairs_spelled(
            all,
            ts,
            s,
            q,
        ),
    decreases ts.len() - p, 1int,
{
    if ts[p].kind != TokenKind::RBrace {
        law_values_spell_their_tokens(ts, p, params);
        if let Ok((key, after_key)) = read_key(ts, p) {
            assert(after_key == p + 1);
            if ts[p + 1].kind == TokenKind::Colon && p + 2 < ts.len() {
                lemma_raw_value_spelled(ts, p + 2, params, depth);
                if let Ok((value, after)) = read_raw_value(ts, p + 2, params, depth) {
                    let next = if ts[after].kind == TokenKind::Comma {
                        after + 1
                    } else {
                        after
                    };
                    let all = before.push((key, value));
                    assert(all.subrange(0, all.len() - 1) =~= before);
                    assert(all[all.len() - 1] == (key, value));
                    assert(raw_pairs_spelled(all.subrange(0, all.len() - 1), ts, s, p));
                    assert(next == after + 1 ==> next - 1 == after);
                    assert(raw_pairs_spelled(all, ts, s, next));
                    if p < next && next < ts.len() {
                        lemma_raw_pairs_spelled(ts, next, params, depth, all, s);
                    }
                }
            }
        }
    }
}

/// Values of no fixed shape spell the tokens they are read from.
pub proof fn law_raw_values_spell_their_tokens(
    ts: Seq<TokenV>,
    p: int,
    params: Option<Seq<ParamV>>,
)
    ensures
        read_raw_value(ts, p, params, 0) matches Ok((value, q)) ==> raw_spelled(value, ts, p, q),
        read_raw_entry(ts, p, params) matches Ok((entry, q)) ==> value_spelled(
            entry.key,
            ts,
            p,
            p + 1,
        ) && ts[p + 1].kind == TokenKind::Colon && raw_spelled(entry.value, ts, p + 2, q)
            && entry.span == joined(entry.key.span(), entry.value.span()),
{
    lemma_raw_value_spelled(ts, p, params, 0);
    law_values_spell_their_tokens(ts, p, params);
    lemma_raw_value_spelled(ts, p + 2, params, 0);
}

impl EntrySpelled for RawEntries {
    /// The key, a colon, the value.
    open spec fn entry_spelled(
        entry: RawEntryV,
        ts: Seq<TokenV>,
        p: int,
        q: int,
        schema: TypeSchemaV,
    ) -> bool {
        value_spelled(entry.key, ts, p, p + 1) && ts[p + 1].kind == TokenKind::Colon
            && raw_spelled(entry.value, ts, p + 2, q) && entry.span == joined(
            entry.key.span(),
            entry.value.span(),
        )
    }

    proof fn lemma_entry_spelled(
        ts: Seq<TokenV>,
        p: int,
        params: Option<Seq<ParamV>>,
        schema: TypeSchemaV,
    ) {
        law_raw_values_spell_their_tokens(ts, p, params);
    }
}

impl ItemSpelled for Invocations {
    /// The template's name, its alias and a dot before it if it has one,
    /// and the arguments in braces if there are any.
    open spec fn item_spelled(item: TemplateInvocationV, ts: Seq<TokenV>, p: int, q: int) -> bool {
        let n = match item.qualifier {
            None => p + 1,
            Some(_) => p + 3,
        };
        &&& name_at(ts, n - 1, item.name)
        &&& item.qualifier matches Some(alias) ==> name_at(ts, p, alias) && ts[p + 1].kind
            == TokenKind::Dot
        &&& item.qualifier is None ==> ts[n].kind != TokenKind::Dot
        &&& if ts[n].kind == TokenKind::LBrace {
            ts[q - 1].kind == TokenKind::RBrace && entries_spelled::<RawEntries>(
                item.args.entries,
                ts,
                n + 1,
                q - 1,
                schema_of(BuiltIn::Raw),
            )
        } else {
            item.args.entries.len() == 0 && q == n
        }
        &&& item.span == joined(ts[p].span, ts[q - 1].span)
    }

    proof fn lemma_item_spelled(ts: Seq<TokenV>, p: int, params: Option<Seq<ParamV>>) {
        let schema = schema_of(BuiltIn::Raw);
        assert(schema.map_separator != Some(TokenKind::Eof));
        law_maps_spell_their_tokens::<RawEntries>(ts, p + 1, params, schema);
        law_maps_spell_their_tokens::<RawEntries>(ts, p + 3, params, schema);
    }
}

/// Whether the tokens from `p` up to `q` are the names of the parameters,
/// a comma between any two.
pub open spec fn params_spelled(params: Seq<ParamV>, ts: Seq<TokenV>, p: int, q: int) -> bool {
    &&& q == p + 2 * params.len() - 1
    &&& forall|k: int|
        0 <= k < params.len() ==> name_at(ts, p + 2 * k, (#[trigger] params[k]).name) && (k
            < params.len() - 1 ==> ts[p + 2 * k + 1].kind == TokenKind::Comma)
}

proof fn lemma_params_spelled(ts: Seq<TokenV>, p: int, before: Seq<ParamV>, s: int)
    requires
        p == s + 2 * before.len(),
        forall|k: int|
            0 <= k < before.len() ==> name_at(ts, s + 2 * k, (#[trigger] before[k]).name)
                && ts[s + 2 * k + 1].kind == TokenKind::Comma,
    ensures
        read_params(ts, p, before) matches Ok((all, q)) ==> params_spelled(all, ts, s, q)
            && all.len() > 0,
    decreases ts.len() - p,
{
    if ts[p].kind == TokenKind::Ident {
        let all = before.push(
            ParamV { name: IdentV { name: ts[p].lexeme, span: ts[p].span } },
        );
        assert forall|k: int| 0 <= k < all.len() implies name_at(
            ts,
            s + 2 * k,
            (#[trigger] all[k]).name,
        ) && (k < all.len() - 1 ==> ts[s + 2 * k + 1].kind == TokenKind::Comma) by {
            if k < before.len() {
                assert(all[k] == before[k]);
            } else {
                assert(s + 2 * k == p);
            }
        }
        if ts[p + 1].kind == TokenKind::Comma && p + 2 < ts.len() {
            assert forall|k: int| 0 <= k < all.len() implies name_at(
                ts,
                s + 2 * k,
                (#[trigger] all[k]).name,
            ) && ts[s + 2 * k + 1].kind == TokenKind::Comma by {
                if k < before.len() {
                    assert(all[k] == before[k]);
                } else {
                    assert(s + 2 * k == p);
                }
            }
            lemma_params_spelled(ts, p + 2, all, s);
        }
    }
}

/// The parameters of a template are the names in its parentheses, in
/// order.
pub proof fn law_parameters_spell_their_tokens(ts: Seq<TokenV>, p: int)
    ensures
        read_param_list(ts, p) matches Ok((params, q)) ==> ts[p].kind == TokenKind::LParen
            && ts[q - 1].kind == TokenKind::RParen && if params.len() == 0 {
            q == p + 2
        } else {
            params_spelled(params, ts, p + 1, q - 1)
        },
{
    lemma_params_spelled(ts, p + 1, Seq::empty(), p + 1);
}

/// Whether the tokens from `p` up to `q` spell a rule.
pub open spec fn rule_spelled(rule: MatchExprV, ts: Seq<TokenV>, p: int, q: int) -> bool
    decreases rule,
{
    match rule {
        MatchExprV::Matcher { name, args, span } => {
            &&& name_at(ts, p, name)
            &&& ts[p + 1].kind == TokenKind::LParen
            &&& ts[q - 1].kind == TokenKind::RParen
            &&& if args.len() == 0 {
                q == p + 3
            } else {
                row_spelled::<References>(args, ts, p + 2, q - 1)
            }
        },
        MatchExprV::Not { operand, .. } => ts[p].kind == TokenKind::Bang && rule_spelled(
            *operand,
            ts,
            p + 1,
            q,
        ),
        MatchExprV::Group { inner, .. } => ts[p].kind == TokenKind::LParen && ts[q - 1].kind
            == TokenKind::RParen && rule_spelled(*inner, ts, p + 1, q - 1),
        MatchExprV::And { lhs, rhs, .. } => exists|m: int|
            #![trigger ts[m]]
            rule_spelled(*lhs, ts, p, m) && ts[m].kind == TokenKind::AmpAmp && rule_spelled(
                *rhs,
                ts,
                m + 1,
                q,
            ),
        MatchExprV::Or { lhs, rhs, .. } => exists|m: int|
            #![trigger ts[m]]
            rule_spelled(*lhs, ts, p, m) && ts[m].kind == TokenKind::PipePipe && rule_spelled(
                *rhs,
                ts,
                m + 1,
                q,
            ),
    }
}

proof fn lemma_matcher_spelled(ts: Seq<TokenV>, p: int, params: Option<Seq<ParamV>>)
    requires
        ts[p].kind == TokenKind::Ident,
    ensures
        read_matcher(ts, p, params) matches Ok((rule, q)) ==> rule_spelled(rule, ts, p, q)
            && rule.span() == joined(ts[p].span, ts[q - 1].span),
{
    lemma_items_spelled::<References>(ts, p + 2, params, Seq::empty(), p + 2);
}

proof fn lemma_primary_spelled(
    ts: Seq<TokenV>,
    p: int,
    params: Option<Seq<ParamV>>,
    depth: int,
)
    ensures
        read_primary(ts, p, params, depth) matches Ok((rule, q)) ==> rule_spelled(rule, ts, p, q),
    decreases ts.len() - p, 0int,
{
    if ts[p].kind == TokenKind::LParen && p + 1 < ts.len() {
        lemma_or_spelled(ts, p + 1, params, depth + 1);
    } else if ts[p].kind == TokenKind::Ident {
        lemma_matcher_spelled(ts, p, params);
    }
}

proof fn lemma_unary_spelled(ts: Seq<TokenV>, p: int, params: Option<Seq<ParamV>>, depth: int)
    ensures
        read_unary(ts, p, params, depth) matches Ok((rule, q)) ==> rule_spelled(rule, ts, p, q),
    decreases ts.len() - p, 1int,
{
    if ts[p].kind == TokenKind::Bang && p + 1 < ts.len() {
        lemma_unary_spelled(ts, p + 1, params, depth + 1);
    } else {
        lemma_primary_spelled(ts, p, params, depth);
    }
}

proof fn lemma_and_rest_spelled(
    ts: Seq<TokenV>,
    p: int,
    params: Option<Seq<ParamV>>,
    level: int,
    node: MatchExprV,
    s: int,
)
    requires
        rule_spelled(node, ts, s, p),
    ensures
        read_and_rest(ts, p, params, level, node) matches Ok((rule, q)) ==> rule_spelled(
            rule,
            ts,
            s,
            q,
        ),
    decreases ts.len() - p, 2int,
{
    if ts[p].kind == TokenKind::AmpAmp && p + 1 < ts.len() {
        lemma_unary_spelled(ts, p + 1, params, level + 1);
        if let Ok((rhs, next)) = read_unary(ts, p + 1, params, level + 1) {
            let folded = MatchExprV::And {
                lhs: Box::new(node),
                rhs: Box::new(rhs),
                span: joined(node.span(), rhs.span()),
            };
            assert(rule_spelled(folded, ts, s, next));
            if p < next && next < ts.len() {
                lemma_and_rest_spelled(ts, next, params, level + 1, folded, s);
            }
        }
    }
}

proof fn lemma_and_spelled(ts: Seq<TokenV>, p: int, params: Option<Seq<ParamV>>, depth: int)
    ensures
        read_and(ts, p, params, depth) matches Ok((rule, q)) ==> rule_spelled(rule, ts, p, q),
    decreases ts.len() - p, 3int,
{
    lemma_unary_spelled(ts, p, params, depth);
    if let Ok((node, next)) = read_unary(ts, p, params, depth) {
        if p < next && next < ts.len() {
            lemma_and_rest_spelled(ts, next, params, depth, node, p);
        }
    }
}

proof fn lemma_or_rest_spelled(
    ts: Seq<TokenV>,
    p: int,
    params: Option<Seq<ParamV>>,
    level: int,
    node: MatchExprV,
    s: int,
)
    requires
        rule_spelled(node, ts, s, p),
    ensures
        read_or_rest(ts, p, params, level, node) matches Ok((rule, q)) ==> rule_spelled(
            rule,
            ts,
            s,
            q,
        ),
    decreases ts.len() - p, 4int,
{
    if ts[p].kind == TokenKind::PipePipe && p + 1 < ts.len() {
        lemma_and_spelled(ts, p + 1, params, level + 1);
        if let Ok((rhs, next)) = read_and(ts, p + 1, params, level + 1) {
            let folded = MatchExprV::Or {
                lhs: Box::new(node),
                rhs: Box::new(rhs),
                span: joined(node.span(), rhs.span()),
            };
            assert(rule_spelled(folded, ts, s, next));
            if p < next && next < ts.len() {
                lemma_or_rest_spelled(ts, next, params, level + 1, folded, s);
            }
        }
    }
}

proof fn lemma_or_spelled(ts: Seq<TokenV>, p: int, params: Option<Seq<ParamV>>, depth: int)
    ensures
        read_or(ts, p, params, depth) matches Ok((rule, q)) ==> rule_spelled(rule, ts, p, q),
    decreases ts.len() - p, 5int,
{
    lemma_and_spelled(ts, p, params, depth);
    if let Ok((node, next)) = read_and(ts, p, params, depth) {
        if p < next && next < ts.len() {
            lemma_or_rest_spelled(ts, next, params, depth, node, p);
        }
    }
}

/// Rules spell the tokens they are read from: every matcher with its
/// arguments, every operator between its operands, every negation before
/// its own, and every pair of parentheses.
pub proof fn law_rules_spell_their_tokens(ts: Seq<TokenV>, p: int, params: Option<Seq<ParamV>>)
    ensures
        read_rule(ts, p, params) matches Ok((rule, q)) ==> rule_spelled(
            rule,
            ts,
            past_colon(ts, p),
            q,
        ),
{
    lemma_or_spelled(ts, past_colon(ts, p), params, 0);
}

/// Whether a declaration starts at `p` by its keyword and its name, a
/// template with its parameters; a `use` by its path and its alias.
pub open spec fn decl_opens(decl: TopDeclV, ts: Seq<TokenV>, p: int) -> bool {
    match decl {
        TopDeclV::Service(service) => ts[p].kind == TokenKind::Ident && ts[p].lexeme == "service"@
            && name_at(ts, p + 1, service.name),
        TopDeclV::Network(network) => ts[p].kind == TokenKind::Ident && ts[p].lexeme == "network"@
            && name_at(ts, p + 1, network.name),
        TopDeclV::Volume(volume) => ts[p].kind == TokenKind::Ident && ts[p].lexeme == "volume"@
            && name_at(ts, p + 1, volume.name),
        TopDeclV::Template(template) => ts[p].kind == TokenKind::Template && name_at(
            ts,
            p + 1,
            template.name,
        ) && if ts[p + 2].kind == TokenKind::LParen {
            if template.params.len() == 0 {
                ts[p + 3].kind == TokenKind::RParen
            } else {
                params_spelled(template.params, ts, p + 3, p + 2 + 2 * template.params.len())
                    && ts[p + 2 + 2 * template.params.len()].kind == TokenKind::RParen
            }
        } else {
            template.params.len() == 0
        },
        TopDeclV::Use(u) => ts[p].kind == TokenKind::Ident && ts[p].lexeme == "use"@
            && value_spelled(u.path, ts, p + 1, p + 2) && u.path is Str && ts[p + 2].kind
            == TokenKind::Ident && ts[p + 2].lexeme == "as"@ && name_at(ts, p + 3, u.alias),
    }
}

/// Every declaration is of the kind its keyword says, under the name
/// behind it.
#[verifier::spinoff_prover]
#[verifier::rlimit(60)]
pub proof fn law_declarations_open_as_written(ts: Seq<TokenV>, p: int)
    ensures
        read_decl(ts, p) matches Ok((decl, _)) ==> decl_opens(decl, ts, p),
{
    law_parameters_spell_their_tokens(ts, p + 2);
    law_values_spell_their_tokens(ts, p + 1, None);
    if ts[p].kind == TokenKind::Ident {
        lemma_top_level_types(ts[p].lexeme);
    }
}

proof fn lemma_top_level_types(keyword: Seq<char>)
    ensures
        match top_level_built_in(keyword) {
            Some(BuiltIn::Service) => keyword == "service"@,
            Some(BuiltIn::Network) => keyword == "network"@,
            Some(BuiltIn::VolumeDecl) => keyword == "volume"@,
            Some(_) => false,
            None => true,
        },
{
}

/// Whether the tokens from `p` up to `q` read as these declarations, one
/// behind the other.
pub open spec fn decls_read(decls: Seq<TopDeclV>, ts: Seq<TokenV>, p: int, q: int) -> bool
    decreases decls.len(),
{
    if decls.len() == 0 {
        p == q
    } else {
        exists|m: int|
            #![trigger ts[m]]
            decls_read(decls.drop_last(), ts, p, m) && decl_opens(decls.last(), ts, m) && (
            read_decl(ts, m) matches Ok((decl, end)) && decl == decls.last() && end == q)
    }
}

proof fn lemma_decls_read(ts: Seq<TokenV>, p: int, before: Seq<TopDeclV>, s: int)
    requires
        decls_read(before, ts, s, p),
    ensures
        read_decls(ts, p, before) matches Ok(all) ==> exists|q: int|
            #![trigger ts[q]]
            decls_read(all, ts, s, q) && ts[q].kind == TokenKind::Eof,
    decreases ts.len() - p,
{
    if ts[p].kind != TokenKind::Eof {
        law_declarations_open_as_written(ts, p);
        if let Ok((decl, next)) = read_decl(ts, p) {
            if p < next && next < ts.len() {
                let all = before.push(decl);
                assert(all.drop_last() =~= before);
                assert(all.last() == decl);
                assert(ts[p].kind != TokenKind::Eof);
                assert(decls_read(all, ts, s, next));
                lemma_decls_read(ts, next, all, s);
            }
        }
    }
}

/// A file reads as its declarations, in their order and up to its end,
/// each of the kind and under the name that are written.
pub proof fn law_programs_read_in_order(ts: Seq<TokenV>)
    ensures
        read_program(Ok(ts)) matches Ok(program) ==> exists|q: int|
            #![trigger ts[q]]
            decls_read(program.decls, ts, 0, q) && ts[q].kind == TokenKind::Eof,
{
    lemma_decls_read(ts, 0, Seq::empty(), 0);
}

} // verus!
