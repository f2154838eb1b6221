//! The grammar of the language: what a sequence of tokens reads as, from
//! each position on.

use vstd::prelude::*;

use crate::ast::{
    condition_named, ArrowMapEntryV, ArrowMapHostV, ArrowMapV, BuildV, DependsOnCondition,
    DependsOnEntryV, EnvEntryV, EnvMapV, ExposeV, FieldAccessV, HealthcheckV, IdentV, ImageV,
    LabelEntryV, LabelMapV, LabelValueV, LiteralV, NetworkV, ParamV, ProgramV, QualifiedRefV,
    RawEntryV, RawMapV, RawValueV, RestartV, ServiceFieldsV, ServiceV, ShellOrExecV, TemplateDeclV,
    TemplateInvocationV, TopDeclV, UseDeclV, VolumeDriverOptV, VolumeV,
};
use crate::compose::engine::declares_param;
use crate::error::{ExpectedV, ParseErrorV};
use crate::schema::{
    field_from, has_raw_field, resolution, schema_of, top_level_built_in, BuiltIn, FieldKind,
    FieldResolutionV, MapSide, SchemaKind, TypeSchemaV,
};
use crate::source::{joined, FileId, LexErrorV, Span, TokenKind, TokenV};
use crate::text::numeral_value;

verus! {

/// How deep a raw value may nest.
///
/// Each level is one more level of recursion, so it has to end somewhere.
pub const MAX_RAW_VALUE_DEPTH: usize = 128;

/// A place, in another file.
pub open spec fn moved_to(span: Span, file: FileId) -> Span {
    Span { file, ..span }
}

/// A lexer's error, in another file.
pub open spec fn error_in(error: LexErrorV, file: FileId) -> LexErrorV {
    LexErrorV { span: moved_to(error.span, file), ..error }
}

/// A token, in another file.
pub open spec fn token_in(tok: TokenV, file: FileId) -> TokenV {
    TokenV {
        content: match tok.content {
            Ok(text) => Ok(text),
            Err(error) => Err(error_in(error, file)),
        },
        span: moved_to(tok.span, file),
        ..tok
    }
}

/// What a lexer hands over, in another file.
pub open spec fn lexed_in(lexed: Result<Seq<TokenV>, Seq<LexErrorV>>, file: FileId) -> Result<
    Seq<TokenV>,
    Seq<LexErrorV>,
> {
    match lexed {
        Ok(ts) => Ok(ts.map_values(|tok: TokenV| token_in(tok, file))),
        Err(errors) => Err(errors.map_values(|error: LexErrorV| error_in(error, file))),
    }
}

/// What was read, and where reading goes on.
pub type Parsed<T> = Result<(T, int), ParseErrorV>;

/// Whether a token sequence is one that a lexer hands over: it ends with
/// the token that says so.
pub open spec fn ends_with_eof(ts: Seq<TokenV>) -> bool {
    ts.len() > 0 && ts.last().kind == TokenKind::Eof
}

/// The position behind a token; the end of the input is never passed.
pub open spec fn bumped(ts: Seq<TokenV>, p: int) -> int {
    if ts[p].kind == TokenKind::Eof {
        p
    } else {
        p + 1
    }
}

/// The error at a token that is not what was expected.
pub open spec fn unexpected(ts: Seq<TokenV>, p: int, expected: ExpectedV) -> ParseErrorV {
    ParseErrorV::UnexpectedToken {
        expected,
        found_kind: ts[p].kind,
        found_lexeme: ts[p].lexeme,
        span: ts[p].span,
    }
}

/// The error at a token, with what was expected put into words.
pub open spec fn described(ts: Seq<TokenV>, p: int, wanted: Seq<char>) -> ParseErrorV {
    unexpected(ts, p, ExpectedV::Description(wanted))
}

/// A token of one kind.
pub open spec fn expected(ts: Seq<TokenV>, p: int, kind: TokenKind) -> Parsed<TokenV> {
    if ts[p].kind == kind {
        Ok((ts[p], bumped(ts, p)))
    } else {
        Err(unexpected(ts, p, ExpectedV::Token(kind)))
    }
}

/// The position behind a colon, if there is one: `key: value` and `key
/// value` mean the same.
pub open spec fn past_colon(ts: Seq<TokenV>, p: int) -> int {
    if ts[p].kind == TokenKind::Colon {
        p + 1
    } else {
        p
    }
}

/// Whether a value can start with a token of this kind.
pub open spec fn starts_value(kind: TokenKind) -> bool {
    kind == TokenKind::Ident || kind == TokenKind::Str || kind == TokenKind::Number || kind
        == TokenKind::LBracket || kind == TokenKind::Dollar
}

/// The literal a string token stands for.
pub open spec fn string_literal(tok: TokenV) -> Result<LiteralV, ParseErrorV> {
    match tok.content {
        Ok(text) => Ok(LiteralV::Str(text, tok.span)),
        Err(error) => Err(ParseErrorV::Lex(seq![error])),
    }
}

/// A `$param`, which has to be one of the enclosing template's.
pub open spec fn read_param(ts: Seq<TokenV>, p: int, params: Option<Seq<ParamV>>) -> Parsed<
    LiteralV,
> {
    match expected(ts, bumped(ts, p), TokenKind::Ident) {
        Err(error) => Err(error),
        Ok((name_tok, next)) => {
            let name = name_tok.lexeme;
            let span = joined(ts[p].span, name_tok.span);
            match params {
                None => Err(ParseErrorV::ParamReferenceOutsideTemplate { name, span }),
                Some(declared) => if declares_param(declared, name, 0) {
                    Ok((LiteralV::Param(name, span), next))
                } else {
                    Err(ParseErrorV::UnknownTemplateParam { name, span })
                },
            }
        },
    }
}

/// The field read off the declaration that `base` names, behind the dot at
/// `p`.
pub open spec fn read_access(ts: Seq<TokenV>, p: int, base: LiteralV) -> Parsed<LiteralV> {
    match expected(ts, bumped(ts, p), TokenKind::Ident) {
        Err(error) => Err(error),
        Ok((field, end)) => Ok(
            (
                LiteralV::Field(
                    Box::new(
                        FieldAccessV {
                            base,
                            field: IdentV { name: field.lexeme, span: field.span },
                            span: joined(base.span(), field.span),
                        },
                    ),
                ),
                end,
            ),
        ),
    }
}

/// The reference that two names with a dot between them make.
pub open spec fn qualified_name(qualifier: TokenV, name: TokenV) -> LiteralV {
    LiteralV::Qualified(
        QualifiedRefV {
            qualifier: IdentV { name: qualifier.lexeme, span: qualifier.span },
            name: name.lexeme,
            name_span: name.span,
            span: joined(qualifier.span, name.span),
        },
    )
}

/// A value that starts with a name: the name alone, a field of the
/// declaration it names, or a field of one that another file declares.
pub open spec fn read_named_value(ts: Seq<TokenV>, p: int) -> Parsed<LiteralV> {
    let bare = LiteralV::Ident(ts[p].lexeme, ts[p].span);
    if ts[p + 1].kind != TokenKind::Dot {
        Ok((bare, p + 1))
    } else {
        match expected(ts, p + 2, TokenKind::Ident) {
            Err(error) => Err(error),
            Ok((second, next)) => if ts[next].kind == TokenKind::Dot {
                read_access(ts, next, qualified_name(ts[p], second))
            } else {
                read_access(ts, p + 1, bare)
            },
        }
    }
}

/// A value that starts with a parameter: the parameter alone, or a field
/// of the declaration it stands for.
pub open spec fn read_param_value(ts: Seq<TokenV>, p: int, params: Option<Seq<ParamV>>) -> Parsed<
    LiteralV,
> {
    match read_param(ts, p, params) {
        Err(error) => Err(error),
        Ok((param, next)) => if ts[next].kind == TokenKind::Dot {
            read_access(ts, next, param)
        } else {
            Ok((param, next))
        },
    }
}

/// A single value.
pub open spec fn read_literal(ts: Seq<TokenV>, p: int, params: Option<Seq<ParamV>>) -> Parsed<
    LiteralV,
> {
    let tok = ts[p];
    match tok.kind {
        TokenKind::Str => match string_literal(tok) {
            Ok(lit) => Ok((lit, p + 1)),
            Err(error) => Err(error),
        },
        TokenKind::Ident => read_named_value(ts, p),
        TokenKind::Number => match numeral_value(tok.lexeme) {
            Some(value) => Ok(
                (LiteralV::Number { text: tok.lexeme, value, span: tok.span }, p + 1),
            ),
            None => Err(ParseErrorV::NumberOutOfRange { text: tok.lexeme, span: tok.span }),
        },
        TokenKind::Dollar => read_param_value(ts, p, params),
        _ => Err(described(ts, p, "a literal (string, number, or identifier)"@)),
    }
}

/// The name of a field: an identifier or a string.
pub open spec fn read_key(ts: Seq<TokenV>, p: int) -> Parsed<LiteralV> {
    let tok = ts[p];
    match tok.kind {
        TokenKind::Str => match string_literal(tok) {
            Ok(lit) => Ok((lit, p + 1)),
            Err(error) => Err(error),
        },
        TokenKind::Ident => Ok((LiteralV::Ident(tok.lexeme, tok.span), p + 1)),
        _ => Err(described(ts, p, "a field name (identifier or string)"@)),
    }
}

/// A reference: a name, `alias.name`, or a `$param`.
pub open spec fn read_reference(ts: Seq<TokenV>, p: int, params: Option<Seq<ParamV>>) -> Parsed<
    LiteralV,
> {
    if ts[p].kind == TokenKind::Dollar {
        read_param(ts, p, params)
    } else {
        match read_key(ts, p) {
            Err(error) => Err(error),
            Ok((key, next)) => if key is Ident && ts[next].kind == TokenKind::Dot {
                match expected(ts, next + 1, TokenKind::Ident) {
                    Err(error) => Err(error),
                    Ok((name_tok, end)) => Ok((qualified_name(ts[p], name_tok), end)),
                }
            } else {
                Ok((key, next))
            },
        }
    }
}

/// Whether what follows a comma is a field of its own rather than one
/// more item: a name with a colon behind it.
pub open spec fn comma_starts_field(ts: Seq<TokenV>, p: int) -> bool {
    (ts[p + 1].kind == TokenKind::Ident || ts[p + 1].kind == TokenKind::Str) && p + 2 < ts.len()
        && ts[p + 2].kind == TokenKind::Colon
}

/// What the items of a list are.
pub trait ItemSpec {
    type V;

    /// One item.
    spec fn item(ts: Seq<TokenV>, p: int, params: Option<Seq<ParamV>>) -> Parsed<Self::V>;

    /// Whether a list without brackets can start with this kind of token.
    spec fn opens(kind: TokenKind) -> bool;

    /// Whether a list without brackets ends at a comma that a field
    /// follows.
    spec fn yields_to_fields() -> bool;

    /// What is expected where there is neither a list nor an item.
    spec fn wanted() -> Seq<char>;
}

/// Items with commas between them, up to the last one.
pub open spec fn read_items<K: ItemSpec>(
    ts: Seq<TokenV>,
    p: int,
    params: Option<Seq<ParamV>>,
    before: Seq<K::V>,
) -> Parsed<Seq<K::V>>
    decreases ts.len() - p,
{
    match K::item(ts, p, params) {
        Err(error) => Err(error),
        Ok((item, next)) => if ts[next].kind != TokenKind::Comma {
            Ok((before.push(item), next))
        } else if p <= next && next + 1 < ts.len() {
            read_items::<K>(ts, next + 1, params, before.push(item))
        } else {
            Err(arbitrary())
        },
    }
}

/// A bracketed list, and where it stands.
pub open spec fn read_bracketed<K: ItemSpec>(
    ts: Seq<TokenV>,
    p: int,
    params: Option<Seq<ParamV>>,
) -> Parsed<(Seq<K::V>, Span)> {
    match expected(ts, p, TokenKind::LBracket) {
        Err(error) => Err(error),
        Ok((open, first)) => {
            let items = if ts[first].kind == TokenKind::RBracket {
                Ok((Seq::empty(), first))
            } else {
                read_items::<K>(ts, first, params, Seq::empty())
            };
            match items {
                Err(error) => Err(error),
                Ok((list, last)) => match expected(ts, last, TokenKind::RBracket) {
                    Err(error) => Err(error),
                    Ok((close, end)) => Ok(((list, joined(open.span, close.span)), end)),
                },
            }
        },
    }
}

/// A list without brackets.
pub open spec fn read_bare<K: ItemSpec>(
    ts: Seq<TokenV>,
    p: int,
    params: Option<Seq<ParamV>>,
    before: Seq<K::V>,
) -> Parsed<Seq<K::V>>
    decreases ts.len() - p,
{
    match K::item(ts, p, params) {
        Err(error) => Err(error),
        Ok((item, next)) => if ts[next].kind != TokenKind::Comma || (K::yields_to_fields()
            && comma_starts_field(ts, next)) {
            Ok((before.push(item), next))
        } else if p <= next && next + 1 < ts.len() {
            read_bare::<K>(ts, next + 1, params, before.push(item))
        } else {
            Err(arbitrary())
        },
    }
}

/// The value of a list field, with or without brackets.
pub open spec fn read_list<K: ItemSpec>(
    ts: Seq<TokenV>,
    p: int,
    params: Option<Seq<ParamV>>,
) -> Parsed<Seq<K::V>> {
    let start = past_colon(ts, p);
    if ts[start].kind == TokenKind::LBracket {
        match read_bracketed::<K>(ts, start, params) {
            Ok(((list, _), end)) => Ok((list, end)),
            Err(error) => Err(error),
        }
    } else if K::opens(ts[start].kind) {
        read_bare::<K>(ts, start, params, Seq::empty())
    } else {
        Err(described(ts, start, K::wanted()))
    }
}

/// Lists of references.
pub struct References;

impl ItemSpec for References {
    type V = LiteralV;

    open spec fn item(ts: Seq<TokenV>, p: int, params: Option<Seq<ParamV>>) -> Parsed<LiteralV> {
        read_reference(ts, p, params)
    }

    open spec fn opens(kind: TokenKind) -> bool {
        starts_value(kind)
    }

    open spec fn yields_to_fields() -> bool {
        true
    }

    open spec fn wanted() -> Seq<char> {
        "a reference or a list of references"@
    }
}

/// Lists of single values.
pub struct Literals;

impl ItemSpec for Literals {
    type V = LiteralV;

    open spec fn item(ts: Seq<TokenV>, p: int, params: Option<Seq<ParamV>>) -> Parsed<LiteralV> {
        read_literal(ts, p, params)
    }

    open spec fn opens(kind: TokenKind) -> bool {
        starts_value(kind)
    }

    open spec fn yields_to_fields() -> bool {
        true
    }

    open spec fn wanted() -> Seq<char> {
        "a value or a bracketed list"@
    }
}

/// A single value or a bracketed list of them.
pub open spec fn read_scalar_or_list(
    ts: Seq<TokenV>,
    p: int,
    params: Option<Seq<ParamV>>,
) -> Parsed<ShellOrExecV> {
    let start = past_colon(ts, p);
    if ts[start].kind == TokenKind::LBracket {
        match read_bracketed::<Literals>(ts, start, params) {
            Ok(((list, span), end)) => Ok((ShellOrExecV::Exec(list, span), end)),
            Err(error) => Err(error),
        }
    } else if starts_value(ts[start].kind) {
        match read_literal(ts, start, params) {
            Ok((lit, end)) => Ok((ShellOrExecV::Shell(lit), end)),
            Err(error) => Err(error),
        }
    } else {
        Err(described(ts, start, "a value or a bracketed list"@))
    }
}

/// The condition of a dependency.
pub open spec fn read_condition(ts: Seq<TokenV>, p: int) -> Parsed<(DependsOnCondition, Span)> {
    let tok = ts[p];
    if tok.kind != TokenKind::Ident && tok.kind != TokenKind::Str {
        Err(
            described(
                ts,
                p,
                "one of `service_started`, `service_healthy`, `service_completed_successfully`"@,
            ),
        )
    } else {
        match condition_named(tok.lexeme) {
            Some(condition) => Ok(((condition, tok.span), p + 1)),
            None => Err(
                ParseErrorV::InvalidDependsOnCondition { found: tok.lexeme, span: tok.span },
            ),
        }
    }
}

/// What stands in the braces behind a dependency: its condition. The
/// closing brace's place comes with it.
pub open spec fn read_condition_block(ts: Seq<TokenV>, p: int) -> Parsed<
    ((DependsOnCondition, Span), Span),
> {
    match expected(ts, p, TokenKind::Ident) {
        Err(error) => Err(error),
        Ok((key, after_key)) => if key.lexeme != "condition"@ {
            Err(
                ParseErrorV::UnknownField {
                    on_type: "depends_on"@,
                    field: key.lexeme,
                    raw_escape_hatch: false,
                    span: key.span,
                },
            )
        } else {
            match expected(ts, after_key, TokenKind::Colon) {
                Err(error) => Err(error),
                Ok((_, after_colon)) => match read_condition(ts, after_colon) {
                    Err(error) => Err(error),
                    Ok((condition, after)) => match expected(ts, after, TokenKind::RBrace) {
                        Err(error) => Err(error),
                        Ok((close, end)) => Ok(((condition, close.span), end)),
                    },
                },
            }
        },
    }
}

/// One dependency: a reference, with a condition in braces or without.
pub open spec fn read_dependency(ts: Seq<TokenV>, p: int, params: Option<Seq<ParamV>>) -> Parsed<
    DependsOnEntryV,
> {
    match read_reference(ts, p, params) {
        Err(error) => Err(error),
        Ok((reference, next)) => if ts[next].kind == TokenKind::LBrace {
            match read_condition_block(ts, next + 1) {
                Err(error) => Err(error),
                Ok(((condition, close), end)) => Ok(
                    (
                        DependsOnEntryV {
                            reference,
                            condition: Some(condition),
                            span: joined(reference.span(), close),
                        },
                        end,
                    ),
                ),
            }
        } else {
            Ok((DependsOnEntryV { reference, condition: None, span: reference.span() }, next))
        },
    }
}

/// Lists of dependencies.
pub struct Dependencies;

impl ItemSpec for Dependencies {
    type V = DependsOnEntryV;

    open spec fn item(ts: Seq<TokenV>, p: int, params: Option<Seq<ParamV>>) -> Parsed<
        DependsOnEntryV,
    > {
        read_dependency(ts, p, params)
    }

    open spec fn opens(kind: TokenKind) -> bool {
        starts_value(kind)
    }

    open spec fn yields_to_fields() -> bool {
        true
    }

    open spec fn wanted() -> Seq<char> {
        "a service reference or a list of service references"@
    }
}

/// The error of an entry under a key that is taken, with the place of the
/// entry that has it.
pub open spec fn duplicate_key(
    on_type: Seq<char>,
    side: MapSide,
    value: Seq<char>,
    first: Span,
    second: Span,
) -> ParseErrorV {
    ParseErrorV::DuplicateMapKey { on_type, side, value, first, second }
}

/// The index of the first pair under `key` at or after `i`, or the number
/// of pairs.
pub open spec fn pair_index(
    pairs: Seq<(LiteralV, RawValueV)>,
    key: Seq<char>,
    i: int,
) -> int
    decreases pairs.len() - i,
{
    if i >= pairs.len() {
        pairs.len() as int
    } else if pairs[i].0.text() == key {
        i
    } else {
        pair_index(pairs, key, i + 1)
    }
}

/// A value of no fixed shape, `depth` levels into another: a list, a map,
/// or a single value.
pub open spec fn read_raw_value(
    ts: Seq<TokenV>,
    p: int,
    params: Option<Seq<ParamV>>,
    depth: int,
) -> Parsed<RawValueV>
    decreases ts.len() - p, 0int,
{
    if depth + 1 > MAX_RAW_VALUE_DEPTH {
        Err(ParseErrorV::RawValueTooDeep { limit: MAX_RAW_VALUE_DEPTH, span: ts[p].span })
    } else if p < 0 || p + 1 >= ts.len() {
        match read_literal(ts, p, params) {
            Ok((lit, end)) => Ok((RawValueV::Literal(lit), end)),
            Err(error) => Err(error),
        }
    } else if ts[p].kind == TokenKind::LBracket {
        let items = if ts[p + 1].kind == TokenKind::RBracket {
            Ok((Seq::empty(), p + 1))
        } else {
            read_raw_items(ts, p + 1, params, depth + 1, Seq::empty())
        };
        match items {
            Err(error) => Err(error),
            Ok((list, last)) => match expected(ts, last, TokenKind::RBracket) {
                Err(error) => Err(error),
                Ok((close, end)) => Ok(
                    (RawValueV::List(list, joined(ts[p].span, close.span)), end),
                ),
            },
        }
    } else if ts[p].kind == TokenKind::LBrace {
        match read_raw_pairs(ts, p + 1, params, depth + 1, Seq::empty()) {
            Err(error) => Err(error),
            Ok((pairs, last)) => match expected(ts, last, TokenKind::RBrace) {
                Err(error) => Err(error),
                Ok((close, end)) => Ok(
                    (RawValueV::Mapping(pairs, joined(ts[p].span, close.span)), end),
                ),
            },
        }
    } else {
        match read_literal(ts, p, params) {
            Ok((lit, end)) => Ok((RawValueV::Literal(lit), end)),
            Err(error) => Err(error),
        }
    }
}

/// The items of a raw list, up to the last one.
pub open spec fn read_raw_items(
    ts: Seq<TokenV>,
    p: int,
    params: Option<Seq<ParamV>>,
    depth: int,
    before: Seq<RawValueV>,
) -> Parsed<Seq<RawValueV>>
    decreases ts.len() - p, 1int,
{
    match read_raw_value(ts, p, params, depth) {
        Err(error) => Err(error),
        Ok((item, next)) => if ts[next].kind != TokenKind::Comma {
            Ok((before.push(item), next))
        } else if p <= next && next + 1 < ts.len() {
            read_raw_items(ts, next + 1, params, depth, before.push(item))
        } else {
            Err(arbitrary())
        },
    }
}

/// The pairs of a raw map, up to the closing brace; no key stands twice.
pub open spec fn read_raw_pairs(
    ts: Seq<TokenV>,
    p: int,
    params: Option<Seq<ParamV>>,
    depth: int,
    before: Seq<(LiteralV, RawValueV)>,
) -> Parsed<Seq<(LiteralV, RawValueV)>>
    decreases ts.len() - p, 1int,
{
    if ts[p].kind == TokenKind::RBrace {
        Ok((before, p))
    } else {
        match read_key(ts, p) {
            Err(error) => Err(error),
            Ok((key, after_key)) => match expected(ts, after_key, TokenKind::Colon) {
                Err(error) => Err(error),
                Ok((_, after_colon)) => if !(p < after_colon && after_colon < ts.len()) {
                    Err(arbitrary())
                } else {
                    match read_raw_value(ts, after_colon, params, depth) {
                        Err(error) => Err(error),
                        Ok((value, after)) => {
                            let at = pair_index(before, key.text(), 0);
                            let next = if ts[after].kind == TokenKind::Comma {
                                after + 1
                            } else {
                                after
                            };
                            if at < before.len() {
                                Err(
                                    duplicate_key(
                                        "raw"@,
                                        MapSide::Key,
                                        key.text(),
                                        before[at].0.span(),
                                        key.span(),
                                    ),
                                )
                            } else if p < next && next < ts.len() {
                                read_raw_pairs(ts, next, params, depth, before.push((key, value)))
                            } else {
                                Err(arbitrary())
                            }
                        },
                    }
                },
            },
        }
    }
}

/// What the entries of a map are.
pub trait EntrySpec {
    type V;

    /// One entry of a map of type `schema`.
    spec fn entry(
        ts: Seq<TokenV>,
        p: int,
        params: Option<Seq<ParamV>>,
        schema: TypeSchemaV,
    ) -> Parsed<Self::V>;
}

/// The entries of a map, up to the closing brace: between two of them a
/// comma or a line break.
pub open spec fn read_entries<E: EntrySpec>(
    ts: Seq<TokenV>,
    p: int,
    params: Option<Seq<ParamV>>,
    schema: TypeSchemaV,
    before: Seq<E::V>,
) -> Parsed<Seq<E::V>>
    decreases ts.len() - p,
{
    if ts[p].kind == TokenKind::RBrace {
        Ok((before, p))
    } else {
        match E::entry(ts, p, params, schema) {
            Err(error) => Err(error),
            Ok((entry, after)) => {
                let next = if ts[after].kind == TokenKind::Comma {
                    after + 1
                } else {
                    after
                };
                if ts[after].kind != TokenKind::Comma && ts[after].kind != TokenKind::RBrace
                    && ts[after].span.line == ts[after - 1].span.line {
                    Err(described(ts, after, "a comma or a newline before the next entry"@))
                } else if p < next && next < ts.len() {
                    read_entries::<E>(ts, next, params, schema, before.push(entry))
                } else {
                    Err(arbitrary())
                }
            },
        }
    }
}

/// A map in braces.
pub open spec fn read_map_body<E: EntrySpec>(
    ts: Seq<TokenV>,
    p: int,
    params: Option<Seq<ParamV>>,
    schema: TypeSchemaV,
) -> Parsed<Seq<E::V>> {
    match expected(ts, p, TokenKind::LBrace) {
        Err(error) => Err(error),
        Ok((_, first)) => match read_entries::<E>(ts, first, params, schema, Seq::empty()) {
            Err(error) => Err(error),
            Ok((entries, last)) => match expected(ts, last, TokenKind::RBrace) {
                Err(error) => Err(error),
                Ok((_, end)) => Ok((entries, end)),
            },
        },
    }
}

/// A map in braces, or a single entry without.
pub open spec fn read_map<E: EntrySpec>(
    ts: Seq<TokenV>,
    p: int,
    params: Option<Seq<ParamV>>,
    schema: TypeSchemaV,
) -> Parsed<Seq<E::V>> {
    if ts[p].kind == TokenKind::LBrace {
        read_map_body::<E>(ts, p, params, schema)
    } else if starts_value(ts[p].kind) {
        match E::entry(ts, p, params, schema) {
            Ok((entry, end)) => Ok((seq![entry], end)),
            Err(error) => Err(error),
        }
    } else {
        Err(described(ts, p, "a value or `{`"@))
    }
}

/// Entries of no fixed shape.
pub struct RawEntries;

impl EntrySpec for RawEntries {
    type V = RawEntryV;

    open spec fn entry(
        ts: Seq<TokenV>,
        p: int,
        params: Option<Seq<ParamV>>,
        schema: TypeSchemaV,
    ) -> Parsed<RawEntryV> {
        read_raw_entry(ts, p, params)
    }
}

/// A key, a colon, and a value of no fixed shape.
pub open spec fn read_raw_entry(ts: Seq<TokenV>, p: int, params: Option<Seq<ParamV>>) -> Parsed<
    RawEntryV,
> {
    match read_key(ts, p) {
        Err(error) => Err(error),
        Ok((key, after_key)) => match expected(ts, after_key, TokenKind::Colon) {
            Err(error) => Err(error),
            Ok((_, after_colon)) => match read_raw_value(ts, after_colon, params, 0) {
                Err(error) => Err(error),
                Ok((value, end)) => Ok(
                    (RawEntryV { key, value, span: joined(key.span(), value.span()) }, end),
                ),
            },
        },
    }
}

/// What stands between the two sides of an entry of this type, besides a
/// colon.
pub open spec fn separator_of(schema: TypeSchemaV) -> TokenKind {
    match schema.map_separator {
        Some(kind) => kind,
        None => TokenKind::Colon,
    }
}

/// Which side of the entries of this type is unique.
pub open spec fn side_of(schema: TypeSchemaV) -> MapSide {
    match schema.uniqueness {
        Some(side) => side,
        None => MapSide::Key,
    }
}

/// The position behind the separator of an entry.
pub open spec fn past_separator(
    ts: Seq<TokenV>,
    p: int,
    schema: TypeSchemaV,
    key_span: Span,
) -> Result<int, ParseErrorV> {
    if ts[p].kind == TokenKind::Colon || ts[p].kind == separator_of(schema) {
        Ok(bumped(ts, p))
    } else {
        Err(
            ParseErrorV::MapEntryMissingSeparator {
                on_type: schema.name,
                separator: separator_of(schema),
                span: key_span,
            },
        )
    }
}

/// Entries of two single values.
pub struct LiteralEntries;

impl EntrySpec for LiteralEntries {
    type V = EnvEntryV;

    open spec fn entry(
        ts: Seq<TokenV>,
        p: int,
        params: Option<Seq<ParamV>>,
        schema: TypeSchemaV,
    ) -> Parsed<EnvEntryV> {
        match read_literal(ts, p, params) {
            Err(error) => Err(error),
            Ok((key, after_key)) => match past_separator(ts, after_key, schema, key.span()) {
                Err(error) => Err(error),
                Ok(after) => match read_literal(ts, after, params) {
                    Err(error) => Err(error),
                    Ok((value, end)) => Ok(
                        (EnvEntryV { key, value, span: joined(key.span(), value.span()) }, end),
                    ),
                },
            },
        }
    }
}

/// What a label holds: a single value, or a bracketed list.
pub open spec fn read_label_value(ts: Seq<TokenV>, p: int, params: Option<Seq<ParamV>>) -> Parsed<
    LabelValueV,
> {
    if ts[p].kind == TokenKind::LBracket {
        match read_bracketed::<Literals>(ts, p, params) {
            Ok(((items, span), end)) => Ok((LabelValueV::List(items, span), end)),
            Err(error) => Err(error),
        }
    } else {
        match read_literal(ts, p, params) {
            Ok((lit, end)) => Ok((LabelValueV::Scalar(lit), end)),
            Err(error) => Err(error),
        }
    }
}

/// Entries of a single value and what a label holds.
pub struct LabelEntries;

impl EntrySpec for LabelEntries {
    type V = LabelEntryV;

    open spec fn entry(
        ts: Seq<TokenV>,
        p: int,
        params: Option<Seq<ParamV>>,
        schema: TypeSchemaV,
    ) -> Parsed<LabelEntryV> {
        match read_literal(ts, p, params) {
            Err(error) => Err(error),
            Ok((key, after_key)) => match past_separator(ts, after_key, schema, key.span()) {
                Err(error) => Err(error),
                Ok(after) => match read_label_value(ts, after, params) {
                    Err(error) => Err(error),
                    Ok((value, end)) => Ok(
                        (LabelEntryV { key, value, span: joined(key.span(), value.span()) }, end),
                    ),
                },
            },
        }
    }
}

/// The host side of a mount: a bare name is a volume, anything else a
/// path.
pub open spec fn read_host(ts: Seq<TokenV>, p: int, params: Option<Seq<ParamV>>) -> Parsed<
    ArrowMapHostV,
> {
    if ts[p].kind == TokenKind::Ident {
        match read_reference(ts, p, params) {
            Ok((lit, end)) => Ok((ArrowMapHostV::Named(lit), end)),
            Err(error) => Err(error),
        }
    } else {
        match read_literal(ts, p, params) {
            Ok((lit, end)) => Ok((ArrowMapHostV::BindMount(lit), end)),
            Err(error) => Err(error),
        }
    }
}

/// What stands in the braces behind a mount: `read_only`. The closing
/// brace's place comes with it.
pub open spec fn read_mount_options(ts: Seq<TokenV>, p: int, schema: TypeSchemaV) -> Parsed<Span> {
    match expected(ts, p, TokenKind::Ident) {
        Err(error) => Err(error),
        Ok((key, after_key)) => if key.lexeme != "read_only"@ {
            Err(
                ParseErrorV::UnknownField {
                    on_type: schema.name,
                    field: key.lexeme,
                    raw_escape_hatch: false,
                    span: key.span,
                },
            )
        } else {
            match expected(ts, after_key, TokenKind::RBrace) {
                Err(error) => Err(error),
                Ok((close, end)) => Ok((close.span, end)),
            }
        },
    }
}

/// Entries that mount something.
pub struct MountEntries;

impl EntrySpec for MountEntries {
    type V = ArrowMapEntryV;

    open spec fn entry(
        ts: Seq<TokenV>,
        p: int,
        params: Option<Seq<ParamV>>,
        schema: TypeSchemaV,
    ) -> Parsed<ArrowMapEntryV> {
        match read_host(ts, p, params) {
            Err(error) => Err(error),
            Ok((host, after_host)) => {
                let start = host.literal().span();
                match past_separator(ts, after_host, schema, start) {
                    Err(error) => Err(error),
                    Ok(after) => match read_literal(ts, after, params) {
                        Err(error) => Err(error),
                        Ok((container, next)) => if ts[next].kind == TokenKind::LBrace {
                            match read_mount_options(ts, next + 1, schema) {
                                Err(error) => Err(error),
                                Ok((close, end)) => Ok(
                                    (
                                        ArrowMapEntryV {
                                            host,
                                            container,
                                            read_only: true,
                                            span: joined(start, close),
                                        },
                                        end,
                                    ),
                                ),
                            }
                        } else {
                            Ok(
                                (
                                    ArrowMapEntryV {
                                        host,
                                        container,
                                        read_only: false,
                                        span: joined(start, container.span()),
                                    },
                                    next,
                                ),
                            )
                        },
                    },
                }
            },
        }
    }
}

/// The arguments of an invocation, if it has any, and where it ends.
pub open spec fn read_arguments(
    ts: Seq<TokenV>,
    p: int,
    params: Option<Seq<ParamV>>,
    name: Span,
) -> Parsed<(RawMapV, Span)> {
    if ts[p].kind == TokenKind::LBrace {
        match read_map_body::<RawEntries>(ts, p, params, schema_of(BuiltIn::Raw)) {
            Ok((entries, end)) => Ok(((RawMapV { entries }, ts[end - 1].span), end)),
            Err(error) => Err(error),
        }
    } else {
        Ok(((RawMapV { entries: Seq::empty() }, name), p))
    }
}

/// The name of the template an invocation names, with its alias if it has
/// one.
pub open spec fn read_template_name(ts: Seq<TokenV>, p: int) -> Parsed<(Option<IdentV>, IdentV)> {
    match expected(ts, p, TokenKind::Ident) {
        Err(error) => Err(error),
        Ok((first, next)) => {
            let first_ident = IdentV { name: first.lexeme, span: first.span };
            if ts[next].kind == TokenKind::Dot {
                match expected(ts, next + 1, TokenKind::Ident) {
                    Err(error) => Err(error),
                    Ok((second, end)) => Ok(
                        (
                            (
                                Some(first_ident),
                                IdentV { name: second.lexeme, span: second.span },
                            ),
                            end,
                        ),
                    ),
                }
            } else {
                Ok(((None, first_ident), next))
            }
        },
    }
}

/// One item of a `with` list.
pub open spec fn read_invocation(ts: Seq<TokenV>, p: int, params: Option<Seq<ParamV>>) -> Parsed<
    TemplateInvocationV,
> {
    match read_template_name(ts, p) {
        Err(error) => Err(error),
        Ok(((qualifier, name), next)) => {
            let start = match qualifier {
                Some(q) => q.span,
                None => name.span,
            };
            match read_arguments(ts, next, params, name.span) {
                Err(error) => Err(error),
                Ok(((args, last), end)) => Ok(
                    (TemplateInvocationV { qualifier, name, args, span: joined(start, last) }, end),
                ),
            }
        },
    }
}

/// Lists of template invocations.
pub struct Invocations;

impl ItemSpec for Invocations {
    type V = TemplateInvocationV;

    open spec fn item(ts: Seq<TokenV>, p: int, params: Option<Seq<ParamV>>) -> Parsed<
        TemplateInvocationV,
    > {
        read_invocation(ts, p, params)
    }

    open spec fn opens(kind: TokenKind) -> bool {
        kind == TokenKind::Ident
    }

    open spec fn yields_to_fields() -> bool {
        false
    }

    open spec fn wanted() -> Seq<char> {
        "a template invocation or a list of template invocations"@
    }
}

/// What a body sets a field to.
#[verifier::ext_equal]
pub enum FieldValueV {
    Scalar(LiteralV),
    Flag(Span),
    Struct(Seq<(Seq<char>, FieldValueV)>, Span),
    LiteralMap(Seq<EnvEntryV>),
    LabelMap(Seq<LabelEntryV>),
    MountMap(Seq<ArrowMapEntryV>),
    Raw(Seq<RawEntryV>),
    References(Seq<LiteralV>),
    Invocations(Seq<TemplateInvocationV>),
    ScalarOrList(ShellOrExecV),
    Dependencies(Seq<DependsOnEntryV>),
}

/// What a body sets, field by field.
pub type FieldsV = Seq<(Seq<char>, FieldValueV)>;

/// The index of the field called `name` at or after `i`, or the number of
/// fields.
pub open spec fn set_index(fields: FieldsV, name: Seq<char>, i: int) -> int
    decreases fields.len() - i,
{
    if i >= fields.len() {
        fields.len() as int
    } else if fields[i].0 == name {
        i
    } else {
        set_index(fields, name, i + 1)
    }
}

/// What a field is set to, if it is.
pub open spec fn set_value(fields: FieldsV, name: Seq<char>) -> Option<FieldValueV> {
    let at = set_index(fields, name, 0);
    if at < fields.len() {
        Some(fields[at].1)
    } else {
        None
    }
}

/// The fields with one of them set to a value.
pub open spec fn with_value(fields: FieldsV, name: Seq<char>, value: FieldValueV) -> FieldsV {
    let at = set_index(fields, name, 0);
    if at < fields.len() {
        fields.update(at, (name, value))
    } else {
        fields.push((name, value))
    }
}

/// Where a value stands that a field can be set to only once; the others
/// accumulate.
pub open spec fn single_place(value: FieldValueV) -> Option<Span> {
    match value {
        FieldValueV::Scalar(lit) => Some(lit.span()),
        FieldValueV::Flag(span) => Some(span),
        FieldValueV::Struct(_, span) => Some(span),
        FieldValueV::ScalarOrList(value) => Some(value.span()),
        _ => None,
    }
}

/// The fields with one that can be set only once set to a value.
pub open spec fn with_single(
    schema: TypeSchemaV,
    fields: FieldsV,
    name: Seq<char>,
    value: FieldValueV,
) -> Result<FieldsV, ParseErrorV> {
    match set_value(fields, name) {
        None => Ok(fields.push((name, value))),
        Some(existing) => match (single_place(existing), single_place(value)) {
            (Some(first), Some(second)) => Err(
                ParseErrorV::DuplicateField { on_type: schema.name, field: name, first, second },
            ),
            _ => Ok(fields),
        },
    }
}

/// The text that tells one entry from another.
pub open spec fn entry_text(entry: EnvEntryV, side: MapSide) -> Seq<char> {
    match side {
        MapSide::Key => entry.key.text(),
        MapSide::Value => entry.value.text(),
    }
}

/// The text that tells one mount from another.
pub open spec fn mount_text(entry: ArrowMapEntryV, side: MapSide) -> Seq<char> {
    match side {
        MapSide::Key => entry.host.literal().text(),
        MapSide::Value => entry.container.text(),
    }
}

/// The index of the first entry with this text at or after `i`, or the
/// number of entries.
pub open spec fn entry_index(
    entries: Seq<EnvEntryV>,
    side: MapSide,
    text: Seq<char>,
    i: int,
) -> int
    decreases entries.len() - i,
{
    if i >= entries.len() {
        entries.len() as int
    } else if entry_text(entries[i], side) == text {
        i
    } else {
        entry_index(entries, side, text, i + 1)
    }
}

/// The index of the first label under this key at or after `i`, or the
/// number of labels.
pub open spec fn label_index(entries: Seq<LabelEntryV>, key: Seq<char>, i: int) -> int
    decreases entries.len() - i,
{
    if i >= entries.len() {
        entries.len() as int
    } else if entries[i].key.text() == key {
        i
    } else {
        label_index(entries, key, i + 1)
    }
}

/// The index of the first mount with this text at or after `i`, or the
/// number of mounts.
pub open spec fn mount_index(
    entries: Seq<ArrowMapEntryV>,
    side: MapSide,
    text: Seq<char>,
    i: int,
) -> int
    decreases entries.len() - i,
{
    if i >= entries.len() {
        entries.len() as int
    } else if mount_text(entries[i], side) == text {
        i
    } else {
        mount_index(entries, side, text, i + 1)
    }
}

/// The index of the first raw entry under this key at or after `i`, or
/// the number of entries.
pub open spec fn raw_index(entries: Seq<RawEntryV>, key: Seq<char>, i: int) -> int
    decreases entries.len() - i,
{
    if i >= entries.len() {
        entries.len() as int
    } else if entries[i].key.text() == key {
        i
    } else {
        raw_index(entries, key, i + 1)
    }
}

/// A map with more entries from index `i` on, none of which may be there
/// already.
pub open spec fn with_entries(
    held: Seq<EnvEntryV>,
    more: Seq<EnvEntryV>,
    i: int,
    schema: TypeSchemaV,
) -> Result<Seq<EnvEntryV>, ParseErrorV>
    decreases more.len() - i,
{
    if i >= more.len() {
        Ok(held)
    } else {
        let side = side_of(schema);
        let text = entry_text(more[i], side);
        let at = entry_index(held, side, text, 0);
        if at < held.len() {
            Err(duplicate_key(schema.name, side, text, held[at].span, more[i].span))
        } else {
            with_entries(held.push(more[i]), more, i + 1, schema)
        }
    }
}

/// Labels with more of them from index `i` on, none of which may be there
/// already.
pub open spec fn with_labels(
    held: Seq<LabelEntryV>,
    more: Seq<LabelEntryV>,
    i: int,
    schema: TypeSchemaV,
) -> Result<Seq<LabelEntryV>, ParseErrorV>
    decreases more.len() - i,
{
    if i >= more.len() {
        Ok(held)
    } else {
        let key = more[i].key.text();
        let at = label_index(held, key, 0);
        if at < held.len() {
            Err(duplicate_key(schema.name, MapSide::Key, key, held[at].span, more[i].span))
        } else {
            with_labels(held.push(more[i]), more, i + 1, schema)
        }
    }
}

/// Mounts with more of them from index `i` on, none of which may be there
/// already.
pub open spec fn with_mounts(
    held: Seq<ArrowMapEntryV>,
    more: Seq<ArrowMapEntryV>,
    i: int,
    schema: TypeSchemaV,
) -> Result<Seq<ArrowMapEntryV>, ParseErrorV>
    decreases more.len() - i,
{
    if i >= more.len() {
        Ok(held)
    } else {
        let side = side_of(schema);
        let text = mount_text(more[i], side);
        let at = mount_index(held, side, text, 0);
        if at < held.len() {
            Err(duplicate_key(schema.name, side, text, held[at].span, more[i].span))
        } else {
            with_mounts(held.push(more[i]), more, i + 1, schema)
        }
    }
}

/// Raw entries with more of them from index `i` on, none of which may be
/// there already.
pub open spec fn with_raw_entries(
    held: Seq<RawEntryV>,
    more: Seq<RawEntryV>,
    i: int,
) -> Result<Seq<RawEntryV>, ParseErrorV>
    decreases more.len() - i,
{
    if i >= more.len() {
        Ok(held)
    } else {
        let key = more[i].key.text();
        let at = raw_index(held, key, 0);
        if at < held.len() {
            Err(duplicate_key("raw"@, MapSide::Key, key, held[at].span, more[i].span))
        } else {
            with_raw_entries(held.push(more[i]), more, i + 1)
        }
    }
}

/// The references a field is set to so far.
pub open spec fn held_references(fields: FieldsV, name: Seq<char>) -> Seq<LiteralV> {
    match set_value(fields, name) {
        Some(FieldValueV::References(refs)) => refs,
        _ => Seq::empty(),
    }
}

/// The invocations a field is set to so far.
pub open spec fn held_invocations(fields: FieldsV, name: Seq<char>) -> Seq<TemplateInvocationV> {
    match set_value(fields, name) {
        Some(FieldValueV::Invocations(invocations)) => invocations,
        _ => Seq::empty(),
    }
}

/// The dependencies a field is set to so far.
pub open spec fn held_dependencies(fields: FieldsV, name: Seq<char>) -> Seq<DependsOnEntryV> {
    match set_value(fields, name) {
        Some(FieldValueV::Dependencies(entries)) => entries,
        _ => Seq::empty(),
    }
}

/// The map entries a field is set to so far.
pub open spec fn held_entries(fields: FieldsV, name: Seq<char>) -> Seq<EnvEntryV> {
    match set_value(fields, name) {
        Some(FieldValueV::LiteralMap(entries)) => entries,
        _ => Seq::empty(),
    }
}

/// The labels a field is set to so far.
pub open spec fn held_labels(fields: FieldsV, name: Seq<char>) -> Seq<LabelEntryV> {
    match set_value(fields, name) {
        Some(FieldValueV::LabelMap(entries)) => entries,
        _ => Seq::empty(),
    }
}

/// The mounts a field is set to so far.
pub open spec fn held_mounts(fields: FieldsV, name: Seq<char>) -> Seq<ArrowMapEntryV> {
    match set_value(fields, name) {
        Some(FieldValueV::MountMap(entries)) => entries,
        _ => Seq::empty(),
    }
}

/// The raw entries a field is set to so far.
pub open spec fn held_raw(fields: FieldsV, name: Seq<char>) -> Seq<RawEntryV> {
    match set_value(fields, name) {
        Some(FieldValueV::Raw(entries)) => entries,
        _ => Seq::empty(),
    }
}

/// The value of a single-value field.
pub open spec fn read_field_value(ts: Seq<TokenV>, p: int, params: Option<Seq<ParamV>>) -> Parsed<
    LiteralV,
> {
    if ts[p].kind == TokenKind::Colon {
        read_literal(ts, p + 1, params)
    } else if starts_value(ts[p].kind) {
        read_literal(ts, p, params)
    } else {
        Err(described(ts, p, "a value"@))
    }
}

/// A map field behind its name: its entries join those set before.
pub open spec fn read_map_field(
    ts: Seq<TokenV>,
    p: int,
    params: Option<Seq<ParamV>>,
    name: Seq<char>,
    nested: TypeSchemaV,
    fields: FieldsV,
) -> Parsed<FieldsV> {
    if nested.schema_free {
        match read_map::<RawEntries>(ts, p, params, nested) {
            Err(error) => Err(error),
            Ok((entries, end)) => match with_raw_entries(held_raw(fields, name), entries, 0) {
                Err(error) => Err(error),
                Ok(all) => Ok((with_value(fields, name, FieldValueV::Raw(all)), end)),
            },
        }
    } else if nested.key_may_be_reference {
        match read_map::<MountEntries>(ts, p, params, nested) {
            Err(error) => Err(error),
            Ok((entries, end)) => match with_mounts(
                held_mounts(fields, name),
                entries,
                0,
                nested,
            ) {
                Err(error) => Err(error),
                Ok(all) => Ok((with_value(fields, name, FieldValueV::MountMap(all)), end)),
            },
        }
    } else if nested.built_in == BuiltIn::Labels {
        match read_map::<LabelEntries>(ts, p, params, nested) {
            Err(error) => Err(error),
            Ok((entries, end)) => match with_labels(
                held_labels(fields, name),
                entries,
                0,
                nested,
            ) {
                Err(error) => Err(error),
                Ok(all) => Ok((with_value(fields, name, FieldValueV::LabelMap(all)), end)),
            },
        }
    } else {
        match read_map::<LiteralEntries>(ts, p, params, nested) {
            Err(error) => Err(error),
            Ok((entries, end)) => match with_entries(
                held_entries(fields, name),
                entries,
                0,
                nested,
            ) {
                Err(error) => Err(error),
                Ok(all) => Ok((with_value(fields, name, FieldValueV::LiteralMap(all)), end)),
            },
        }
    }
}

/// A list field behind its name, of the kinds whose items join those set
/// before.
pub open spec fn read_list_field(
    ts: Seq<TokenV>,
    p: int,
    params: Option<Seq<ParamV>>,
    name: Seq<char>,
    kind: FieldKind,
    fields: FieldsV,
) -> Parsed<FieldsV> {
    match kind {
        FieldKind::TemplateInvocationList => match read_list::<Invocations>(ts, p, params) {
            Err(error) => Err(error),
            Ok((more, end)) => Ok(
                (
                    with_value(
                        fields,
                        name,
                        FieldValueV::Invocations(held_invocations(fields, name) + more),
                    ),
                    end,
                ),
            ),
        },
        FieldKind::DependsOnList => match read_list::<Dependencies>(ts, p, params) {
            Err(error) => Err(error),
            Ok((more, end)) => Ok(
                (
                    with_value(
                        fields,
                        name,
                        FieldValueV::Dependencies(held_dependencies(fields, name) + more),
                    ),
                    end,
                ),
            ),
        },
        _ => match read_list::<References>(ts, p, params) {
            Err(error) => Err(error),
            Ok((more, end)) => Ok(
                (
                    with_value(
                        fields,
                        name,
                        FieldValueV::References(held_references(fields, name) + more),
                    ),
                    end,
                ),
            ),
        },
    }
}

/// Fields with a single value put among them, at a position.
pub open spec fn single_at(
    schema: TypeSchemaV,
    fields: FieldsV,
    name: Seq<char>,
    value: FieldValueV,
    end: int,
) -> Parsed<FieldsV> {
    match with_single(schema, fields, name, value) {
        Ok(all) => Ok((all, end)),
        Err(error) => Err(error),
    }
}

/// One field of a body, its name first.
pub open spec fn read_statement(
    ts: Seq<TokenV>,
    p: int,
    params: Option<Seq<ParamV>>,
    schema: TypeSchemaV,
    fields: FieldsV,
) -> Parsed<FieldsV>
    decreases ts.len() - p, 0int,
{
    match read_key(ts, p) {
        Err(error) => Err(error),
        Ok((key, next)) => match resolution(schema, key.text()) {
            FieldResolutionV::Moved(guidance) => Err(
                ParseErrorV::MovedField {
                    on_type: schema.name,
                    field: key.text(),
                    guidance,
                    span: key.span(),
                },
            ),
            FieldResolutionV::Field(field) => match field.kind {
                FieldKind::Scalar => match read_field_value(ts, next, params) {
                    Err(error) => Err(error),
                    Ok((lit, end)) => single_at(
                        schema,
                        fields,
                        field.name,
                        FieldValueV::Scalar(lit),
                        end,
                    ),
                },
                FieldKind::BoolFlag => if ts[next].kind == TokenKind::Colon {
                    Err(described(ts, next, "no value — this flag is set by bare presence only"@))
                } else {
                    single_at(schema, fields, field.name, FieldValueV::Flag(key.span()), next)
                },
                FieldKind::ScalarOrList => match read_scalar_or_list(ts, next, params) {
                    Err(error) => Err(error),
                    Ok((value, end)) => single_at(
                        schema,
                        fields,
                        field.name,
                        FieldValueV::ScalarOrList(value),
                        end,
                    ),
                },
                FieldKind::Nested(nested) => if p < next && next < ts.len() {
                    read_nested(ts, next, params, schema, field.name, schema_of(nested), fields)
                } else {
                    Err(arbitrary())
                },
                kind => read_list_field(ts, next, params, field.name, kind, fields),
            },
            _ => Err(
                ParseErrorV::UnknownField {
                    on_type: schema.name,
                    field: key.text(),
                    raw_escape_hatch: has_raw_field(schema),
                    span: key.span(),
                },
            ),
        },
    }
}

/// A field of another built-in type, behind its name.
pub open spec fn read_nested(
    ts: Seq<TokenV>,
    p: int,
    params: Option<Seq<ParamV>>,
    schema: TypeSchemaV,
    name: Seq<char>,
    nested: TypeSchemaV,
    fields: FieldsV,
) -> Parsed<FieldsV>
    decreases ts.len() - p, 3int,
{
    let start = past_colon(ts, p);
    if nested.kind == SchemaKind::Mapping {
        read_map_field(ts, start, params, name, nested, fields)
    } else if !(start < ts.len()) {
        Err(arbitrary())
    } else {
        let body = if ts[start].kind == TokenKind::LBrace {
            read_struct_body(ts, start, params, nested)
        } else if nested.primary_field is Some && starts_value(ts[start].kind) {
            read_shorthand(ts, start, params, nested)
        } else if nested.primary_field is None {
            Err(unexpected(ts, start, ExpectedV::Token(TokenKind::LBrace)))
        } else {
            Err(described(ts, start, "a value or `{`"@))
        };
        match body {
            Err(error) => Err(error),
            Ok(((inner, span), end)) => if starts_value(ts[start].kind) && nested.built_in
                == BuiltIn::Expose && ts[end].kind == TokenKind::Ident && ts[end].lexeme == "as"@ {
                Err(ParseErrorV::RemovedExposeAsSugar { span: ts[end].span })
            } else {
                single_at(schema, fields, name, FieldValueV::Struct(inner, span), end)
            },
        }
    }
}

/// A bare value that stands for a type's primary field, with further
/// fields behind commas, and where it stands.
pub open spec fn read_shorthand(
    ts: Seq<TokenV>,
    p: int,
    params: Option<Seq<ParamV>>,
    nested: TypeSchemaV,
) -> Parsed<(FieldsV, Span)>
    decreases ts.len() - p, 2int,
{
    let primary = nested.primary_field->Some_0;
    let first = match field_from(nested.fields, primary, 0) {
        Some(field) if field.kind == FieldKind::TemplateInvocationList => read_invocation_shorthand(
            ts,
            p,
            params,
            primary,
        ),
        _ => read_literal_shorthand(ts, p, params, primary),
    };
    match first {
        Err(error) => Err(error),
        Ok(((fields, start), next)) => if !(p < next && next < ts.len()) {
            Err(arbitrary())
        } else {
            match read_secondary(ts, next, params, nested, fields) {
                Err(error) => Err(error),
                Ok((all, end)) => Ok(((all, joined(start, ts[end - 1].span)), end)),
            }
        },
    }
}

/// The invocations that a bare `with` stands for, and where they start.
pub open spec fn read_invocation_shorthand(
    ts: Seq<TokenV>,
    p: int,
    params: Option<Seq<ParamV>>,
    primary: Seq<char>,
) -> Parsed<(FieldsV, Span)> {
    let items = if ts[p].kind == TokenKind::LBracket {
        match read_bracketed::<Invocations>(ts, p, params) {
            Ok(((list, _), end)) => Ok((list, end)),
            Err(error) => Err(error),
        }
    } else {
        read_bare::<Invocations>(ts, p, params, Seq::empty())
    };
    match items {
        Err(error) => Err(error),
        Ok((list, end)) => Ok(
            ((seq![(primary, FieldValueV::Invocations(list))], ts[p].span), end),
        ),
    }
}

/// The single value that a bare value stands for, and where it starts.
pub open spec fn read_literal_shorthand(
    ts: Seq<TokenV>,
    p: int,
    params: Option<Seq<ParamV>>,
    primary: Seq<char>,
) -> Parsed<(FieldsV, Span)> {
    match read_literal(ts, p, params) {
        Err(error) => Err(error),
        Ok((lit, end)) => Ok(((seq![(primary, FieldValueV::Scalar(lit))], lit.span()), end)),
    }
}

/// Whether what follows is a comma and then another field of the type.
pub open spec fn continues_with_field(ts: Seq<TokenV>, p: int, nested: TypeSchemaV) -> bool {
    ts[p].kind == TokenKind::Comma && (ts[p + 1].kind == TokenKind::Ident || ts[p + 1].kind
        == TokenKind::Str) && resolution(nested, ts[p + 1].lexeme) is Field
}

/// Further fields behind a shorthand, each behind a comma.
pub open spec fn read_secondary(
    ts: Seq<TokenV>,
    p: int,
    params: Option<Seq<ParamV>>,
    nested: TypeSchemaV,
    fields: FieldsV,
) -> Parsed<FieldsV>
    decreases ts.len() - p, 1int,
{
    if !continues_with_field(ts, p, nested) {
        Ok((fields, p))
    } else if !(p + 1 < ts.len()) {
        Err(arbitrary())
    } else {
        match read_statement(ts, p + 1, params, nested, fields) {
            Err(error) => Err(error),
            Ok((more, next)) => if p < next && next < ts.len() {
                read_secondary(ts, next, params, nested, more)
            } else {
                Err(arbitrary())
            },
        }
    }
}

/// A body in braces, and where it stands.
pub open spec fn read_struct_body(
    ts: Seq<TokenV>,
    p: int,
    params: Option<Seq<ParamV>>,
    schema: TypeSchemaV,
) -> Parsed<(FieldsV, Span)>
    decreases ts.len() - p, 2int,
{
    match expected(ts, p, TokenKind::LBrace) {
        Err(error) => Err(error),
        Ok((open, first)) => if !(p < first && first < ts.len()) {
            Err(arbitrary())
        } else {
            match read_statements(ts, first, params, schema, Seq::empty(), true) {
                Err(error) => Err(error),
                Ok((fields, last)) => match expected(ts, last, TokenKind::RBrace) {
                    Err(error) => Err(error),
                    Ok((close, end)) => Ok(((fields, joined(open.span, close.span)), end)),
                },
            }
        },
    }
}

/// The fields of a body, each on a line of its own, up to the closing
/// brace.
pub open spec fn read_statements(
    ts: Seq<TokenV>,
    p: int,
    params: Option<Seq<ParamV>>,
    schema: TypeSchemaV,
    fields: FieldsV,
    first: bool,
) -> Parsed<FieldsV>
    decreases ts.len() - p, 4int,
{
    if ts[p].kind == TokenKind::RBrace {
        Ok((fields, p))
    } else if !first && ts[p - 1].span.line == ts[p].span.line {
        Err(described(ts, p, "a newline before the next field"@))
    } else {
        match read_statement(ts, p, params, schema, fields) {
            Err(error) => Err(error),
            Ok((more, next)) => if p < next && next < ts.len() {
                read_statements(ts, next, params, schema, more, false)
            } else {
                Err(arbitrary())
            },
        }
    }
}

/// The single value a field is set to, if it is.
pub open spec fn scalar_of(fields: FieldsV, name: Seq<char>) -> Option<LiteralV> {
    match set_value(fields, name) {
        Some(FieldValueV::Scalar(lit)) => Some(lit),
        _ => None,
    }
}

/// Where a flag is set, if it is.
pub open spec fn flag_of(fields: FieldsV, name: Seq<char>) -> Option<Span> {
    match set_value(fields, name) {
        Some(FieldValueV::Flag(span)) => Some(span),
        _ => None,
    }
}

/// The command a field is set to, if it is.
pub open spec fn command_of(fields: FieldsV, name: Seq<char>) -> Option<ShellOrExecV> {
    match set_value(fields, name) {
        Some(FieldValueV::ScalarOrList(value)) => Some(value),
        _ => None,
    }
}

/// The inner fields of a field, and where they stand, if it is set.
pub open spec fn struct_of(fields: FieldsV, name: Seq<char>) -> Option<(FieldsV, Span)> {
    match set_value(fields, name) {
        Some(FieldValueV::Struct(inner, span)) => Some((inner, span)),
        _ => None,
    }
}

/// Entries of two values as what leads from a host to a container.
pub open spec fn as_mounts(entries: Seq<EnvEntryV>) -> Seq<ArrowMapEntryV> {
    entries.map_values(
        |entry: EnvEntryV|
            ArrowMapEntryV {
                host: ArrowMapHostV::BindMount(entry.key),
                container: entry.value,
                read_only: false,
                span: entry.span,
            },
    )
}

/// Entries of two values as options of a volume driver.
pub open spec fn as_driver_opts(entries: Seq<EnvEntryV>) -> Seq<VolumeDriverOptV> {
    entries.map_values(
        |entry: EnvEntryV|
            VolumeDriverOptV { key: entry.key, value: entry.value, span: entry.span },
    )
}

/// A `network` with these fields.
pub open spec fn lowered_network(name: IdentV, fields: FieldsV, span: Span) -> NetworkV {
    NetworkV {
        name,
        external: flag_of(fields, "external"@),
        real_name: scalar_of(fields, "name"@),
        span,
    }
}

/// A `volume` with these fields.
pub open spec fn lowered_volume(name: IdentV, fields: FieldsV, span: Span) -> VolumeV {
    VolumeV {
        name,
        external: flag_of(fields, "external"@),
        real_name: scalar_of(fields, "name"@),
        driver: scalar_of(fields, "driver"@),
        driver_opts: as_driver_opts(held_entries(fields, "driver_opts"@)),
        span,
    }
}

/// An `image` with these fields.
pub open spec fn lowered_image(fields: FieldsV, span: Span) -> ImageV {
    ImageV { reference: scalar_of(fields, "ref"@), span }
}

/// A `build` with these fields.
pub open spec fn lowered_build(fields: FieldsV, span: Span) -> BuildV {
    BuildV {
        context: scalar_of(fields, "context"@),
        dockerfile: scalar_of(fields, "dockerfile"@),
        span,
    }
}

/// An `expose` with these fields.
pub open spec fn lowered_expose(fields: FieldsV, span: Span) -> ExposeV {
    ExposeV { port: scalar_of(fields, "port"@), span }
}

/// A `restart` with these fields.
pub open spec fn lowered_restart(fields: FieldsV, span: Span) -> RestartV {
    RestartV { policy: scalar_of(fields, "policy"@), span }
}

/// A `healthcheck` with these fields.
pub open spec fn lowered_healthcheck(fields: FieldsV, span: Span) -> HealthcheckV {
    HealthcheckV {
        test: command_of(fields, "test"@),
        interval: scalar_of(fields, "interval"@),
        timeout: scalar_of(fields, "timeout"@),
        retries: scalar_of(fields, "retries"@),
        start_period: scalar_of(fields, "start_period"@),
        start_interval: scalar_of(fields, "start_interval"@),
        disable: flag_of(fields, "disable"@),
        span,
    }
}

/// The invocations a `with` holds.
pub open spec fn lowered_with(fields: FieldsV) -> Seq<TemplateInvocationV> {
    match struct_of(fields, "with"@) {
        Some((inner, _)) => held_invocations(inner, "templates"@),
        None => Seq::empty(),
    }
}

/// The fields of a service or a template.
pub open spec fn lowered_service_fields(fields: FieldsV) -> ServiceFieldsV {
    ServiceFieldsV {
        image: match struct_of(fields, "image"@) {
            Some((inner, span)) => Some(lowered_image(inner, span)),
            None => None,
        },
        build: match struct_of(fields, "build"@) {
            Some((inner, span)) => Some(lowered_build(inner, span)),
            None => None,
        },
        expose: match struct_of(fields, "expose"@) {
            Some((inner, span)) => Some(lowered_expose(inner, span)),
            None => None,
        },
        restart: match struct_of(fields, "restart"@) {
            Some((inner, span)) => Some(lowered_restart(inner, span)),
            None => None,
        },
        healthcheck: match struct_of(fields, "healthcheck"@) {
            Some((inner, span)) => Some(lowered_healthcheck(inner, span)),
            None => None,
        },
        publish: ArrowMapV { entries: as_mounts(held_entries(fields, "publish"@)) },
        volumes: ArrowMapV { entries: held_mounts(fields, "volume"@) },
        env: EnvMapV { entries: held_entries(fields, "env"@) },
        labels: LabelMapV { entries: held_labels(fields, "labels"@) },
        raw: RawMapV { entries: held_raw(fields, "raw"@) },
        depends_on: held_dependencies(fields, "depends_on"@),
        networks: held_references(fields, "networks"@),
        dns: held_references(fields, "dns"@),
        env_file: held_references(fields, "env_file"@),
        privileged: flag_of(fields, "privileged"@),
        devices: ArrowMapV { entries: as_mounts(held_entries(fields, "devices"@)) },
        container_name: scalar_of(fields, "container_name"@),
        command: command_of(fields, "command"@),
        entrypoint: command_of(fields, "entrypoint"@),
        with: lowered_with(fields),
    }
}

/// The index of the first parameter called `name` at or after `i`, or the
/// number of parameters.
pub open spec fn param_index(params: Seq<ParamV>, name: Seq<char>, i: int) -> int
    decreases params.len() - i,
{
    if i >= params.len() {
        params.len() as int
    } else if params[i].name.name == name {
        i
    } else {
        param_index(params, name, i + 1)
    }
}

/// The parameters of a template, up to the last one; no name stands
/// twice.
pub open spec fn read_params(ts: Seq<TokenV>, p: int, before: Seq<ParamV>) -> Parsed<Seq<ParamV>>
    decreases ts.len() - p,
{
    match expected(ts, p, TokenKind::Ident) {
        Err(error) => Err(error),
        Ok((tok, next)) => {
            let at = param_index(before, tok.lexeme, 0);
            let all = before.push(
                ParamV { name: IdentV { name: tok.lexeme, span: tok.span } },
            );
            if at < before.len() {
                Err(
                    ParseErrorV::DuplicateTemplateParam {
                        param: tok.lexeme,
                        first: before[at].name.span,
                        second: tok.span,
                    },
                )
            } else if ts[next].kind != TokenKind::Comma {
                Ok((all, next))
            } else if p <= next && next + 1 < ts.len() {
                read_params(ts, next + 1, all)
            } else {
                Err(arbitrary())
            }
        },
    }
}

/// The parameters of a template in parentheses.
pub open spec fn read_param_list(ts: Seq<TokenV>, p: int) -> Parsed<Seq<ParamV>> {
    match expected(ts, p, TokenKind::LParen) {
        Err(error) => Err(error),
        Ok((_, first)) => {
            let params = if ts[first].kind == TokenKind::RParen {
                Ok((Seq::empty(), first))
            } else {
                read_params(ts, first, Seq::empty())
            };
            match params {
                Err(error) => Err(error),
                Ok((list, last)) => match expected(ts, last, TokenKind::RParen) {
                    Err(error) => Err(error),
                    Ok((_, end)) => Ok((list, end)),
                },
            }
        },
    }
}

/// A `template` declaration.
pub open spec fn read_template(ts: Seq<TokenV>, p: int) -> Parsed<TemplateDeclV> {
    match expected(ts, p, TokenKind::Template) {
        Err(error) => Err(error),
        Ok((keyword, after_keyword)) => match expected(ts, after_keyword, TokenKind::Ident) {
            Err(error) => Err(error),
            Ok((name, after_name)) => {
                let params = if ts[after_name].kind == TokenKind::LParen {
                    read_param_list(ts, after_name)
                } else {
                    Ok((Seq::empty(), after_name))
                };
                match params {
                    Err(error) => Err(error),
                    Ok((list, next)) => if ts[next].kind != TokenKind::LBrace {
                        Err(described(ts, next, "`{`"@))
                    } else {
                        match read_struct_body(
                            ts,
                            next,
                            Some(list),
                            schema_of(BuiltIn::Template),
                        ) {
                            Err(error) => Err(error),
                            Ok(((fields, body), end)) => Ok(
                                (
                                    TemplateDeclV {
                                        name: IdentV { name: name.lexeme, span: name.span },
                                        params: list,
                                        fields: lowered_service_fields(fields),
                                        span: joined(keyword.span, body),
                                    },
                                    end,
                                ),
                            ),
                        }
                    },
                }
            },
        },
    }
}

/// A `use` declaration.
pub open spec fn read_use(ts: Seq<TokenV>, p: int) -> Parsed<UseDeclV> {
    match expected(ts, p, TokenKind::Ident) {
        Err(error) => Err(error),
        Ok((keyword, after_keyword)) => match expected(ts, after_keyword, TokenKind::Str) {
            Err(error) => Err(error),
            Ok((path_tok, after_path)) => match string_literal(path_tok) {
                Err(error) => Err(error),
                Ok(path) => if ts[after_path].kind != TokenKind::Ident || ts[after_path].lexeme
                    != "as"@ {
                    Err(described(ts, after_path, "`as`"@))
                } else {
                    match expected(ts, after_path + 1, TokenKind::Ident) {
                        Err(error) => Err(error),
                        Ok((alias, end)) => Ok(
                            (
                                UseDeclV {
                                    path,
                                    alias: IdentV { name: alias.lexeme, span: alias.span },
                                    span: joined(keyword.span, alias.span),
                                },
                                end,
                            ),
                        ),
                    }
                },
            },
        },
    }
}

/// A declaration of a built-in type with these fields.
pub open spec fn lowered_decl(
    built_in: BuiltIn,
    name: IdentV,
    fields: FieldsV,
    span: Span,
) -> TopDeclV {
    match built_in {
        BuiltIn::Network => TopDeclV::Network(lowered_network(name, fields, span)),
        BuiltIn::VolumeDecl => TopDeclV::Volume(lowered_volume(name, fields, span)),
        _ => TopDeclV::Service(
            ServiceV { name, fields: lowered_service_fields(fields), span },
        ),
    }
}

/// One top-level declaration.
pub open spec fn read_decl(ts: Seq<TokenV>, p: int) -> Parsed<TopDeclV> {
    if ts[p].kind == TokenKind::Template {
        match read_template(ts, p) {
            Ok((decl, end)) => Ok((TopDeclV::Template(decl), end)),
            Err(error) => Err(error),
        }
    } else if ts[p].kind == TokenKind::Ident && ts[p].lexeme == "use"@ {
        match read_use(ts, p) {
            Ok((decl, end)) => Ok((TopDeclV::Use(decl), end)),
            Err(error) => Err(error),
        }
    } else {
        match expected(ts, p, TokenKind::Ident) {
            Err(error) => Err(error),
            Ok((keyword, after_keyword)) => match top_level_built_in(keyword.lexeme) {
                None => Err(
                    ParseErrorV::UnknownTopLevelType {
                        name: keyword.lexeme,
                        span: keyword.span,
                    },
                ),
                Some(built_in) => match expected(ts, after_keyword, TokenKind::Ident) {
                    Err(error) => Err(error),
                    Ok((name, after_name)) => match read_struct_body(
                        ts,
                        after_name,
                        None,
                        schema_of(built_in),
                    ) {
                        Err(error) => Err(error),
                        Ok(((fields, body), end)) => Ok(
                            (
                                lowered_decl(
                                    built_in,
                                    IdentV { name: name.lexeme, span: name.span },
                                    fields,
                                    joined(keyword.span, body),
                                ),
                                end,
                            ),
                        ),
                    },
                },
            },
        }
    }
}

/// The declarations of a file, up to its end.
pub open spec fn read_decls(ts: Seq<TokenV>, p: int, before: Seq<TopDeclV>) -> Result<
    Seq<TopDeclV>,
    ParseErrorV,
>
    decreases ts.len() - p,
{
    if ts[p].kind == TokenKind::Eof {
        Ok(before)
    } else {
        match read_decl(ts, p) {
            Err(error) => Err(error),
            Ok((decl, next)) => if p < next && next < ts.len() {
                read_decls(ts, next, before.push(decl))
            } else {
                Err(arbitrary())
            },
        }
    }
}

/// What a file reads as: what the lexer found wrong with it, or else what
/// its tokens read as.
pub open spec fn read_program(lexed: Result<Seq<TokenV>, Seq<LexErrorV>>) -> Result<
    ProgramV,
    ParseErrorV,
> {
    match lexed {
        Err(errors) => Err(ParseErrorV::Lex(errors)),
        Ok(ts) => match read_decls(ts, 0, Seq::empty()) {
            Ok(decls) => Ok(ProgramV { decls }),
            Err(error) => Err(error),
        },
    }
}

} // verus!
