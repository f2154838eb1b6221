//! What can go wrong while a file is parsed.

use vstd::prelude::*;
use vstd::string::*;

use crate::compose_error::{side_name, side_text};
use crate::matchers::{known_names, known_names_text};
use crate::schema::MapSide;
use crate::source::{kind_text, location, LexError, LexErrorV, Span, TokenKind};
use crate::text::{debug_quoted, debug_text, decimal, decimal_text, join_texts, texts_joined};

verus! {

/// What would have been in place of an unexpected token.
#[derive(Debug, Clone, PartialEq)]
pub enum Expected {
    Token(TokenKind),
    OneOf(Vec<TokenKind>),
    Description(&'static str),
}

/// The view of [`Expected`].
#[verifier::ext_equal]
pub enum ExpectedV {
    Token(TokenKind),
    OneOf(Seq<TokenKind>),
    Description(Seq<char>),
}

impl DeepView for Expected {
    type V = ExpectedV;

    open spec fn deep_view(&self) -> ExpectedV {
        match self {
            Expected::Token(kind) => ExpectedV::Token(*kind),
            Expected::OneOf(kinds) => ExpectedV::OneOf(kinds@),
            Expected::Description(text) => ExpectedV::Description(text@),
        }
    }
}

impl ExpectedV {
    /// How a diagnostic names what was expected.
    pub open spec fn text(self) -> Seq<char> {
        match self {
            ExpectedV::Token(kind) => kind_text(kind),
            ExpectedV::OneOf(kinds) => "one of "@ + texts_joined(
                kinds.map_values(|kind: TokenKind| kind_text(kind)),
                ", "@,
            ),
            ExpectedV::Description(text) => text,
        }
    }
}

impl Expected {
    /// How a diagnostic names what was expected.
    pub fn message(&self) -> (r: String)
        ensures
            r@ == self.deep_view().text(),
    {
        match self {
            Expected::Token(kind) => kind.text().to_owned(),
            Expected::OneOf(kinds) => {
                let ghost texts = kinds@.map_values(|kind: TokenKind| kind_text(kind));
                let mut parts: Vec<String> = crate::deep::no_items();
                let mut i: usize = 0;
                while i < kinds.len()
                    invariant
                        i <= kinds@.len(),
                        texts == kinds@.map_values(|kind: TokenKind| kind_text(kind)),
                        parts.deep_view() == texts.take(i as int),
                    decreases kinds@.len() - i,
                {
                    crate::deep::push_to(&mut parts, kinds[i].text().to_owned());
                    assert(parts.deep_view() =~= texts.take(i + 1));
                    i = i + 1;
                }
                assert(parts.deep_view() =~= texts);
                let mut out = "one of ".to_owned();
                out.append(join_texts(&parts, ", ").as_str());
                out
            },
            Expected::Description(text) => (*text).to_owned(),
        }
    }
}

/// An error raised while a file is parsed. Parsing stops at the first
/// one.
#[derive(Debug, Clone, PartialEq)]
pub enum ParseError {
    /// What the lexer found wrong, everything in one go.
    Lex(Vec<LexError>),
    /// A token that cannot stand where it does.
    UnexpectedToken {
        expected: Expected,
        found_kind: TokenKind,
        found_lexeme: String,
        span: Span,
    },
    /// A top-level declaration of no known kind.
    UnknownTopLevelType {
        name: String,
        span: Span,
    },
    /// A field that the type does not have.
    UnknownField {
        on_type: &'static str,
        field: String,
        raw_escape_hatch: bool,
        span: Span,
    },
    /// A field that the type used to have, and what takes its place.
    MovedField {
        on_type: &'static str,
        field: String,
        guidance: &'static str,
        span: Span,
    },
    /// `expose <port> as "<host>"`, which named a route.
    RemovedExposeAsSugar {
        span: Span,
    },
    /// A single-value field set twice in one body.
    DuplicateField {
        on_type: &'static str,
        field: &'static str,
        first: Span,
        second: Span,
    },
    /// Two entries of one map field that have to differ and do not.
    DuplicateMapKey {
        on_type: &'static str,
        side: MapSide,
        value: String,
        first: Span,
        second: Span,
    },
    /// A number too large to hold.
    NumberOutOfRange {
        text: String,
        span: Span,
    },
    /// Two parameters of one template with the same name.
    DuplicateTemplateParam {
        param: String,
        first: Span,
        second: Span,
    },
    /// A parameter annotated with no known type.
    UnknownParamType {
        name: String,
        span: Span,
    },
    /// A `$param` outside any template.
    ParamReferenceOutsideTemplate {
        name: String,
        span: Span,
    },
    /// A `$param` that the template does not declare.
    UnknownTemplateParam {
        name: String,
        span: Span,
    },
    /// A raw value nested deeper than the limit.
    RawValueTooDeep {
        limit: usize,
        span: Span,
    },
    /// A one-shot alias followed by more fields.
    AliasSugarCannotContinue {
        on_type: &'static str,
        keyword: &'static str,
        primary_field: &'static str,
        alias_field: &'static str,
        span: Span,
    },
    /// A map entry without the separator between its two sides.
    MapEntryMissingSeparator {
        on_type: &'static str,
        separator: TokenKind,
        span: Span,
    },
    /// A `depends_on` condition of no known name.
    InvalidDependsOnCondition {
        found: String,
        span: Span,
    },
    /// A rule expression nested deeper than the limit.
    MatchExprTooDeep {
        limit: usize,
        span: Span,
    },
    /// A rule matcher of no known name.
    UnknownMatcher {
        name: String,
        span: Span,
    },
    /// A rule matcher with the wrong number of arguments.
    MatcherArity {
        name: &'static str,
        expected: usize,
        found: usize,
        span: Span,
    },
}

/// The view of [`ParseError`].
#[verifier::ext_equal]
pub enum ParseErrorV {
    Lex(Seq<LexErrorV>),
    UnexpectedToken {
        expected: ExpectedV,
        found_kind: TokenKind,
        found_lexeme: Seq<char>,
        span: Span,
    },
    UnknownTopLevelType { name: Seq<char>, span: Span },
    UnknownField { on_type: Seq<char>, field: Seq<char>, raw_escape_hatch: bool, span: Span },
    MovedField { on_type: Seq<char>, field: Seq<char>, guidance: Seq<char>, span: Span },
    RemovedExposeAsSugar { span: Span },
    DuplicateField { on_type: Seq<char>, field: Seq<char>, first: Span, second: Span },
    DuplicateMapKey {
        on_type: Seq<char>,
        side: MapSide,
        value: Seq<char>,
        first: Span,
        second: Span,
    },
    NumberOutOfRange { text: Seq<char>, span: Span },
    DuplicateTemplateParam { param: Seq<char>, first: Span, second: Span },
    UnknownParamType { name: Seq<char>, span: Span },
    ParamReferenceOutsideTemplate { name: Seq<char>, span: Span },
    UnknownTemplateParam { name: Seq<char>, span: Span },
    RawValueTooDeep { limit: usize, span: Span },
    AliasSugarCannotContinue {
        on_type: Seq<char>,
        keyword: Seq<char>,
        primary_field: Seq<char>,
        alias_field: Seq<char>,
        span: Span,
    },
    MapEntryMissingSeparator { on_type: Seq<char>, separator: TokenKind, span: Span },
    InvalidDependsOnCondition { found: Seq<char>, span: Span },
    MatchExprTooDeep { limit: usize, span: Span },
    UnknownMatcher { name: Seq<char>, span: Span },
    MatcherArity { name: Seq<char>, expected: usize, found: usize, span: Span },
}

impl DeepView for ParseError {
    type V = ParseErrorV;

    open spec fn deep_view(&self) -> ParseErrorV {
        match self {
            ParseError::Lex(errors) => ParseErrorV::Lex(errors.deep_view()),
            ParseError::UnexpectedToken {
                expected,
                found_kind,
                found_lexeme,
                span,
            } => ParseErrorV::UnexpectedToken {
                expected: expected.deep_view(),
                found_kind: *found_kind,
                found_lexeme: found_lexeme@,
                span: *span,
            },
            ParseError::UnknownTopLevelType { name, span } => ParseErrorV::UnknownTopLevelType {
                name: name@,
                span: *span,
            },
            ParseError::UnknownField {
                on_type,
                field,
                raw_escape_hatch,
                span,
            } => ParseErrorV::UnknownField {
                on_type: on_type@,
                field: field@,
                raw_escape_hatch: *raw_escape_hatch,
                span: *span,
            },
            ParseError::MovedField { on_type, field, guidance, span } => ParseErrorV::MovedField {
                on_type: on_type@,
                field: field@,
                guidance: guidance@,
                span: *span,
            },
            ParseError::RemovedExposeAsSugar { span } => ParseErrorV::RemovedExposeAsSugar {
                span: *span,
            },
            ParseError::DuplicateField {
                on_type,
                field,
                first,
                second,
            } => ParseErrorV::DuplicateField {
                on_type: on_type@,
                field: field@,
                first: *first,
                second: *second,
            },
            ParseError::DuplicateMapKey {
                on_type,
                side,
                value,
                first,
                second,
            } => ParseErrorV::DuplicateMapKey {
                on_type: on_type@,
                side: *side,
                value: value@,
                first: *first,
                second: *second,
            },
            ParseError::NumberOutOfRange { text, span } => ParseErrorV::NumberOutOfRange {
                text: text@,
                span: *span,
            },
            ParseError::DuplicateTemplateParam {
                param,
                first,
                second,
            } => ParseErrorV::DuplicateTemplateParam {
                param: param@,
                first: *first,
                second: *second,
            },
            ParseError::UnknownParamType { name, span } => ParseErrorV::UnknownParamType {
                name: name@,
                span: *span,
            },
            ParseError::ParamReferenceOutsideTemplate {
                name,
                span,
            } => ParseErrorV::ParamReferenceOutsideTemplate {
                name: name@,
                span: *span,
            },
            ParseError::UnknownTemplateParam { name, span } => ParseErrorV::UnknownTemplateParam {
                name: name@,
                span: *span,
            },
            ParseError::RawValueTooDeep { limit, span } => ParseErrorV::RawValueTooDeep {
                limit: *limit,
                span: *span,
            },
            ParseError::AliasSugarCannotContinue {
                on_type,
                keyword,
                primary_field,
                alias_field,
                span,
            } => ParseErrorV::AliasSugarCannotContinue {
                on_type: on_type@,
                keyword: keyword@,
                primary_field: primary_field@,
                alias_field: alias_field@,
                span: *span,
            },
            ParseError::MapEntryMissingSeparator {
                on_type,
                separator,
                span,
            } => ParseErrorV::MapEntryMissingSeparator {
                on_type: on_type@,
                separator: *separator,
                span: *span,
            },
            ParseError::InvalidDependsOnCondition {
                found,
                span,
            } => ParseErrorV::InvalidDependsOnCondition {
                found: found@,
                span: *span,
            },
            ParseError::MatchExprTooDeep { limit, span } => ParseErrorV::MatchExprTooDeep {
                limit: *limit,
                span: *span,
            },
            ParseError::UnknownMatcher { name, span } => ParseErrorV::UnknownMatcher {
                name: name@,
                span: *span,
            },
            ParseError::MatcherArity { name, expected, found, span } => ParseErrorV::MatcherArity {
                name: name@,
                expected: *expected,
                found: *found,
                span: *span,
            },
        }
    }
}

impl ParseErrorV {
    /// Whether an error lies somewhere: those of the lexer are at least
    /// one.
    pub open spec fn has_place(self) -> bool {
        self matches ParseErrorV::Lex(errors) ==> errors.len() > 0
    }

    /// Where an error lies: of two places, the one that offends.
    pub open spec fn span(self) -> Span {
        match self {
            ParseErrorV::Lex(errors) => errors[0].span,
            ParseErrorV::UnexpectedToken { span, .. } => span,
            ParseErrorV::UnknownTopLevelType { span, .. } => span,
            ParseErrorV::UnknownField { span, .. } => span,
            ParseErrorV::MovedField { span, .. } => span,
            ParseErrorV::RemovedExposeAsSugar { span, .. } => span,
            ParseErrorV::DuplicateField { second, .. } => second,
            ParseErrorV::DuplicateMapKey { second, .. } => second,
            ParseErrorV::NumberOutOfRange { span, .. } => span,
            ParseErrorV::DuplicateTemplateParam { second, .. } => second,
            ParseErrorV::UnknownParamType { span, .. } => span,
            ParseErrorV::ParamReferenceOutsideTemplate { span, .. } => span,
            ParseErrorV::UnknownTemplateParam { span, .. } => span,
            ParseErrorV::RawValueTooDeep { span, .. } => span,
            ParseErrorV::AliasSugarCannotContinue { span, .. } => span,
            ParseErrorV::MapEntryMissingSeparator { span, .. } => span,
            ParseErrorV::InvalidDependsOnCondition { span, .. } => span,
            ParseErrorV::MatchExprTooDeep { span, .. } => span,
            ParseErrorV::UnknownMatcher { span, .. } => span,
            ParseErrorV::MatcherArity { span, .. } => span,
        }
    }

    /// What a diagnostic prints for an error.
    pub open spec fn text(self) -> Seq<char> {
        let at = location(self.span(), None);
        match self {
            ParseErrorV::Lex(errors) => texts_joined(
                errors.map_values(|error: LexErrorV| error.text),
                "\n"@,
            ),
            ParseErrorV::UnexpectedToken { expected, found_kind, found_lexeme, .. } => {
                let found = at + ": expected "@ + expected.text() + ", found "@ + kind_text(
                    found_kind,
                );
                if shows_lexeme(found_kind) {
                    found + " "@ + debug_quoted(found_lexeme)
                } else {
                    found
                }
            },
            ParseErrorV::UnknownTopLevelType { name, .. } => at
                + ": unknown type "@
                + debug_quoted(name)
                + " (expected `network` or `service`)"@,
            ParseErrorV::UnknownField { on_type, field, raw_escape_hatch, .. } => {
                let unknown = at + ": unknown field "@ + debug_quoted(field) + " on `"@ + on_type
                    + "`"@;
                if raw_escape_hatch {
                    unknown + " — if `"@ + field
                        + "` is a Compose key with no `hll` field yet, pass it through with `raw { "@
                        + field + ": ... }`"@
                } else {
                    unknown
                }
            },
            ParseErrorV::MovedField { on_type, field, guidance, .. } => at
                + ": `"@
                + field
                + "` is no longer a field of `"@
                + on_type
                + "` — "@
                + guidance,
            ParseErrorV::RemovedExposeAsSugar { .. } => at
                + ": `expose <port> as \"<host>\"` was removed — routing moved to `std:traefik`: `use \"std:traefik\" as traefik`, then `with traefik.http { host: \"...\", port: ... }`"@,
            ParseErrorV::DuplicateField { on_type, field, first, .. } => at
                + ": duplicate field `"@
                + field
                + "` on `"@
                + on_type
                + "` (first set at "@
                + location(first, None)
                + ")"@,
            ParseErrorV::DuplicateMapKey { on_type, side, value, first, .. } => at
                + ": duplicate `"@
                + on_type
                + "` entry: "@
                + side_text(side)
                + " "@
                + debug_quoted(value)
                + " already set at "@
                + location(first, None),
            ParseErrorV::NumberOutOfRange { text, .. } => at
                + ": number "@
                + debug_quoted(text)
                + " is out of range"@,
            ParseErrorV::DuplicateTemplateParam { param, first, .. } => at
                + ": duplicate parameter `"@
                + param
                + "` (first declared at "@
                + location(first, None)
                + ")"@,
            ParseErrorV::UnknownParamType { name, .. } => at
                + ": unknown parameter type `"@
                + name
                + "` (expected `Number` or `String`)"@,
            ParseErrorV::ParamReferenceOutsideTemplate { name, .. } => at
                + ": `$"@
                + name
                + "` is only valid inside a template body"@,
            ParseErrorV::UnknownTemplateParam { name, .. } => at
                + ": `$"@
                + name
                + "` does not name a declared parameter of this template"@,
            ParseErrorV::RawValueTooDeep { limit, .. } => at
                + ": `raw` value nested more than "@
                + decimal(limit as nat)
                + " levels deep"@,
            ParseErrorV::AliasSugarCannotContinue {
                on_type,
                keyword,
                primary_field,
                alias_field,
                ..
            } => at
                + ": `"@
                + keyword
                + "` fuses onto the primary value as a one-shot alias and can't be followed by more fields — write `"@
                + on_type
                + " <"@
                + primary_field
                + ">, "@
                + alias_field
                + ": \"...\", ...` instead"@,
            ParseErrorV::MapEntryMissingSeparator { on_type, separator, .. } => at
                + ": `"@
                + on_type
                + "` entry has no `:` or "@
                + kind_text(separator)
                + " after its first value"@,
            ParseErrorV::InvalidDependsOnCondition { found, .. } => at
                + ": invalid `depends_on` condition "@
                + debug_quoted(found)
                + " (expected one of `service_started`, `service_healthy`, `service_completed_successfully`)"@,
            ParseErrorV::MatchExprTooDeep { limit, .. } => at
                + ": `rule` expression nested more than "@
                + decimal(limit as nat)
                + " levels deep"@,
            ParseErrorV::UnknownMatcher { name, .. } => at
                + ": unknown rule matcher `"@
                + name
                + "` (expected one of "@
                + known_names_text()
                + ")"@,
            ParseErrorV::MatcherArity { name, expected, found, .. } => at
                + ": rule matcher `"@
                + name
                + "` takes "@
                + decimal(expected as nat)
                + " argument(s), found "@
                + decimal(found as nat),
        }
    }
}

/// Whether a kind of token says too little without its text.
pub open spec fn shows_lexeme(kind: TokenKind) -> bool {
    kind == TokenKind::Ident || kind == TokenKind::Number || kind == TokenKind::Str
}

impl ParseError {
    /// Where the error lies: of two places, the one that offends.
    pub fn span(&self) -> (r: Span)
        requires
            self.deep_view().has_place(),
        ensures
            r == self.deep_view().span(),
    {
        match self {
            ParseError::Lex(errors) => {
                assert(errors.deep_view()[0] == errors@[0].deep_view());
                errors[0].span
            },
            ParseError::UnexpectedToken { span, .. } => *span,
            ParseError::UnknownTopLevelType { span, .. } => *span,
            ParseError::UnknownField { span, .. } => *span,
            ParseError::MovedField { span, .. } => *span,
            ParseError::RemovedExposeAsSugar { span, .. } => *span,
            ParseError::DuplicateField { second, .. } => *second,
            ParseError::DuplicateMapKey { second, .. } => *second,
            ParseError::NumberOutOfRange { span, .. } => *span,
            ParseError::DuplicateTemplateParam { second, .. } => *second,
            ParseError::UnknownParamType { span, .. } => *span,
            ParseError::ParamReferenceOutsideTemplate { span, .. } => *span,
            ParseError::UnknownTemplateParam { span, .. } => *span,
            ParseError::RawValueTooDeep { span, .. } => *span,
            ParseError::AliasSugarCannotContinue { span, .. } => *span,
            ParseError::MapEntryMissingSeparator { span, .. } => *span,
            ParseError::InvalidDependsOnCondition { span, .. } => *span,
            ParseError::MatchExprTooDeep { span, .. } => *span,
            ParseError::UnknownMatcher { span, .. } => *span,
            ParseError::MatcherArity { span, .. } => *span,
        }
    }

    /// What a diagnostic prints for this error.
    pub fn message(&self) -> (r: String)
        requires
            self.deep_view().has_place(),
        ensures
            r@ == self.deep_view().text(),
    {
        let mut out = self.span().locate(None);
        match self {
            ParseError::Lex(errors) => {
                return lex_text(errors);
            },
            ParseError::UnexpectedToken { expected, found_kind, found_lexeme, .. } => {
                out.append(": expected ");
                out.append(expected.message().as_str());
                out.append(", found ");
                out.append(found_kind.text());
                match found_kind {
                    TokenKind::Ident | TokenKind::Number | TokenKind::Str => {
                        out.append(" ");
                        out.append(debug_text(found_lexeme.as_str()).as_str());
                    },
                    _ => {},
                }
            },
            ParseError::UnknownTopLevelType { name, .. } => {
                out.append(": unknown type ");
                out.append(debug_text(name.as_str()).as_str());
                out.append(" (expected `network` or `service`)");
            },
            ParseError::UnknownField { on_type, field, raw_escape_hatch, .. } => {
                out.append(": unknown field ");
                out.append(debug_text(field.as_str()).as_str());
                out.append(" on `");
                out.append(on_type);
                out.append("`");
                if *raw_escape_hatch {
                    out.append(" — if `");
                    out.append(field.as_str());
                    out.append(
                        "` is a Compose key with no `hll` field yet, pass it through with `raw { ",
                    );
                    out.append(field.as_str());
                    out.append(": ... }`");
                }
            },
            ParseError::MovedField { on_type, field, guidance, .. } => {
                out.append(": `");
                out.append(field.as_str());
                out.append("` is no longer a field of `");
                out.append(on_type);
                out.append("` — ");
                out.append(guidance);
            },
            ParseError::RemovedExposeAsSugar { .. } => {
                out.append(
                    ": `expose <port> as \"<host>\"` was removed — routing moved to `std:traefik`: `use \"std:traefik\" as traefik`, then `with traefik.http { host: \"...\", port: ... }`",
                );
            },
            ParseError::DuplicateField { on_type, field, first, .. } => {
                out.append(": duplicate field `");
                out.append(field);
                out.append("` on `");
                out.append(on_type);
                out.append("` (first set at ");
                out.append(first.locate(None).as_str());
                out.append(")");
            },
            ParseError::DuplicateMapKey { on_type, side, value, first, .. } => {
                out.append(": duplicate `");
                out.append(on_type);
                out.append("` entry: ");
                out.append(side_name(*side));
                out.append(" ");
                out.append(debug_text(value.as_str()).as_str());
                out.append(" already set at ");
                out.append(first.locate(None).as_str());
            },
            ParseError::NumberOutOfRange { text, .. } => {
                out.append(": number ");
                out.append(debug_text(text.as_str()).as_str());
                out.append(" is out of range");
            },
            ParseError::DuplicateTemplateParam { param, first, .. } => {
                out.append(": duplicate parameter `");
                out.append(param.as_str());
                out.append("` (first declared at ");
                out.append(first.locate(None).as_str());
                out.append(")");
            },
            ParseError::UnknownParamType { name, .. } => {
                out.append(": unknown parameter type `");
                out.append(name.as_str());
                out.append("` (expected `Number` or `String`)");
            },
            ParseError::ParamReferenceOutsideTemplate { name, .. } => {
                out.append(": `$");
                out.append(name.as_str());
                out.append("` is only valid inside a template body");
            },
            ParseError::UnknownTemplateParam { name, .. } => {
                out.append(": `$");
                out.append(name.as_str());
                out.append("` does not name a declared parameter of this template");
            },
            ParseError::RawValueTooDeep { limit, .. } => {
                out.append(": `raw` value nested more than ");
                out.append(decimal_text(*limit as u64).as_str());
                out.append(" levels deep");
            },
            ParseError::AliasSugarCannotContinue {
                on_type,
                keyword,
                primary_field,
                alias_field,
                ..
            } => {
                out.append(": `");
                out.append(keyword);
                out.append(
                    "` fuses onto the primary value as a one-shot alias and can't be followed by more fields — write `",
                );
                out.append(on_type);
                out.append(" <");
                out.append(primary_field);
                out.append(">, ");
                out.append(alias_field);
                out.append(": \"...\", ...` instead");
            },
            ParseError::MapEntryMissingSeparator { on_type, separator, .. } => {
                out.append(": `");
                out.append(on_type);
                out.append("` entry has no `:` or ");
                out.append(separator.text());
                out.append(" after its first value");
            },
            ParseError::InvalidDependsOnCondition { found, .. } => {
                out.append(": invalid `depends_on` condition ");
                out.append(debug_text(found.as_str()).as_str());
                out.append(
                    " (expected one of `service_started`, `service_healthy`, `service_completed_successfully`)",
                );
            },
            ParseError::MatchExprTooDeep { limit, .. } => {
                out.append(": `rule` expression nested more than ");
                out.append(decimal_text(*limit as u64).as_str());
                out.append(" levels deep");
            },
            ParseError::UnknownMatcher { name, .. } => {
                out.append(": unknown rule matcher `");
                out.append(name.as_str());
                out.append("` (expected one of ");
                out.append(known_names().as_str());
                out.append(")");
            },
            ParseError::MatcherArity { name, expected, found, .. } => {
                out.append(": rule matcher `");
                out.append(name);
                out.append("` takes ");
                out.append(decimal_text(*expected as u64).as_str());
                out.append(" argument(s), found ");
                out.append(decimal_text(*found as u64).as_str());
            },
        }
        out
    }
}

fn lex_text(errors: &Vec<LexError>) -> (r: String)
    ensures
        r@ == texts_joined(
            errors.deep_view().map_values(|error: LexErrorV| error.text),
            "\n"@,
        ),
{
    let ghost texts = errors.deep_view().map_values(|error: LexErrorV| error.text);
    let mut parts: Vec<String> = crate::deep::no_items();
    let mut i: usize = 0;
    while i < errors.len()
        invariant
            i <= errors@.len(),
            texts == errors.deep_view().map_values(|error: LexErrorV| error.text),
            parts.deep_view() == texts.take(i as int),
        decreases errors@.len() - i,
    {
        crate::deep::push_to(&mut parts, errors[i].text.clone());
        assert(parts.deep_view() =~= texts.take(i + 1));
        i = i + 1;
    }
    assert(parts.deep_view() =~= texts);
    join_texts(&parts, "\n")
}

/// An error about two places points at the second, the one that offends.
pub proof fn law_errors_point_at_the_later_place(error: ParseErrorV)
    ensures
        error matches ParseErrorV::DuplicateField { first, second, .. } ==> error.span() == second,
        error matches ParseErrorV::DuplicateMapKey { first, second, .. } ==> error.span() == second,
        error matches ParseErrorV::DuplicateTemplateParam { first, second, .. } ==> error.span() == second,
        error matches ParseErrorV::Lex(errors) ==> errors.len() > 0 ==> error.span()
            == errors[0].span,
{
}

} // verus!
