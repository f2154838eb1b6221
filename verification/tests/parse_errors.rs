use hl_parser::schema::MapSide;
use hl_parser::{Expected, FileId, LexError, ParseError, Span, TokenKind};

fn span(line: u32, col: u32) -> Span {
    Span {
        start: 0,
        end: 0,
        line,
        col,
        file: FileId::Anonymous,
    }
}

fn dangling_dash(line: u32, col: u32) -> LexError {
    LexError {
        text: format!("{line}:{col}: unexpected '-' (expected '->' or an identifier)"),
        span: span(line, col),
    }
}

fn unexpected_char(ch: char, line: u32, col: u32) -> LexError {
    LexError {
        text: format!(
            "{line}:{col}: unexpected character '{ch}' — string values must be quoted (\"...\")"
        ),
        span: span(line, col),
    }
}

#[test]
fn expected_token_display() {
    assert_eq!(Expected::Token(TokenKind::Colon).message(), "`:`");
}

#[test]
fn expected_one_of_display() {
    assert_eq!(
        Expected::OneOf(vec![TokenKind::Colon, TokenKind::Equals]).message(),
        "one of `:`, `=`"
    );
}

#[test]
fn expected_description_display() {
    assert_eq!(Expected::Description("a value").message(), "a value");
}

#[test]
fn lex_display() {
    let err = ParseError::Lex(vec![dangling_dash(1, 1)]);
    assert_eq!(
        err.message(),
        "1:1: unexpected '-' (expected '->' or an identifier)"
    );
}

#[test]
fn unexpected_token_display_omits_the_redundant_lexeme_for_punctuation() {
    let err = ParseError::UnexpectedToken {
        expected: Expected::Token(TokenKind::Colon),
        found_kind: TokenKind::Equals,
        found_lexeme: "=".to_string(),
        span: span(3, 5),
    };
    assert_eq!(err.message(), "3:5: expected `:`, found `=`");
}

#[test]
fn unexpected_token_display_keeps_the_lexeme_for_variable_text_kinds() {
    let err = ParseError::UnexpectedToken {
        expected: Expected::Token(TokenKind::Colon),
        found_kind: TokenKind::Number,
        found_lexeme: "42".to_string(),
        span: span(3, 5),
    };
    assert_eq!(err.message(), "3:5: expected `:`, found a number \"42\"");
}

#[test]
fn lex_display_joins_multiple_batched_errors_one_per_line() {
    let err = ParseError::Lex(vec![
        unexpected_char('@', 1, 1),
        dangling_dash(3, 4),
    ]);
    assert_eq!(
        err.message(),
        "1:1: unexpected character '@' — string values must be quoted (\"...\")\n\
         3:4: unexpected '-' (expected '->' or an identifier)"
    );
}

#[test]
fn unknown_top_level_type_display() {
    let err = ParseError::UnknownTopLevelType {
        name: "widget".to_string(),
        span: span(2, 1),
    };
    assert_eq!(
        err.message(),
        "2:1: unknown type \"widget\" (expected `network` or `service`)"
    );
}

#[test]
fn unknown_field_display_names_the_raw_escape_hatch() {
    let err = ParseError::UnknownField {
        on_type: "service",
        field: "ports".to_string(),
        raw_escape_hatch: true,
        span: span(4, 2),
    };
    assert_eq!(
        err.message(),
        "4:2: unknown field \"ports\" on `service` — if `ports` is a Compose key with no \
         `hll` field yet, pass it through with `raw { ports: ... }`"
    );
}

#[test]
fn unknown_field_display_omits_the_hint_where_raw_isnt_accepted() {
    let err = ParseError::UnknownField {
        on_type: "expose",
        field: "bogus".to_string(),
        raw_escape_hatch: false,
        span: span(4, 2),
    };
    assert_eq!(err.message(), "4:2: unknown field \"bogus\" on `expose`");
}

#[test]
fn duplicate_field_display() {
    let err = ParseError::DuplicateField {
        on_type: "service",
        field: "image",
        first: span(1, 3),
        second: span(4, 2),
    };
    assert_eq!(
        err.message(),
        "4:2: duplicate field `image` on `service` (first set at 1:3)"
    );
}

#[test]
fn duplicate_map_key_display_key_side() {
    let err = ParseError::DuplicateMapKey {
        on_type: "env",
        side: MapSide::Key,
        value: "FOO".to_string(),
        first: span(1, 1),
        second: span(2, 1),
    };
    assert_eq!(
        err.message(),
        "2:1: duplicate `env` entry: key \"FOO\" already set at 1:1"
    );
}

#[test]
fn duplicate_map_key_display_value_side() {
    let err = ParseError::DuplicateMapKey {
        on_type: "env",
        side: MapSide::Value,
        value: "FOO".to_string(),
        first: span(1, 1),
        second: span(2, 1),
    };
    assert_eq!(
        err.message(),
        "2:1: duplicate `env` entry: value \"FOO\" already set at 1:1"
    );
}

#[test]
fn number_out_of_range_display() {
    let err = ParseError::NumberOutOfRange {
        text: "99999999999999999999".to_string(),
        span: span(5, 5),
    };
    assert_eq!(
        err.message(),
        "5:5: number \"99999999999999999999\" is out of range"
    );
}

#[test]
fn duplicate_template_param_display() {
    let err = ParseError::DuplicateTemplateParam {
        param: "name".to_string(),
        first: span(1, 10),
        second: span(1, 15),
    };
    assert_eq!(
        err.message(),
        "1:15: duplicate parameter `name` (first declared at 1:10)"
    );
}

#[test]
fn unknown_param_type_display() {
    let err = ParseError::UnknownParamType {
        name: "Boolean".to_string(),
        span: span(1, 20),
    };
    assert_eq!(
        err.message(),
        "1:20: unknown parameter type `Boolean` (expected `Number` or `String`)"
    );
}

#[test]
fn param_reference_outside_template_display() {
    let err = ParseError::ParamReferenceOutsideTemplate {
        name: "port".to_string(),
        span: span(2, 3),
    };
    assert_eq!(
        err.message(),
        "2:3: `$port` is only valid inside a template body"
    );
}

#[test]
fn unknown_template_param_display() {
    let err = ParseError::UnknownTemplateParam {
        name: "prot".to_string(),
        span: span(3, 9),
    };
    assert_eq!(
        err.message(),
        "3:9: `$prot` does not name a declared parameter of this template"
    );
}

#[test]
fn raw_value_too_deep_display() {
    let err = ParseError::RawValueTooDeep {
        limit: 128,
        span: span(4, 12),
    };
    assert_eq!(
        err.message(),
        "4:12: `raw` value nested more than 128 levels deep"
    );
}
