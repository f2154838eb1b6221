//! Front end of the hl-lang compiler: turns a lexed `.hll` file into an
//! AST and resolves `template`/`with` composition into fully merged
//! services, with every pass verified against a mathematical model of
//! the language.
//!
//! [`parse`] is purely syntactic: it enforces known fields, values of the
//! right kind, and no duplicates, but resolves no `with` list.
//! [`fn@compose`] runs on what it returns, and leaves services with no
//! template and no parameter in them.

pub mod ast;
pub mod body_laws;
pub mod compose;
pub mod compose_error;
pub mod deep;
pub mod error;
pub mod grammar;
pub mod grammar_laws;
pub mod interp;
pub mod keyword_laws;
pub mod match_expr;
pub mod matchers;
pub mod move_laws;
pub mod parser;
pub mod place_laws;
pub mod refusal_laws;
pub mod schema;
pub mod source;
pub mod spelling_laws;
pub mod text;
pub mod view_laws;
pub mod warning;

pub use ast::{
    ArrowMap, ArrowMapEntry, ArrowMapHost, Build, Command, DependsOnCondition, DependsOnEntry,
    Entrypoint, EnvEntry, EnvMap, Expose, FieldAccess, Healthcheck, HealthcheckTest, Ident, Image,
    LabelEntry, LabelMap, LabelValue, Literal, Network, Param, Program, QualifiedRef, RawEntry,
    RawMap, RawValue, Restart, Service, ServiceFields, TemplateDecl, TemplateInvocation, TopDecl,
    UseDecl, Volume, VolumeDriverOpt,
};
pub use compose::{
    compose, compose_with_resolver, ComposeError, ComposedProgram, MapKeyCollision, SymbolResolver,
    MAX_TEMPLATE_DEPTH,
};
pub use error::{Expected, ParseError};
pub use grammar::MAX_RAW_VALUE_DEPTH;
pub use match_expr::{MatchExpr, MAX_MATCH_EXPR_DEPTH};
pub use parser::{parse, parse_in_file};
pub use source::{FileId, LexError, SourceMap, Span, Token, TokenKind};
pub use warning::ComposeWarning;
