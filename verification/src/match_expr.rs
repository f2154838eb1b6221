//! The expressions that a router's rule is written in: Traefik's rule
//! matchers joined by `!`, `&&` and `||`, binding in that order.
//!
//! ```text
//! rule    ::= or
//! or      ::= and ( "||" and )*
//! and     ::= unary ( "&&" unary )*
//! unary   ::= "!" unary | primary
//! primary ::= "(" rule ")" | matcher
//! matcher ::= IDENT "(" ( reference ( "," reference )* )? ")"
//! ```

use vstd::prelude::*;

use crate::ast::{Ident, IdentV, Literal, LiteralV, ParamV};
use crate::deep::no_items;
use crate::error::{ParseError, ParseErrorV};
use crate::grammar::{described, expected, past_colon, read_items, Parsed, References};
use crate::matchers::{lookup, matcher_named};
use crate::parser::{advances, at, Parser};
use crate::source::{joined, Span, TokenKind, TokenV};

verus! {

/// How deep a rule may nest. Negations and parentheses count, and so does
/// each operator of a chain.
pub const MAX_MATCH_EXPR_DEPTH: usize = 128;

/// A rule.
#[derive(Debug)]
pub enum MatchExpr {
    Or { lhs: Box<MatchExpr>, rhs: Box<MatchExpr>, span: Span },
    And { lhs: Box<MatchExpr>, rhs: Box<MatchExpr>, span: Span },
    Not { operand: Box<MatchExpr>, span: Span },
    Group { inner: Box<MatchExpr>, span: Span },
    Matcher { name: Ident, args: Vec<Literal>, span: Span },
}

/// The view of [`MatchExpr`].
#[verifier::ext_equal]
pub enum MatchExprV {
    Or { lhs: Box<MatchExprV>, rhs: Box<MatchExprV>, span: Span },
    And { lhs: Box<MatchExprV>, rhs: Box<MatchExprV>, span: Span },
    Not { operand: Box<MatchExprV>, span: Span },
    Group { inner: Box<MatchExprV>, span: Span },
    Matcher { name: IdentV, args: Seq<LiteralV>, span: Span },
}

/// The view of a rule.
pub open spec fn rule_view(rule: MatchExpr) -> MatchExprV
    decreases rule,
{
    match rule {
        MatchExpr::Or { lhs, rhs, span } => MatchExprV::Or {
            lhs: Box::new(rule_view(*lhs)),
            rhs: Box::new(rule_view(*rhs)),
            span,
        },
        MatchExpr::And { lhs, rhs, span } => MatchExprV::And {
            lhs: Box::new(rule_view(*lhs)),
            rhs: Box::new(rule_view(*rhs)),
            span,
        },
        MatchExpr::Not { operand, span } => MatchExprV::Not {
            operand: Box::new(rule_view(*operand)),
            span,
        },
        MatchExpr::Group { inner, span } => MatchExprV::Group {
            inner: Box::new(rule_view(*inner)),
            span,
        },
        MatchExpr::Matcher { name, args, span } => MatchExprV::Matcher {
            name: name.deep_view(),
            args: args.deep_view(),
            span,
        },
    }
}

impl DeepView for MatchExpr {
    type V = MatchExprV;

    open spec fn deep_view(&self) -> MatchExprV {
        rule_view(*self)
    }
}

impl MatchExprV {
    /// Where the rule stands.
    pub open spec fn span(self) -> Span {
        match self {
            MatchExprV::Or { span, .. } => span,
            MatchExprV::And { span, .. } => span,
            MatchExprV::Not { span, .. } => span,
            MatchExprV::Group { span, .. } => span,
            MatchExprV::Matcher { span, .. } => span,
        }
    }
}

impl MatchExpr {
    /// Where the rule stands.
    pub fn span(&self) -> (r: Span)
        ensures
            r == self.deep_view().span(),
    {
        match self {
            MatchExpr::Or { span, .. } => *span,
            MatchExpr::And { span, .. } => *span,
            MatchExpr::Not { span, .. } => *span,
            MatchExpr::Group { span, .. } => *span,
            MatchExpr::Matcher { span, .. } => *span,
        }
    }
}

/// The error for a rule that nests too deep at `p`.
pub open spec fn too_deep(ts: Seq<TokenV>, p: int) -> ParseErrorV {
    ParseErrorV::MatchExprTooDeep { limit: MAX_MATCH_EXPR_DEPTH, span: ts[p].span }
}

/// A matcher: its name, and as many arguments as it takes.
pub open spec fn read_matcher(ts: Seq<TokenV>, p: int, params: Option<Seq<ParamV>>) -> Parsed<
    MatchExprV,
> {
    let name = IdentV { name: ts[p].lexeme, span: ts[p].span };
    if ts[p + 1].kind != TokenKind::LParen {
        Err(
            described(
                ts,
                p,
                "a rule matcher — its arguments go in parentheses, as `Host(\"example.com\")`"@,
            ),
        )
    } else {
        let read = if ts[p + 2].kind == TokenKind::RParen {
            Ok((Seq::empty(), p + 2))
        } else {
            read_items::<References>(ts, p + 2, params, Seq::empty())
        };
        match read {
            Err(error) => Err(error),
            Ok((args, last)) => match expected(ts, last, TokenKind::RParen) {
                Err(error) => Err(error),
                Ok((close, end)) => matcher_called(name, args, joined(name.span, close.span), end),
            },
        }
    }
}

/// The matcher of this name, called with these arguments.
pub open spec fn matcher_called(
    name: IdentV,
    args: Seq<LiteralV>,
    span: Span,
    end: int,
) -> Parsed<MatchExprV> {
    match matcher_named(name.name) {
        None => Err(ParseErrorV::UnknownMatcher { name: name.name, span: name.span }),
        Some(matcher) => if args.len() != matcher.arity {
            Err(
                ParseErrorV::MatcherArity {
                    name: matcher.name,
                    expected: matcher.arity,
                    found: args.len() as usize,
                    span,
                },
            )
        } else {
            Ok((MatchExprV::Matcher { name, args, span }, end))
        },
    }
}

/// A rule in parentheses, or a matcher.
pub open spec fn read_primary(
    ts: Seq<TokenV>,
    p: int,
    params: Option<Seq<ParamV>>,
    depth: int,
) -> Parsed<MatchExprV>
    decreases ts.len() - p, 0int,
{
    if ts[p].kind == TokenKind::LParen && p + 1 < ts.len() {
        if depth + 1 > MAX_MATCH_EXPR_DEPTH {
            Err(too_deep(ts, p))
        } else {
            match read_or(ts, p + 1, params, depth + 1) {
                Err(error) => Err(error),
                Ok((inner, last)) => match expected(ts, last, TokenKind::RParen) {
                    Err(error) => Err(error),
                    Ok((close, end)) => Ok(
                        (
                            MatchExprV::Group {
                                inner: Box::new(inner),
                                span: joined(ts[p].span, close.span),
                            },
                            end,
                        ),
                    ),
                },
            }
        }
    } else if ts[p].kind == TokenKind::Ident {
        read_matcher(ts, p, params)
    } else {
        Err(
            described(
                ts,
                p,
                "a rule matcher, `!`, or `(` — for example `Host(\"example.com\")`"@,
            ),
        )
    }
}

/// A negation, or what needs none.
pub open spec fn read_unary(
    ts: Seq<TokenV>,
    p: int,
    params: Option<Seq<ParamV>>,
    depth: int,
) -> Parsed<MatchExprV>
    decreases ts.len() - p, 1int,
{
    if ts[p].kind == TokenKind::Bang && p + 1 < ts.len() {
        if depth + 1 > MAX_MATCH_EXPR_DEPTH {
            Err(too_deep(ts, p))
        } else {
            match read_unary(ts, p + 1, params, depth + 1) {
                Err(error) => Err(error),
                Ok((operand, end)) => Ok(
                    (
                        MatchExprV::Not {
                            operand: Box::new(operand),
                            span: joined(ts[p].span, operand.span()),
                        },
                        end,
                    ),
                ),
            }
        }
    } else {
        read_primary(ts, p, params, depth)
    }
}

/// What follows an operand of `&&`: the chain folds to the left, and each
/// operator is one level deeper.
pub open spec fn read_and_rest(
    ts: Seq<TokenV>,
    p: int,
    params: Option<Seq<ParamV>>,
    level: int,
    node: MatchExprV,
) -> Parsed<MatchExprV>
    decreases ts.len() - p, 2int,
{
    if ts[p].kind != TokenKind::AmpAmp || p + 1 >= ts.len() {
        Ok((node, p))
    } else if level + 1 > MAX_MATCH_EXPR_DEPTH {
        Err(too_deep(ts, p))
    } else {
        match read_unary(ts, p + 1, params, level + 1) {
            Err(error) => Err(error),
            Ok((rhs, next)) => if p < next && next < ts.len() {
                read_and_rest(
                    ts,
                    next,
                    params,
                    level + 1,
                    MatchExprV::And {
                        lhs: Box::new(node),
                        rhs: Box::new(rhs),
                        span: joined(node.span(), rhs.span()),
                    },
                )
            } else {
                Err(arbitrary())
            },
        }
    }
}

/// Operands joined by `&&`.
pub open spec fn read_and(
    ts: Seq<TokenV>,
    p: int,
    params: Option<Seq<ParamV>>,
    depth: int,
) -> Parsed<MatchExprV>
    decreases ts.len() - p, 3int,
{
    match read_unary(ts, p, params, depth) {
        Err(error) => Err(error),
        Ok((node, next)) => if p < next && next < ts.len() {
            read_and_rest(ts, next, params, depth, node)
        } else {
            Err(arbitrary())
        },
    }
}

/// What follows an operand of `||`, as for `&&`.
pub open spec fn read_or_rest(
    ts: Seq<TokenV>,
    p: int,
    params: Option<Seq<ParamV>>,
    level: int,
    node: MatchExprV,
) -> Parsed<MatchExprV>
    decreases ts.len() - p, 4int,
{
    if ts[p].kind != TokenKind::PipePipe || p + 1 >= ts.len() {
        Ok((node, p))
    } else if level + 1 > MAX_MATCH_EXPR_DEPTH {
        Err(too_deep(ts, p))
    } else {
        match read_and(ts, p + 1, params, level + 1) {
            Err(error) => Err(error),
            Ok((rhs, next)) => if p < next && next < ts.len() {
                read_or_rest(
                    ts,
                    next,
                    params,
                    level + 1,
                    MatchExprV::Or {
                        lhs: Box::new(node),
                        rhs: Box::new(rhs),
                        span: joined(node.span(), rhs.span()),
                    },
                )
            } else {
                Err(arbitrary())
            },
        }
    }
}

/// Operands joined by `||`.
pub open spec fn read_or(
    ts: Seq<TokenV>,
    p: int,
    params: Option<Seq<ParamV>>,
    depth: int,
) -> Parsed<MatchExprV>
    decreases ts.len() - p, 5int,
{
    match read_and(ts, p, params, depth) {
        Err(error) => Err(error),
        Ok((node, next)) => if p < next && next < ts.len() {
            read_or_rest(ts, next, params, depth, node)
        } else {
            Err(arbitrary())
        },
    }
}

/// The value of a rule field: a rule, behind a colon or not.
pub open spec fn read_rule(ts: Seq<TokenV>, p: int, params: Option<Seq<ParamV>>) -> Parsed<
    MatchExprV,
> {
    read_or(ts, past_colon(ts, p), params, 0)
}

impl<'a> Parser<'a> {
    /// Parses the value of a rule field: a rule, behind a colon or not. It
    /// ends where neither `&&` nor `||` follows.
    pub fn parse_match_expr_value(&self, pos: usize) -> (r: Result<(MatchExpr, usize), ParseError>)
        requires
            self.can_read(pos),
        ensures
            at(r) == read_rule(self.ts(), pos as int, self.params()),
            advances(r, pos, self.tokens@.len()),
    {
        self.parse_or_expr(self.skip_colon(pos), 0)
    }

    fn check_depth(&self, pos: usize, level: usize) -> (r: Result<(), ParseError>)
        requires
            self.can_read(pos),
        ensures
            match r {
                Ok(_) => level <= MAX_MATCH_EXPR_DEPTH,
                Err(error) => level > MAX_MATCH_EXPR_DEPTH && error.deep_view() == too_deep(
                    self.ts(),
                    pos as int,
                ),
            },
    {
        if level > MAX_MATCH_EXPR_DEPTH {
            Err(
                ParseError::MatchExprTooDeep {
                    limit: MAX_MATCH_EXPR_DEPTH,
                    span: self.span_at(pos),
                },
            )
        } else {
            Ok(())
        }
    }

    fn parse_or_expr(&self, pos: usize, depth: usize) -> (r: Result<
        (MatchExpr, usize),
        ParseError,
    >)
        requires
            self.can_read(pos),
            depth <= MAX_MATCH_EXPR_DEPTH,
        ensures
            at(r) == read_or(self.ts(), pos as int, self.params(), depth as int),
            advances(r, pos, self.tokens@.len()),
        decreases self.tokens@.len() - pos, 3int,
    {
        let (first, next) = match self.parse_and_expr(pos, depth) {
            Ok(read) => read,
            Err(error) => {
                return Err(error);
            },
        };
        let mut node = first;
        let mut p: usize = next;
        let mut level: usize = depth;
        while self.kind(p) == TokenKind::PipePipe
            invariant
                self.can_read(p),
                pos < p,
                level <= MAX_MATCH_EXPR_DEPTH,
                read_or(self.ts(), pos as int, self.params(), depth as int) == read_or_rest(
                    self.ts(),
                    p as int,
                    self.params(),
                    level as int,
                    node.deep_view(),
                ),
            decreases self.tokens@.len() - p,
        {
            level = level + 1;
            match self.check_depth(p, level) {
                Ok(_) => {},
                Err(error) => {
                    return Err(error);
                },
            }
            let (rhs, after) = match self.parse_and_expr(p + 1, level) {
                Ok(read) => read,
                Err(error) => {
                    return Err(error);
                },
            };
            let span = node.span().to(rhs.span());
            node = MatchExpr::Or { lhs: Box::new(node), rhs: Box::new(rhs), span };
            p = after;
        }
        Ok((node, p))
    }

    fn parse_and_expr(&self, pos: usize, depth: usize) -> (r: Result<
        (MatchExpr, usize),
        ParseError,
    >)
        requires
            self.can_read(pos),
            depth <= MAX_MATCH_EXPR_DEPTH,
        ensures
            at(r) == read_and(self.ts(), pos as int, self.params(), depth as int),
            advances(r, pos, self.tokens@.len()),
        decreases self.tokens@.len() - pos, 2int,
    {
        let (first, next) = match self.parse_unary(pos, depth) {
            Ok(read) => read,
            Err(error) => {
                return Err(error);
            },
        };
        let mut node = first;
        let mut p: usize = next;
        let mut level: usize = depth;
        while self.kind(p) == TokenKind::AmpAmp
            invariant
                self.can_read(p),
                pos < p,
                level <= MAX_MATCH_EXPR_DEPTH,
                read_and(self.ts(), pos as int, self.params(), depth as int) == read_and_rest(
                    self.ts(),
                    p as int,
                    self.params(),
                    level as int,
                    node.deep_view(),
                ),
            decreases self.tokens@.len() - p,
        {
            level = level + 1;
            match self.check_depth(p, level) {
                Ok(_) => {},
                Err(error) => {
                    return Err(error);
                },
            }
            let (rhs, after) = match self.parse_unary(p + 1, level) {
                Ok(read) => read,
                Err(error) => {
                    return Err(error);
                },
            };
            let span = node.span().to(rhs.span());
            node = MatchExpr::And { lhs: Box::new(node), rhs: Box::new(rhs), span };
            p = after;
        }
        Ok((node, p))
    }

    fn parse_unary(&self, pos: usize, depth: usize) -> (r: Result<(MatchExpr, usize), ParseError>)
        requires
            self.can_read(pos),
            depth <= MAX_MATCH_EXPR_DEPTH,
        ensures
            at(r) == read_unary(self.ts(), pos as int, self.params(), depth as int),
            advances(r, pos, self.tokens@.len()),
        decreases self.tokens@.len() - pos, 1int,
    {
        if self.kind(pos) != TokenKind::Bang {
            return self.parse_primary(pos, depth);
        }
        match self.check_depth(pos, depth + 1) {
            Ok(_) => {},
            Err(error) => {
                return Err(error);
            },
        }
        match self.parse_unary(pos + 1, depth + 1) {
            Ok((operand, end)) => {
                let span = self.span_at(pos).to(operand.span());
                Ok((MatchExpr::Not { operand: Box::new(operand), span }, end))
            },
            Err(error) => Err(error),
        }
    }

    fn parse_primary(&self, pos: usize, depth: usize) -> (r: Result<
        (MatchExpr, usize),
        ParseError,
    >)
        requires
            self.can_read(pos),
            depth <= MAX_MATCH_EXPR_DEPTH,
        ensures
            at(r) == read_primary(self.ts(), pos as int, self.params(), depth as int),
            advances(r, pos, self.tokens@.len()),
        decreases self.tokens@.len() - pos, 0int,
    {
        match self.kind(pos) {
            TokenKind::LParen => {
                match self.check_depth(pos, depth + 1) {
                    Ok(_) => {},
                    Err(error) => {
                        return Err(error);
                    },
                }
                let (inner, last) = match self.parse_or_expr(pos + 1, depth + 1) {
                    Ok(read) => read,
                    Err(error) => {
                        return Err(error);
                    },
                };
                match self.expect(last, TokenKind::RParen) {
                    Ok((close, end)) => {
                        let span = self.span_at(pos).to(close.span);
                        Ok((MatchExpr::Group { inner: Box::new(inner), span }, end))
                    },
                    Err(error) => Err(error),
                }
            },
            TokenKind::Ident => self.parse_matcher(pos),
            _ => Err(
                self.described(
                    pos,
                    "a rule matcher, `!`, or `(` — for example `Host(\"example.com\")`",
                ),
            ),
        }
    }

    fn parse_matcher(&self, pos: usize) -> (r: Result<(MatchExpr, usize), ParseError>)
        requires
            self.can_read(pos),
            self.ts()[pos as int].kind == TokenKind::Ident,
        ensures
            at(r) == read_matcher(self.ts(), pos as int, self.params()),
            advances(r, pos, self.tokens@.len()),
    {
        let kind = self.kind(pos);
        let tok = self.token(pos);
        if self.kind(pos + 1) != TokenKind::LParen {
            return Err(
                self.described(
                    pos,
                    "a rule matcher — its arguments go in parentheses, as `Host(\"example.com\")`",
                ),
            );
        }
        let (args, last) = if self.kind(pos + 2) == TokenKind::RParen {
            (no_items(), pos + 2)
        } else {
            match self.parse_items::<References>(pos + 2) {
                Ok(read) => read,
                Err(error) => {
                    return Err(error);
                },
            }
        };
        let (close, end) = match self.expect(last, TokenKind::RParen) {
            Ok(read) => read,
            Err(error) => {
                return Err(error);
            },
        };
        let span = tok.span.to(close.span);
        let name = Ident { name: tok.lexeme.clone(), span: tok.span };
        match lookup(name.name.as_str()) {
            None => Err(ParseError::UnknownMatcher { name: name.name, span: name.span }),
            Some(matcher) => if args.len() != matcher.arity {
                Err(
                    ParseError::MatcherArity {
                        name: matcher.name,
                        expected: matcher.arity,
                        found: args.len(),
                        span,
                    },
                )
            } else {
                Ok((MatchExpr::Matcher { name, args, span }, end))
            },
        }
    }
}

/// How many negations and parentheses stand around the innermost matcher.
pub open spec fn nesting(rule: MatchExprV) -> int
    decreases rule,
{
    match rule {
        MatchExprV::Or { lhs, rhs, .. } => if nesting(*lhs) < nesting(*rhs) {
            nesting(*rhs)
        } else {
            nesting(*lhs)
        },
        MatchExprV::And { lhs, rhs, .. } => if nesting(*lhs) < nesting(*rhs) {
            nesting(*rhs)
        } else {
            nesting(*lhs)
        },
        MatchExprV::Not { operand, .. } => nesting(*operand) + 1,
        MatchExprV::Group { inner, .. } => nesting(*inner) + 1,
        MatchExprV::Matcher { .. } => 0,
    }
}

/// Whether the tree is the one that its text, written out with the
/// parentheses of its groups and no others, is read as: `!` binds tighter
/// than `&&`, that tighter than `||`, and chains fold to the left.
pub open spec fn binds_in_order(rule: MatchExprV) -> bool
    decreases rule,
{
    match rule {
        MatchExprV::Or { lhs, rhs, .. } => {
            &&& !(*rhs is Or)
            &&& binds_in_order(*lhs)
            &&& binds_in_order(*rhs)
        },
        MatchExprV::And { lhs, rhs, .. } => {
            &&& !(*lhs is Or)
            &&& !(*rhs is Or)
            &&& !(*rhs is And)
            &&& binds_in_order(*lhs)
            &&& binds_in_order(*rhs)
        },
        MatchExprV::Not { operand, .. } => {
            &&& !(*operand is Or)
            &&& !(*operand is And)
            &&& binds_in_order(*operand)
        },
        MatchExprV::Group { inner, .. } => binds_in_order(*inner),
        MatchExprV::Matcher { .. } => true,
    }
}

/// Whether every matcher of a rule is one of the table's, with as many
/// arguments as it takes.
pub open spec fn matchers_fit(rule: MatchExprV) -> bool
    decreases rule,
{
    match rule {
        MatchExprV::Or { lhs, rhs, .. } => matchers_fit(*lhs) && matchers_fit(*rhs),
        MatchExprV::And { lhs, rhs, .. } => matchers_fit(*lhs) && matchers_fit(*rhs),
        MatchExprV::Not { operand, .. } => matchers_fit(*operand),
        MatchExprV::Group { inner, .. } => matchers_fit(*inner),
        MatchExprV::Matcher { name, args, .. } => matcher_named(name.name) matches Some(matcher)
            && args.len() == matcher.arity,
    }
}

/// What holds of every rule read at a depth.
pub open spec fn rule_sound(rule: MatchExprV, depth: int) -> bool {
    &&& nesting(rule) + depth <= MAX_MATCH_EXPR_DEPTH
    &&& binds_in_order(rule)
    &&& matchers_fit(rule)
}

proof fn lemma_primary_sound(ts: Seq<TokenV>, p: int, params: Option<Seq<ParamV>>, depth: int)
    requires
        depth <= MAX_MATCH_EXPR_DEPTH,
    ensures
        read_primary(ts, p, params, depth) matches Ok((rule, _)) ==> rule_sound(rule, depth)
            && !(rule is Or) && !(rule is And),
    decreases ts.len() - p, 0int,
{
    if ts[p].kind == TokenKind::LParen && p + 1 < ts.len() {
        if depth + 1 <= MAX_MATCH_EXPR_DEPTH {
            lemma_or_sound(ts, p + 1, params, depth + 1);
        }
    }
}

proof fn lemma_unary_sound(ts: Seq<TokenV>, p: int, params: Option<Seq<ParamV>>, depth: int)
    requires
        depth <= MAX_MATCH_EXPR_DEPTH,
    ensures
        read_unary(ts, p, params, depth) matches Ok((rule, _)) ==> rule_sound(rule, depth)
            && !(rule is Or) && !(rule is And),
    decreases ts.len() - p, 1int,
{
    if ts[p].kind == TokenKind::Bang && p + 1 < ts.len() {
        if depth + 1 <= MAX_MATCH_EXPR_DEPTH {
            lemma_unary_sound(ts, p + 1, params, depth + 1);
        }
    } else {
        lemma_primary_sound(ts, p, params, depth);
    }
}

proof fn lemma_and_rest_sound(
    ts: Seq<TokenV>,
    p: int,
    params: Option<Seq<ParamV>>,
    level: int,
    node: MatchExprV,
    depth: int,
)
    requires
        depth <= level,
        rule_sound(node, depth),
        !(node is Or),
    ensures
        read_and_rest(ts, p, params, level, node) matches Ok((rule, _)) ==> rule_sound(rule, depth)
            && !(rule is Or),
    decreases ts.len() - p, 2int,
{
    if ts[p].kind == TokenKind::AmpAmp && p + 1 < ts.len() && level + 1 <= MAX_MATCH_EXPR_DEPTH {
        lemma_unary_sound(ts, p + 1, params, level + 1);
        if let Ok((rhs, next)) = read_unary(ts, p + 1, params, level + 1) {
            let folded = MatchExprV::And {
                lhs: Box::new(node),
                rhs: Box::new(rhs),
                span: joined(node.span(), rhs.span()),
            };
            if p < next && next < ts.len() {
                lemma_and_rest_sound(ts, next, params, level + 1, folded, depth);
            }
        }
    }
}

proof fn lemma_and_sound(ts: Seq<TokenV>, p: int, params: Option<Seq<ParamV>>, depth: int)
    requires
        depth <= MAX_MATCH_EXPR_DEPTH,
    ensures
        read_and(ts, p, params, depth) matches Ok((rule, _)) ==> rule_sound(rule, depth)
            && !(rule is Or),
    decreases ts.len() - p, 3int,
{
    lemma_unary_sound(ts, p, params, depth);
    if let Ok((node, next)) = read_unary(ts, p, params, depth) {
        if p < next && next < ts.len() {
            lemma_and_rest_sound(ts, next, params, depth, node, depth);
        }
    }
}

proof fn lemma_or_rest_sound(
    ts: Seq<TokenV>,
    p: int,
    params: Option<Seq<ParamV>>,
    level: int,
    node: MatchExprV,
    depth: int,
)
    requires
        depth <= level,
        rule_sound(node, depth),
    ensures
        read_or_rest(ts, p, params, level, node) matches Ok((rule, _)) ==> rule_sound(rule, depth),
    decreases ts.len() - p, 4int,
{
    if ts[p].kind == TokenKind::PipePipe && p + 1 < ts.len() && level + 1 <= MAX_MATCH_EXPR_DEPTH {
        lemma_and_sound(ts, p + 1, params, level + 1);
        if let Ok((rhs, next)) = read_and(ts, p + 1, params, level + 1) {
            let folded = MatchExprV::Or {
                lhs: Box::new(node),
                rhs: Box::new(rhs),
                span: joined(node.span(), rhs.span()),
            };
            if p < next && next < ts.len() {
                lemma_or_rest_sound(ts, next, params, level + 1, folded, depth);
            }
        }
    }
}

proof fn lemma_or_sound(ts: Seq<TokenV>, p: int, params: Option<Seq<ParamV>>, depth: int)
    requires
        depth <= MAX_MATCH_EXPR_DEPTH,
    ensures
        read_or(ts, p, params, depth) matches Ok((rule, _)) ==> rule_sound(rule, depth),
    decreases ts.len() - p, 5int,
{
    lemma_and_sound(ts, p, params, depth);
    if let Ok((node, next)) = read_and(ts, p, params, depth) {
        if p < next && next < ts.len() {
            lemma_or_rest_sound(ts, next, params, depth, node, depth);
        }
    }
}

/// Every rule that is read nests its negations and parentheses no deeper
/// than the limit, binds its operators in their order, and names only
/// matchers that exist, each with as many arguments as it takes.
pub proof fn law_rules_are_sound(ts: Seq<TokenV>, p: int, params: Option<Seq<ParamV>>)
    ensures
        read_rule(ts, p, params) matches Ok((rule, _)) ==> nesting(rule) <= MAX_MATCH_EXPR_DEPTH
            && binds_in_order(rule) && matchers_fit(rule),
{
    lemma_or_sound(ts, past_colon(ts, p), params, 0);
}

} // verus!
