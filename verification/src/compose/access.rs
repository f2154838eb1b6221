//! Field accesses: `proxy.name`, `traefik.proxy.name`, `$net.name`, and
//! their `{{...}}` spellings, each resolved to the text it reads off a
//! declaration.
//!
//! An import alias means something only in the file it was written in, so
//! a body's own accesses are resolved there before anything is
//! substituted into it; what a parameter stands for is known once an
//! invocation has bound it.

use vstd::prelude::*;
use vstd::string::*;

use crate::ast::{
    FieldAccess, FieldAccessV, Ident, IdentV, Literal, LiteralV, Network, QualifiedRef,
    QualifiedRefV, RawEntry, RawEntryV, RawMap, RawMapV, RawValue, ServiceFields, ServiceFieldsV,
    TemplateInvocation, TemplateInvocationV, Volume,
};
use crate::compose::interpolate::{answer_view, resolve_by, BindingLookup};
use crate::compose::resolver::{
    declaration_field, declared, field_read, find_decl, DeclarationsV, SymbolResolver, SymbolTable,
    Symbols,
};
use crate::compose::slots::{passed_raw, LiteralPass, Slots, Walk};
use crate::compose::substitute::{char_at, find_char};
use crate::compose_error::{ComposeError, ComposeErrorV};
use crate::deep::{no_items, outcome, push_to, Duplicate};
use crate::interp::resolved;
use crate::source::Span;
use crate::text::chars_of;

verus! {

/// Text read off a declaration, as an answer.
pub open spec fn read_answer(r: Result<Seq<char>, ComposeErrorV>) -> Result<
    Option<Seq<char>>,
    ComposeErrorV,
> {
    match r {
        Ok(text) => Ok(Some(text)),
        Err(error) => Err(error),
    }
}

/// The text a field access stands for, or nothing while its base is a
/// parameter. A qualified base is a network or else a volume of the file
/// it is imported from; any other base names, by its text, one of the
/// program's own declarations.
pub open spec fn access_text<S>(
    access: FieldAccessV,
    scope: S,
    table: SymbolTable<S>,
    decls: DeclarationsV,
) -> Result<Option<Seq<char>>, ComposeErrorV> {
    match access.base {
        LiteralV::Param(_, _) => Ok(None),
        LiteralV::Qualified(q) => match table.network(scope, q.qualifier, q.name, q.span) {
            Ok(network) => read_answer(field_read::<Network>(network, access.field)),
            Err(ComposeErrorV::UnknownQualifiedNetwork { .. }) => match table.volume(
                scope,
                q.qualifier,
                q.name,
                q.span,
            ) {
                Ok(volume) => read_answer(field_read::<Volume>(volume, access.field)),
                Err(ComposeErrorV::UnknownQualifiedVolume { .. }) => Err(
                    ComposeErrorV::UnknownQualifiedDeclaration {
                        alias: q.qualifier.name,
                        name: q.name,
                        span: access.span,
                    },
                ),
                Err(other) => Err(other),
            },
            Err(other) => Err(other),
        },
        base => match declared::<Network>(decls.networks, base.text()) {
            Some(network) => read_answer(field_read::<Network>(network, access.field)),
            None => match declared::<Volume>(decls.volumes, base.text()) {
                Some(volume) => read_answer(field_read::<Volume>(volume, access.field)),
                None => if decls.services.contains(base.text()) {
                    Err(
                        ComposeErrorV::FieldBaseNotDeclaration {
                            base: base.text(),
                            found: "a service"@,
                            span: access.span,
                        },
                    )
                } else {
                    Err(
                        ComposeErrorV::FieldBaseNotDeclared {
                            base: base.text(),
                            span: access.span,
                        },
                    )
                },
            },
        },
    }
}

fn read_result(r: Result<String, ComposeError>) -> (out: Result<Option<String>, ComposeError>)
    ensures
        answer_view(out) == read_answer(outcome(r)),
{
    match r {
        Ok(text) => Ok(Some(text)),
        Err(error) => Err(error),
    }
}

fn resolve_field_access<R: SymbolResolver>(
    access: &FieldAccess,
    scope: R::Scope,
    symbols: &Symbols<'_, R>,
) -> (r: Result<Option<String>, ComposeError>)
    ensures
        answer_view(r) == access_text(
            access.deep_view(),
            scope,
            symbols.resolver.table(),
            symbols.decls.deep_view(),
        ),
{
    match &access.base {
        Literal::Param(_, _) => Ok(None),
        Literal::Qualified(q) => match symbols.resolver.resolve_qualified_network(
            scope,
            &q.qualifier,
            q.name.as_str(),
            q.span,
        ) {
            Ok(network) => read_result(declaration_field(network, &access.field)),
            Err(ComposeError::UnknownQualifiedNetwork { .. }) => {
                match symbols.resolver.resolve_qualified_volume(
                    scope,
                    &q.qualifier,
                    q.name.as_str(),
                    q.span,
                ) {
                    Ok(volume) => read_result(declaration_field(volume, &access.field)),
                    Err(ComposeError::UnknownQualifiedVolume { .. }) => Err(
                        ComposeError::UnknownQualifiedDeclaration {
                            alias: q.qualifier.name.clone(),
                            name: q.name.clone(),
                            span: access.span,
                        },
                    ),
                    Err(other) => Err(other),
                }
            },
            Err(other) => Err(other),
        },
        base => {
            let name = base.text();
            match find_decl(symbols.decls.networks, name) {
                Some(network) => read_result(declaration_field(network, &access.field)),
                None => match find_decl(symbols.decls.volumes, name) {
                    Some(volume) => read_result(declaration_field(volume, &access.field)),
                    None => if symbols.decls.is_service(name) {
                        Err(
                            ComposeError::FieldBaseNotDeclaration {
                                base: name.to_owned(),
                                found: "a service",
                                span: access.span,
                            },
                        )
                    } else {
                        Err(
                            ComposeError::FieldBaseNotDeclared {
                                base: name.to_owned(),
                                span: access.span,
                            },
                        )
                    },
                },
            }
        },
    }
}

/// The field access a dotted binding spells, if it is dotted:
/// `decl.field` with one dot, `alias.decl.field` with two, and too deep
/// with more. Every place in it is that of the string around it.
pub open spec fn access_spelled(binding: Seq<char>, span: Span) -> Result<
    Option<FieldAccessV>,
    ComposeErrorV,
> {
    let n = binding.len() as int;
    let one = char_at(binding, '.', 0);
    let two = char_at(binding, '.', one + 1);
    let three = char_at(binding, '.', two + 1);
    if one >= n {
        Ok(None)
    } else if two >= n {
        Ok(
            Some(
                FieldAccessV {
                    base: LiteralV::Ident(binding.subrange(0, one), span),
                    field: IdentV { name: binding.subrange(one + 1, n), span },
                    span,
                },
            ),
        )
    } else if three >= n {
        Ok(
            Some(
                FieldAccessV {
                    base: LiteralV::Qualified(
                        QualifiedRefV {
                            qualifier: IdentV { name: binding.subrange(0, one), span },
                            name: binding.subrange(one + 1, two),
                            name_span: span,
                            span,
                        },
                    ),
                    field: IdentV { name: binding.subrange(two + 1, n), span },
                    span,
                },
            ),
        )
    } else {
        Err(ComposeErrorV::InterpolatedFieldAccessTooDeep { text: binding, span })
    }
}

/// An access that may be absent, seen through the views of its two sides.
pub open spec fn spelling_view(r: Result<Option<FieldAccess>, ComposeError>) -> Result<
    Option<FieldAccessV>,
    ComposeErrorV,
> {
    match r {
        Ok(access) => Ok(access.deep_view()),
        Err(error) => Err(error.deep_view()),
    }
}

fn binding_field_access(binding: &str, span: Span) -> (r: Result<
    Option<FieldAccess>,
    ComposeError,
>)
    ensures
        spelling_view(r) == access_spelled(binding@, span),
{
    let chars = chars_of(binding);
    let n = chars.len();
    let one = find_char(&chars, '.', 0);
    if one == n {
        return Ok(None);
    }
    let two = find_char(&chars, '.', one + 1);
    if two == n {
        return Ok(
            Some(
                FieldAccess {
                    base: Literal::Ident(binding.substring_char(0, one).to_owned(), span),
                    field: Ident { name: binding.substring_char(one + 1, n).to_owned(), span },
                    span,
                },
            ),
        );
    }
    let three = find_char(&chars, '.', two + 1);
    if three == n {
        return Ok(
            Some(
                FieldAccess {
                    base: Literal::Qualified(
                        Box::new(
                            QualifiedRef {
                                qualifier: Ident {
                                    name: binding.substring_char(0, one).to_owned(),
                                    span,
                                },
                                name: binding.substring_char(one + 1, two).to_owned(),
                                name_span: span,
                                span,
                            },
                        ),
                    ),
                    field: Ident { name: binding.substring_char(two + 1, n).to_owned(), span },
                    span,
                },
            ),
        );
    }
    Err(ComposeError::InterpolatedFieldAccessTooDeep { text: binding.to_owned(), span })
}

/// Which accesses a pass claims: neither the head of a binding nor the
/// base of an access says whether it is a parameter, a declaration or an
/// alias.
#[derive(Clone, Copy, PartialEq, Eq, Structural)]
pub enum AccessScope {
    /// A body as written: every access that is a whole value, and of the
    /// bindings the qualified ones, whose head cannot be a parameter.
    Written,
    /// A body with an invocation's arguments in it: what those arguments
    /// put there, which is qualified.
    Substituted,
    /// A finished service: whatever is left.
    Bound,
}

impl AccessScope {
    /// Whether a whole-value access with this base is claimed.
    pub open spec fn claims_base(self, base: LiteralV) -> bool {
        self != AccessScope::Substituted || base is Qualified
    }

    /// Whether a binding that reads as an access with this base is
    /// claimed.
    pub open spec fn claims_binding_base(self, base: LiteralV) -> bool {
        self == AccessScope::Bound || base is Qualified
    }

    fn claims(self, base: &Literal) -> (r: bool)
        ensures
            r == self.claims_base(base.deep_view()),
    {
        match self {
            AccessScope::Written => true,
            AccessScope::Bound => true,
            AccessScope::Substituted => match base {
                Literal::Qualified(_) => true,
                _ => false,
            },
        }
    }

    fn claims_binding(self, base: &Literal) -> (r: bool)
        ensures
            r == self.claims_binding_base(base.deep_view()),
    {
        match self {
            AccessScope::Bound => true,
            _ => match base {
                Literal::Qualified(_) => true,
                _ => false,
            },
        }
    }
}

/// What a pass over field accesses answers to a binding in a string that
/// stands at `span`.
pub open spec fn access_answer<S>(
    binding: Seq<char>,
    span: Span,
    stage: AccessScope,
    scope: S,
    table: SymbolTable<S>,
    decls: DeclarationsV,
) -> Result<Option<Seq<char>>, ComposeErrorV> {
    match access_spelled(binding, span) {
        Err(error) => Err(error),
        Ok(None) => Ok(None),
        Ok(Some(access)) => if stage.claims_binding_base(access.base) {
            access_text(access, scope, table, decls)
        } else {
            Ok(None)
        },
    }
}

/// What a pass over field accesses answers to each binding.
pub open spec fn access_answers<S>(
    span: Span,
    stage: AccessScope,
    scope: S,
    table: SymbolTable<S>,
    decls: DeclarationsV,
) -> spec_fn(Seq<char>) -> Result<Option<Seq<char>>, ComposeErrorV> {
    |binding: Seq<char>| access_answer(binding, span, stage, scope, table, decls)
}

/// The bindings of one string, as a pass over field accesses answers
/// them.
pub struct AccessBindings<'a, R: SymbolResolver> {
    pub pass: &'a AccessPass<'a, R>,
    pub span: Span,
}

impl<'a, R: SymbolResolver> BindingLookup for AccessBindings<'a, R> {
    open spec fn answers(&self) -> spec_fn(Seq<char>) -> Result<Option<Seq<char>>, ComposeErrorV> {
        access_answers(
            self.span,
            self.pass.stage,
            self.pass.scope,
            self.pass.symbols.resolver.table(),
            self.pass.symbols.decls.deep_view(),
        )
    }

    fn answer(&self, binding: &str) -> (r: Result<Option<String>, ComposeError>) {
        match binding_field_access(binding, self.span) {
            Err(error) => Err(error),
            Ok(None) => Ok(None),
            Ok(Some(access)) => if self.pass.stage.claims_binding(&access.base) {
                resolve_field_access(&access, self.pass.scope, self.pass.symbols)
            } else {
                Ok(None)
            },
        }
    }
}

/// What becomes of a literal when its field accesses are resolved: the
/// literal itself, if it is one, and any dotted binding inside a string.
pub open spec fn access_resolved<S>(
    lit: LiteralV,
    stage: AccessScope,
    scope: S,
    table: SymbolTable<S>,
    decls: DeclarationsV,
) -> Result<LiteralV, ComposeErrorV> {
    match lit {
        LiteralV::Field(access) => if stage.claims_base(access.base) {
            match access_text(*access, scope, table, decls) {
                Ok(Some(text)) => Ok(LiteralV::Str(text, access.span)),
                Ok(None) => Ok(lit),
                Err(error) => Err(error),
            }
        } else {
            Ok(lit)
        },
        LiteralV::Str(text, span) => match resolved(
            text,
            access_answers(span, stage, scope, table, decls),
        ) {
            Ok(content) => Ok(LiteralV::Str(content, span)),
            Err(error) => Err(error),
        },
        _ => Ok(lit),
    }
}

/// Resolves field accesses, in the scope they mean something in.
pub struct AccessPass<'a, R: SymbolResolver> {
    pub symbols: &'a Symbols<'a, R>,
    pub scope: R::Scope,
    pub stage: AccessScope,
}

/// The view of [`AccessPass`].
#[verifier::reject_recursive_types(S)]
pub struct AccessPassV<S> {
    pub table: SymbolTable<S>,
    pub decls: DeclarationsV,
    pub scope: S,
    pub stage: AccessScope,
}

impl<'a, R: SymbolResolver> DeepView for AccessPass<'a, R> {
    type V = AccessPassV<R::Scope>;

    open spec fn deep_view(&self) -> AccessPassV<R::Scope> {
        AccessPassV {
            table: self.symbols.resolver.table(),
            decls: self.symbols.decls.deep_view(),
            scope: self.scope,
            stage: self.stage,
        }
    }
}

impl<'a, R: SymbolResolver> LiteralPass for AccessPass<'a, R> {
    open spec fn rewrites(
        pass: AccessPassV<R::Scope>,
        lit: LiteralV,
    ) -> Result<LiteralV, ComposeErrorV> {
        access_resolved(lit, pass.stage, pass.scope, pass.table, pass.decls)
    }

    fn rewrite(&self, lit: &Literal) -> (r: Result<Literal, ComposeError>) {
        match lit {
            Literal::Field(access) => if self.stage.claims(&access.base) {
                match resolve_field_access(&**access, self.scope, self.symbols) {
                    Ok(Some(text)) => Ok(Literal::Str(text, access.span)),
                    Ok(None) => Ok(lit.duplicate()),
                    Err(error) => Err(error),
                }
            } else {
                Ok(lit.duplicate())
            },
            Literal::Str(text, span) => match resolve_by(
                text.as_str(),
                &AccessBindings { pass: self, span: *span },
            ) {
                Ok(content) => Ok(Literal::Str(content, *span)),
                Err(error) => Err(error),
            },
            _ => Ok(lit.duplicate()),
        }
    }

    proof fn lemma_rewrites_within(
        pass: AccessPassV<R::Scope>,
        lit: LiteralV,
        names: Set<Seq<char>>,
    ) {
    }
}

/// What becomes of a literal in an argument: a field access `base.name`
/// whose base is no declaration of the program but an alias is the
/// imported declaration it names. Where the base is no alias either, it
/// stays a field access.
pub open spec fn reinterpreted<S>(
    lit: LiteralV,
    scope: S,
    table: SymbolTable<S>,
    decls: DeclarationsV,
) -> Result<LiteralV, ComposeErrorV> {
    match lit {
        LiteralV::Field(access) => match access.base {
            LiteralV::Ident(base, base_span) => {
                let qualifier = IdentV { name: base, span: base_span };
                let found = LiteralV::Qualified(
                    QualifiedRefV {
                        qualifier,
                        name: access.field.name,
                        name_span: access.field.span,
                        span: access.span,
                    },
                );
                if decls.declares(base) {
                    Ok(lit)
                } else {
                    match table.network(scope, qualifier, access.field.name, access.span) {
                        Ok(_) => Ok(found),
                        Err(ComposeErrorV::UnknownQualifiedNetwork { .. }) => match table.volume(
                            scope,
                            qualifier,
                            access.field.name,
                            access.span,
                        ) {
                            Ok(_) => Ok(found),
                            Err(ComposeErrorV::UnknownQualifiedVolume { .. }) => Err(
                                ComposeErrorV::UnknownQualifiedDeclaration {
                                    alias: base,
                                    name: access.field.name,
                                    span: access.span,
                                },
                            ),
                            Err(other) => Err(other),
                        },
                        Err(_) => Ok(lit),
                    }
                }
            },
            _ => Ok(lit),
        },
        _ => Ok(lit),
    }
}

/// Reads `alias.decl` in an argument as the declaration it names.
pub struct ReinterpretPass<'a, R: SymbolResolver> {
    pub symbols: &'a Symbols<'a, R>,
    pub scope: R::Scope,
}

/// The view of [`ReinterpretPass`].
#[verifier::reject_recursive_types(S)]
pub struct ReinterpretPassV<S> {
    pub table: SymbolTable<S>,
    pub decls: DeclarationsV,
    pub scope: S,
}

impl<'a, R: SymbolResolver> DeepView for ReinterpretPass<'a, R> {
    type V = ReinterpretPassV<R::Scope>;

    open spec fn deep_view(&self) -> ReinterpretPassV<R::Scope> {
        ReinterpretPassV {
            table: self.symbols.resolver.table(),
            decls: self.symbols.decls.deep_view(),
            scope: self.scope,
        }
    }
}

impl<'a, R: SymbolResolver> LiteralPass for ReinterpretPass<'a, R> {
    open spec fn rewrites(pass: ReinterpretPassV<R::Scope>, lit: LiteralV) -> Result<
        LiteralV,
        ComposeErrorV,
    > {
        reinterpreted(lit, pass.scope, pass.table, pass.decls)
    }

    fn rewrite(&self, lit: &Literal) -> (r: Result<Literal, ComposeError>) {
        proof {
            reveal_with_fuel(crate::ast::literal_view, 2);
        }
        let access = match lit {
            Literal::Field(access) => access,
            _ => {
                return Ok(lit.duplicate());
            },
        };
        let (base, base_span) = match &access.base {
            Literal::Ident(base, base_span) => (base, *base_span),
            _ => {
                return Ok(lit.duplicate());
            },
        };
        if self.symbols.decls.declares(base.as_str()) {
            return Ok(lit.duplicate());
        }
        let qualifier = Ident { name: base.clone(), span: base_span };
        let name = access.field.name.as_str();
        match self.symbols.resolver.resolve_qualified_network(
            self.scope,
            &qualifier,
            name,
            access.span,
        ) {
            Ok(_) => {},
            Err(ComposeError::UnknownQualifiedNetwork { .. }) => {
                match self.symbols.resolver.resolve_qualified_volume(
                    self.scope,
                    &qualifier,
                    name,
                    access.span,
                ) {
                    Ok(_) => {},
                    Err(ComposeError::UnknownQualifiedVolume { .. }) => {
                        return Err(
                            ComposeError::UnknownQualifiedDeclaration {
                                alias: qualifier.name,
                                name: name.to_owned(),
                                span: access.span,
                            },
                        );
                    },
                    Err(other) => {
                        return Err(other);
                    },
                }
            },
            Err(_) => {
                return Ok(lit.duplicate());
            },
        }
        Ok(
            Literal::Qualified(
                Box::new(
                    QualifiedRef {
                        qualifier,
                        name: name.to_owned(),
                        name_span: access.field.span,
                        span: access.span,
                    },
                ),
            ),
        )
    }

    proof fn lemma_rewrites_within(
        pass: ReinterpretPassV<R::Scope>,
        lit: LiteralV,
        names: Set<Seq<char>>,
    ) {
    }
}

/// The arguments from index `i` on with their values, not their names,
/// after a pass.
pub open spec fn passed_args<P: LiteralPass>(
    entries: Seq<RawEntryV>,
    i: int,
    before: Seq<RawEntryV>,
    pass: P::V,
) -> Result<Seq<RawEntryV>, ComposeErrorV>
    decreases entries.len() - i,
{
    if i >= entries.len() {
        Ok(before)
    } else {
        match passed_raw::<P>(entries[i].value, pass) {
            Ok(value) => passed_args::<P>(
                entries,
                i + 1,
                before.push(RawEntryV { value, ..entries[i] }),
                pass,
            ),
            Err(error) => Err(error),
        }
    }
}

/// The invocations from index `i` on with their arguments after a pass.
pub open spec fn passed_invocations<P: LiteralPass>(
    invocations: Seq<TemplateInvocationV>,
    i: int,
    before: Seq<TemplateInvocationV>,
    pass: P::V,
) -> Result<Seq<TemplateInvocationV>, ComposeErrorV>
    decreases invocations.len() - i,
{
    if i >= invocations.len() {
        Ok(before)
    } else {
        match passed_args::<P>(invocations[i].args.entries, 0, Seq::empty(), pass) {
            Ok(entries) => passed_invocations::<P>(
                invocations,
                i + 1,
                before.push(TemplateInvocationV { args: RawMapV { entries }, ..invocations[i] }),
                pass,
            ),
            Err(error) => Err(error),
        }
    }
}

fn pass_args<P: LiteralPass>(entries: &Vec<RawEntry>, pass: &P) -> (r: Result<
    Vec<RawEntry>,
    ComposeError,
>)
    ensures
        outcome(r) == passed_args::<P>(entries.deep_view(), 0, Seq::empty(), pass.deep_view()),
{
    let mut out: Vec<RawEntry> = no_items();
    let mut i: usize = 0;
    while i < entries.len()
        invariant
            i <= entries@.len(),
            passed_args::<P>(
                entries.deep_view(),
                0,
                Seq::empty(),
                pass.deep_view(),
            ) == passed_args::<P>(
                entries.deep_view(),
                i as int,
                out.deep_view(),
                pass.deep_view(),
            ),
        decreases entries@.len() - i,
    {
        let entry = &entries[i];
        assert(entries.deep_view()[i as int] == entry.deep_view());
        match entry.value.pass(pass) {
            Ok(value) => {
                push_to(&mut out, RawEntry { key: entry.key.duplicate(), value, span: entry.span });
            },
            Err(error) => {
                return Err(error);
            },
        }
        i = i + 1;
    }
    Ok(out)
}

fn pass_invocations<P: LiteralPass>(invocations: &Vec<TemplateInvocation>, pass: &P) -> (r: Result<
    Vec<TemplateInvocation>,
    ComposeError,
>)
    ensures
        outcome(r) == passed_invocations::<P>(
            invocations.deep_view(),
            0,
            Seq::empty(),
            pass.deep_view(),
        ),
{
    let mut out: Vec<TemplateInvocation> = no_items();
    let mut i: usize = 0;
    while i < invocations.len()
        invariant
            i <= invocations@.len(),
            passed_invocations::<P>(invocations.deep_view(), 0, Seq::empty(), pass.deep_view())
                == passed_invocations::<P>(
                    invocations.deep_view(),
                    i as int,
                    out.deep_view(),
                    pass.deep_view(),
                ),
        decreases invocations@.len() - i,
    {
        let inv = &invocations[i];
        assert(invocations.deep_view()[i as int] == inv.deep_view());
        match pass_args(&inv.args.entries, pass) {
            Ok(entries) => {
                push_to(
                    &mut out,
                    TemplateInvocation {
                        qualifier: inv.qualifier.duplicate(),
                        name: inv.name.duplicate(),
                        args: RawMap { entries },
                        span: inv.span,
                    },
                );
            },
            Err(error) => {
                return Err(error);
            },
        }
        i = i + 1;
    }
    Ok(out)
}

/// A body with every field access in it resolved that the scope it is
/// written in can answer: first its invocations' arguments are read for
/// imported declarations, then every access that is claimed is resolved.
pub open spec fn scoped_accesses<R: SymbolResolver>(
    fields: ServiceFieldsV,
    scope: R::Scope,
    table: SymbolTable<R::Scope>,
    decls: DeclarationsV,
) -> Result<ServiceFieldsV, ComposeErrorV> {
    match passed_invocations::<ReinterpretPass<'_, R>>(
        fields.with,
        0,
        Seq::empty(),
        ReinterpretPassV { table, decls, scope },
    ) {
        Ok(with) => resolved_accesses::<R>(
            ServiceFieldsV { with, ..fields },
            AccessScope::Written,
            scope,
            table,
            decls,
        ),
        Err(error) => Err(error),
    }
}

/// A body with every field access resolved that `stage` claims.
pub open spec fn resolved_accesses<R: SymbolResolver>(
    fields: ServiceFieldsV,
    stage: AccessScope,
    scope: R::Scope,
    table: SymbolTable<R::Scope>,
    decls: DeclarationsV,
) -> Result<ServiceFieldsV, ComposeErrorV> {
    <ServiceFields as Walk<AccessPass<'_, R>>>::passed(
        fields,
        AccessPassV { table, decls, scope, stage },
    )
}

pub(crate) fn resolve_scoped_field_accesses<R: SymbolResolver>(
    fields: &ServiceFields,
    scope: R::Scope,
    symbols: &Symbols<'_, R>,
) -> (r: Result<ServiceFields, ComposeError>)
    ensures
        outcome(r) == scoped_accesses::<R>(
            fields.deep_view(),
            scope,
            symbols.resolver.table(),
            symbols.decls.deep_view(),
        ),
{
    let with = match pass_invocations(&fields.with, &ReinterpretPass { symbols, scope }) {
        Ok(with) => with,
        Err(error) => {
            return Err(error);
        },
    };
    let mut written = fields.duplicate();
    written.with = with;
    assert(written.deep_view() =~= ServiceFieldsV { with: with.deep_view(), ..fields.deep_view() });
    resolve_accesses(&written, AccessScope::Written, scope, symbols)
}

pub(crate) fn resolve_accesses<R: SymbolResolver>(
    fields: &ServiceFields,
    stage: AccessScope,
    scope: R::Scope,
    symbols: &Symbols<'_, R>,
) -> (r: Result<ServiceFields, ComposeError>)
    ensures
        outcome(r) == resolved_accesses::<R>(
            fields.deep_view(),
            stage,
            scope,
            symbols.resolver.table(),
            symbols.decls.deep_view(),
        ),
{
    fields.pass(&AccessPass { symbols, scope, stage })
}

proof fn lemma_passed_args_within<P: LiteralPass>(
    entries: Seq<RawEntryV>,
    i: int,
    before: Seq<RawEntryV>,
    pass: P::V,
    names: Set<Seq<char>>,
)
    requires
        0 <= i,
        Vec::<RawEntry>::within(entries, names),
        Vec::<RawEntry>::within(before, names),
    ensures
        passed_args::<P>(entries, i, before, pass) matches Ok(after) ==> Vec::<RawEntry>::within(
            after,
            names,
        ),
    decreases entries.len() - i,
{
    if i < entries.len() {
        assert(RawEntry::within(entries[i], names));
        <RawValue as Walk<P>>::lemma_passed_within(entries[i].value, pass, names);
        if let Ok(value) = passed_raw::<P>(entries[i].value, pass) {
            let next = RawEntryV { value, ..entries[i] };
            assert(RawEntry::within(next, names));
            lemma_passed_args_within::<P>(entries, i + 1, before.push(next), pass, names);
        }
    }
}

proof fn lemma_passed_invocations_within<P: LiteralPass>(
    invocations: Seq<TemplateInvocationV>,
    i: int,
    before: Seq<TemplateInvocationV>,
    pass: P::V,
    names: Set<Seq<char>>,
)
    requires
        0 <= i,
        Vec::<TemplateInvocation>::within(invocations, names),
        Vec::<TemplateInvocation>::within(before, names),
    ensures
        passed_invocations::<P>(invocations, i, before, pass) matches Ok(after) ==> Vec::<
            TemplateInvocation,
        >::within(after, names),
    decreases invocations.len() - i,
{
    if i < invocations.len() {
        let inv = invocations[i];
        assert(TemplateInvocation::within(inv, names));
        lemma_passed_args_within::<P>(inv.args.entries, 0, Seq::empty(), pass, names);
        if let Ok(entries) = passed_args::<P>(inv.args.entries, 0, Seq::empty(), pass) {
            let next = TemplateInvocationV { args: RawMapV { entries }, ..inv };
            assert(TemplateInvocation::within(next, names));
            lemma_passed_invocations_within::<P>(
                invocations,
                i + 1,
                before.push(next),
                pass,
                names,
            );
        }
    }
}

/// Resolving a body's accesses brings in no parameter.
pub proof fn lemma_resolved_accesses_within<R: SymbolResolver>(
    fields: ServiceFieldsV,
    stage: AccessScope,
    scope: R::Scope,
    table: SymbolTable<R::Scope>,
    decls: DeclarationsV,
    names: Set<Seq<char>>,
)
    requires
        ServiceFields::within(fields, names),
    ensures
        resolved_accesses::<R>(fields, stage, scope, table, decls) matches Ok(after)
            ==> ServiceFields::within(after, names),
{
    <ServiceFields as Walk<AccessPass<'_, R>>>::lemma_passed_within(
        fields,
        AccessPassV { table, decls, scope, stage },
        names,
    );
}

/// Resolving what the scope of a body can answer brings in no parameter.
pub proof fn lemma_scoped_accesses_within<R: SymbolResolver>(
    fields: ServiceFieldsV,
    scope: R::Scope,
    table: SymbolTable<R::Scope>,
    decls: DeclarationsV,
    names: Set<Seq<char>>,
)
    requires
        ServiceFields::within(fields, names),
    ensures
        scoped_accesses::<R>(
            fields,
            scope,
            table,
            decls,
        ) matches Ok(after) ==> ServiceFields::within(
            after,
            names,
        ),
{
    let reader = ReinterpretPassV { table, decls, scope };
    lemma_passed_invocations_within::<ReinterpretPass<'_, R>>(
        fields.with,
        0,
        Seq::empty(),
        reader,
        names,
    );
    if let Ok(with) = passed_invocations::<ReinterpretPass<'_, R>>(
        fields.with,
        0,
        Seq::empty(),
        reader,
    ) {
        let written = ServiceFieldsV { with, ..fields };
        assert(ServiceFields::within(written, names));
        lemma_resolved_accesses_within::<R>(
            written,
            AccessScope::Written,
            scope,
            table,
            decls,
            names,
        );
    }
}

} // verus!
