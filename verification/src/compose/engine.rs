//! Resolving services and the templates they name.

use vstd::laws_eq::obeys_concrete_eq;
use vstd::prelude::*;
use vstd::string::*;

use crate::ast::{
    Network, NetworkV, Param, ParamV, Program, ProgramV, RawEntry, RawEntryV, Service,
    ServiceFields, ServiceFieldsV, ServiceV, TemplateDecl, TemplateDeclV, TemplateInvocation,
    TemplateInvocationV, TopDecl, TopDeclV, Volume, VolumeV,
};
use crate::compose::access::{
    resolve_accesses, resolve_scoped_field_accesses, resolved_accesses, scoped_accesses,
    AccessScope,
};
use crate::compose::merge::{merge_tier, merged_tier, MergeAcc, MergeAccV, Tier, TierV};
use crate::compose::qualify::{
    merge_imported, plain_values, qualified_references, reject_qualified_values,
    resolve_qualified_references, with_imported, Imports, ImportsV,
};
use crate::compose::resolver::{
    decl_index, find_decl, same_scope, single_file_table, Declarations, DeclarationsV,
    SingleFileResolver, SymbolResolver, SymbolTable, Symbols,
};
use crate::compose::slots::Slots;
use crate::compose::substitute::{arg_from, not_a_number, numeric_mismatch, Call, CallV};
use crate::compose_error::{ComposeError, ComposeErrorV};
use crate::deep::{no_items, outcome, push_to, Duplicate};
use crate::source::{SourceMap, Span};
use crate::text::same_text;
use crate::warning::{ComposeWarning, ComposeWarningV};

verus! {

/// How many templates a chain of `with` lists may nest.
///
/// A chain that repeats no template is no cycle, yet each template in it
/// is one more level of recursion, so it has to end somewhere.
pub const MAX_TEMPLATE_DEPTH: usize = 64;

/// A template by the scope it is declared in and its name.
pub struct TemplateKey<S> {
    pub scope: S,
    pub name: String,
}

/// The view of [`TemplateKey`].
#[verifier::ext_equal]
pub struct TemplateKeyV<S> {
    pub scope: S,
    pub name: Seq<char>,
}

impl<S> DeepView for TemplateKey<S> {
    type V = TemplateKeyV<S>;

    open spec fn deep_view(&self) -> TemplateKeyV<S> {
        TemplateKeyV { scope: self.scope, name: self.name@ }
    }
}

impl<S: Copy> Duplicate for TemplateKey<S> {
    fn duplicate(&self) -> (r: Self) {
        TemplateKey { scope: self.scope, name: self.name.clone() }
    }
}

/// A template resolved once, its parameters still in it.
pub struct CachedTemplate<S> {
    pub key: TemplateKey<S>,
    pub fields: ServiceFields,
}

/// The view of [`CachedTemplate`].
#[verifier::ext_equal]
pub struct CachedTemplateV<S> {
    pub key: TemplateKeyV<S>,
    pub fields: ServiceFieldsV,
}

impl<S> DeepView for CachedTemplate<S> {
    type V = CachedTemplateV<S>;

    open spec fn deep_view(&self) -> CachedTemplateV<S> {
        CachedTemplateV { key: self.key.deep_view(), fields: self.fields.deep_view() }
    }
}

/// What resolution has gathered so far: the templates it has resolved,
/// the declarations it has imported, and the warnings it has raised.
pub struct Progress<S> {
    pub cache: Vec<CachedTemplate<S>>,
    pub imports: Imports,
    pub warnings: Vec<ComposeWarning>,
}

/// The view of [`Progress`].
#[verifier::ext_equal]
pub struct ProgressV<S> {
    pub cache: Seq<CachedTemplateV<S>>,
    pub imports: ImportsV,
    pub warnings: Seq<ComposeWarningV>,
}

impl<S> DeepView for Progress<S> {
    type V = ProgressV<S>;

    open spec fn deep_view(&self) -> ProgressV<S> {
        ProgressV {
            cache: self.cache.deep_view(),
            imports: self.imports.deep_view(),
            warnings: self.warnings.deep_view(),
        }
    }
}

impl<S> ProgressV<S> {
    /// Nothing gathered yet.
    pub open spec fn none() -> ProgressV<S> {
        ProgressV {
            cache: Seq::empty(),
            imports: ImportsV { networks: Seq::empty(), volumes: Seq::empty() },
            warnings: Seq::empty(),
        }
    }
}

/// The outcome of a step that adds to what has been gathered.
pub open spec fn progressed<T: DeepView, S>(
    r: Result<T, ComposeError>,
    progress: ProgressV<S>,
) -> Result<(T::V, ProgressV<S>), ComposeErrorV> {
    match r {
        Ok(value) => Ok((value.deep_view(), progress)),
        Err(error) => Err(error.deep_view()),
    }
}

/// The fields of a template resolved before, if it was, looking from
/// index `i` on.
pub open spec fn cached_from<S>(
    cache: Seq<CachedTemplateV<S>>,
    key: TemplateKeyV<S>,
    i: int,
) -> Option<ServiceFieldsV>
    decreases cache.len() - i,
{
    if i >= cache.len() {
        None
    } else if cache[i].key == key {
        Some(cache[i].fields)
    } else {
        cached_from(cache, key, i + 1)
    }
}

fn find_cached<'a, S: Copy + Eq>(cache: &'a Vec<CachedTemplate<S>>, scope: S, name: &str) -> (r:
    Option<&'a ServiceFields>)
    requires
        obeys_concrete_eq::<S>(),
    ensures
        r.deep_view() == cached_from(
            cache.deep_view(),
            (TemplateKeyV { scope, name: name@ }),
            0,
        ),
{
    let ghost all = cache.deep_view();
    let ghost key = TemplateKeyV { scope, name: name@ };
    let mut i: usize = 0;
    while i < cache.len()
        invariant
            i <= cache@.len(),
            obeys_concrete_eq::<S>(),
            all == cache.deep_view(),
            key == (TemplateKeyV { scope, name: name@ }),
            cached_from(all, key, 0) == cached_from(all, key, i as int),
        decreases cache@.len() - i,
    {
        assert(all[i as int] == cache@[i as int].deep_view());
        if same_scope(cache[i].key.scope, scope) && same_text(cache[i].key.name.as_str(), name) {
            return Some(&cache[i].fields);
        }
        i = i + 1;
    }
    None
}

/// Whether a template is being resolved already, looking from index `i`
/// on.
pub open spec fn in_progress_from<S>(
    in_progress: Seq<TemplateKeyV<S>>,
    key: TemplateKeyV<S>,
    i: int,
) -> bool
    decreases in_progress.len() - i,
{
    i < in_progress.len() && (in_progress[i] == key || in_progress_from(in_progress, key, i + 1))
}

fn is_in_progress<S: Copy + Eq>(in_progress: &Vec<TemplateKey<S>>, scope: S, name: &str) -> (r:
    bool)
    requires
        obeys_concrete_eq::<S>(),
    ensures
        r == in_progress_from(
            in_progress.deep_view(),
            (TemplateKeyV { scope, name: name@ }),
            0,
        ),
{
    let ghost all = in_progress.deep_view();
    let ghost key = TemplateKeyV { scope, name: name@ };
    let mut i: usize = 0;
    while i < in_progress.len()
        invariant
            i <= in_progress@.len(),
            obeys_concrete_eq::<S>(),
            all == in_progress.deep_view(),
            key == (TemplateKeyV { scope, name: name@ }),
            in_progress_from(all, key, 0) == in_progress_from(all, key, i as int),
        decreases in_progress@.len() - i,
    {
        assert(all[i as int] == in_progress@[i as int].deep_view());
        if same_scope(in_progress[i].scope, scope) && same_text(
            in_progress[i].name.as_str(),
            name,
        ) {
            return true;
        }
        i = i + 1;
    }
    false
}

/// The names of the templates being resolved, outermost first, and then
/// the one that closes the cycle.
pub open spec fn cycle_chain<S>(in_progress: Seq<TemplateKeyV<S>>, name: Seq<char>) -> Seq<
    Seq<char>,
> {
    in_progress.map_values(|key: TemplateKeyV<S>| key.name).push(name)
}

fn chain_names<S>(in_progress: &Vec<TemplateKey<S>>, name: &str) -> (r: Vec<String>)
    ensures
        r.deep_view() == cycle_chain(in_progress.deep_view(), name@),
{
    let ghost names = in_progress.deep_view().map_values(|key: TemplateKeyV<S>| key.name);
    let mut out: Vec<String> = no_items();
    let mut i: usize = 0;
    while i < in_progress.len()
        invariant
            i <= in_progress@.len(),
            names == in_progress.deep_view().map_values(|key: TemplateKeyV<S>| key.name),
            out.deep_view() == names.take(i as int),
        decreases in_progress@.len() - i,
    {
        push_to(&mut out, in_progress[i].name.clone());
        assert(out.deep_view() =~= names.take(i + 1));
        i = i + 1;
    }
    assert(out.deep_view() =~= names);
    push_to(&mut out, name.to_owned());
    out
}

/// The index of the first argument called `key` at or after `i`, or the
/// number of arguments.
pub open spec fn arg_index(args: Seq<RawEntryV>, key: Seq<char>, i: int) -> int
    decreases args.len() - i,
{
    if i >= args.len() {
        args.len() as int
    } else if args[i].key.text() == key {
        i
    } else {
        arg_index(args, key, i + 1)
    }
}

/// Whether a template declares a parameter called `name`, looking from
/// index `i` on.
pub open spec fn declares_param(params: Seq<ParamV>, name: Seq<char>, i: int) -> bool
    decreases params.len() - i,
{
    i < params.len() && (params[i].name.name == name || declares_param(params, name, i + 1))
}

/// What is wrong with the first faulty argument at or after `i`: it was
/// given before, or the template declares no such parameter.
pub open spec fn argument_fault(args: Seq<RawEntryV>, i: int, decl: TemplateDeclV) -> Option<
    ComposeErrorV,
>
    decreases args.len() - i,
{
    if i >= args.len() {
        None
    } else {
        let key = args[i].key.text();
        let first = arg_index(args, key, 0);
        if first < i {
            Some(
                ComposeErrorV::DuplicateTemplateArgument {
                    template: decl.name.name,
                    argument: key,
                    first: args[first].span,
                    second: args[i].span,
                },
            )
        } else if !declares_param(decl.params, key, 0) {
            Some(
                ComposeErrorV::UnknownTemplateArgument {
                    template: decl.name.name,
                    argument: key,
                    span: args[i].span,
                },
            )
        } else {
            argument_fault(args, i + 1, decl)
        }
    }
}

/// The first parameter at or after `i` that no argument is given for, as
/// the error it is.
pub open spec fn missing_argument(
    args: Seq<RawEntryV>,
    params: Seq<ParamV>,
    i: int,
    template: Seq<char>,
    span: Span,
) -> Option<ComposeErrorV>
    decreases params.len() - i,
{
    if i >= params.len() {
        None
    } else if arg_from(args, params[i].name.name, 0) is None {
        Some(
            ComposeErrorV::MissingTemplateArgument {
                template,
                param: params[i].name.name,
                span,
            },
        )
    } else {
        missing_argument(args, params, i + 1, template, span)
    }
}

/// What is wrong with the arguments of an invocation, which have to be
/// exactly the template's parameters.
pub open spec fn call_fault(inv: TemplateInvocationV, decl: TemplateDeclV) -> Option<
    ComposeErrorV,
> {
    match argument_fault(inv.args.entries, 0, decl) {
        Some(error) => Some(error),
        None => missing_argument(inv.args.entries, decl.params, 0, decl.name.name, inv.span),
    }
}

fn find_arg(args: &Vec<RawEntry>, key: &str) -> (r: usize)
    ensures
        r == arg_index(args.deep_view(), key@, 0),
        r <= args@.len(),
{
    let mut i: usize = 0;
    while i < args.len()
        invariant
            i <= args@.len(),
            arg_index(args.deep_view(), key@, 0) == arg_index(args.deep_view(), key@, i as int),
        decreases args@.len() - i,
    {
        assert(args.deep_view()[i as int] == args@[i as int].deep_view());
        if same_text(args[i].key.text(), key) {
            return i;
        }
        i = i + 1;
    }
    i
}

pub(crate) fn has_param(params: &Vec<Param>, name: &str) -> (r: bool)
    ensures
        r == declares_param(params.deep_view(), name@, 0),
{
    let mut i: usize = 0;
    while i < params.len()
        invariant
            i <= params@.len(),
            declares_param(params.deep_view(), name@, 0) == declares_param(
                params.deep_view(),
                name@,
                i as int,
            ),
        decreases params@.len() - i,
    {
        assert(params.deep_view()[i as int] == params@[i as int].deep_view());
        if same_text(params[i].name.name.as_str(), name) {
            return true;
        }
        i = i + 1;
    }
    false
}

fn check_arguments(inv: &TemplateInvocation, decl: &TemplateDecl) -> (r: Option<ComposeError>)
    ensures
        r.deep_view() == call_fault(inv.deep_view(), decl.deep_view()),
{
    let args = &inv.args.entries;
    let mut i: usize = 0;
    while i < args.len()
        invariant
            i <= args@.len(),
            *args == inv.args.entries,
            argument_fault(args.deep_view(), 0, decl.deep_view()) == argument_fault(
                args.deep_view(),
                i as int,
                decl.deep_view(),
            ),
        decreases args@.len() - i,
    {
        let entry = &args[i];
        assert(args.deep_view()[i as int] == entry.deep_view());
        let key = entry.key.text();
        let first = find_arg(args, key);
        if first < i {
            assert(args.deep_view()[first as int] == args@[first as int].deep_view());
            return Some(
                ComposeError::DuplicateTemplateArgument {
                    template: decl.name.name.clone(),
                    argument: key.to_owned(),
                    first: args[first].span,
                    second: entry.span,
                },
            );
        }
        if !has_param(&decl.params, key) {
            return Some(
                ComposeError::UnknownTemplateArgument {
                    template: decl.name.name.clone(),
                    argument: key.to_owned(),
                    span: entry.span,
                },
            );
        }
        i = i + 1;
    }
    let params = &decl.params;
    let call = Call { template: decl.name.name.as_str(), args };
    let mut j: usize = 0;
    while j < params.len()
        invariant
            j <= params@.len(),
            *params == decl.params,
            *args == inv.args.entries,
            call.args == args,
            argument_fault(args.deep_view(), 0, decl.deep_view()) is None,
            missing_argument(
                args.deep_view(),
                params.deep_view(),
                0,
                decl.name.name@,
                inv.span,
            ) == missing_argument(
                args.deep_view(),
                params.deep_view(),
                j as int,
                decl.name.name@,
                inv.span,
            ),
        decreases params@.len() - j,
    {
        assert(params.deep_view()[j as int] == params@[j as int].deep_view());
        if call.arg(params[j].name.name.as_str()).is_none() {
            return Some(
                ComposeError::MissingTemplateArgument {
                    template: decl.name.name.clone(),
                    param: params[j].name.name.clone(),
                    span: inv.span,
                },
            );
        }
        j = j + 1;
    }
    None
}

/// A body merged with what its `with` list pulls in, its own fields on
/// top: its field accesses and qualified references resolved in the scope
/// it is written in.
pub open spec fn body_merged<R: SymbolResolver>(
    fields: ServiceFieldsV,
    scope: R::Scope,
    table: SymbolTable<R::Scope>,
    decls: DeclarationsV,
    in_progress: Seq<TemplateKeyV<R::Scope>>,
    progress: ProgressV<R::Scope>,
) -> Result<(ServiceFieldsV, ProgressV<R::Scope>), ComposeErrorV>
    decreases 65 - in_progress.len(), 3int, 0int,
{
    match scoped_accesses::<R>(fields, scope, table, decls) {
        Err(error) => Err(error),
        Ok(written) => match merged_invocations::<R>(
            written.with,
            0,
            MergeAccV::none(),
            scope,
            table,
            decls,
            in_progress,
            progress,
        ) {
            Err(error) => Err(error),
            Ok((acc, more)) => match qualified_references(
                ServiceFieldsV { with: Seq::empty(), ..written },
                scope,
                table,
                more.imports,
            ) {
                Err(error) => Err(error),
                Ok((own, imports)) => match merged_tier(acc, own, TierV::Own) {
                    Err(error) => Err(error),
                    Ok(whole) => Ok((whole.fields(), ProgressV { imports, ..more })),
                },
            },
        },
    }
}

/// The invocations of a `with` list from index `i` on, resolved and
/// merged left to right.
pub open spec fn merged_invocations<R: SymbolResolver>(
    with: Seq<TemplateInvocationV>,
    i: int,
    acc: MergeAccV,
    scope: R::Scope,
    table: SymbolTable<R::Scope>,
    decls: DeclarationsV,
    in_progress: Seq<TemplateKeyV<R::Scope>>,
    progress: ProgressV<R::Scope>,
) -> Result<(MergeAccV, ProgressV<R::Scope>), ComposeErrorV>
    decreases 65 - in_progress.len(), 2int, with.len() - i,
{
    if i >= with.len() {
        Ok((acc, progress))
    } else {
        match resolved_invocation::<R>(with[i], scope, table, decls, in_progress, progress) {
            Err(error) => Err(error),
            Ok((fields, more)) => match merged_tier(
                acc,
                fields,
                TierV::Explicit(with[i].name.name),
            ) {
                Err(error) => Err(error),
                Ok(merged) => merged_invocations::<R>(
                    with,
                    i + 1,
                    merged,
                    scope,
                    table,
                    decls,
                    in_progress,
                    more,
                ),
            },
        }
    }
}

/// One invocation resolved: its template, resolved in the scope that one
/// is declared in, with the arguments substituted, and whatever an
/// argument that names an imported declaration left behind resolved in
/// the scope the invocation is written in.
pub open spec fn resolved_invocation<R: SymbolResolver>(
    inv: TemplateInvocationV,
    scope: R::Scope,
    table: SymbolTable<R::Scope>,
    decls: DeclarationsV,
    in_progress: Seq<TemplateKeyV<R::Scope>>,
    progress: ProgressV<R::Scope>,
) -> Result<(ServiceFieldsV, ProgressV<R::Scope>), ComposeErrorV>
    decreases 65 - in_progress.len(), 1int, 0int,
{
    match table.template(scope, inv.qualifier, inv.name.name, inv.span) {
        Err(error) => Err(error),
        Ok((home, decl)) => match call_fault(inv, decl) {
            Some(error) => Err(error),
            None => match resolved_template::<R>(
                decl,
                home,
                table,
                decls,
                in_progress,
                progress,
            ) {
                Err(error) => Err(error),
                Ok((fields, more)) => match ServiceFields::bound(
                    fields,
                    CallV { template: decl.name.name, args: inv.args.entries },
                    more.warnings,
                ) {
                    Err(error) => Err(error),
                    Ok((bound, warnings)) => match resolved_accesses::<R>(
                        bound,
                        AccessScope::Substituted,
                        scope,
                        table,
                        decls,
                    ) {
                        Err(error) => Err(error),
                        Ok(read) => match qualified_references(
                            read,
                            scope,
                            table,
                            more.imports,
                        ) {
                            Err(error) => Err(error),
                            Ok((qualified, imports)) => match plain_values(
                                qualified,
                                decl.name.name,
                            ) {
                                Err(error) => Err(error),
                                Ok(plain) => Ok((plain, ProgressV { imports, warnings, ..more })),
                            },
                        },
                    },
                },
            },
        },
    }
}

/// A template resolved, its parameters still in it: from what was
/// resolved before, or afresh unless that would be a cycle or too deep.
pub open spec fn resolved_template<R: SymbolResolver>(
    decl: TemplateDeclV,
    scope: R::Scope,
    table: SymbolTable<R::Scope>,
    decls: DeclarationsV,
    in_progress: Seq<TemplateKeyV<R::Scope>>,
    progress: ProgressV<R::Scope>,
) -> Result<(ServiceFieldsV, ProgressV<R::Scope>), ComposeErrorV>
    decreases 65 - in_progress.len(), 0int, 0int,
{
    let key = TemplateKeyV { scope, name: decl.name.name };
    match cached_from(progress.cache, key, 0) {
        Some(fields) => Ok((fields, progress)),
        None => if in_progress_from(in_progress, key, 0) {
            Err(
                ComposeErrorV::TemplateCycle {
                    chain: cycle_chain(in_progress, decl.name.name),
                    span: decl.name.span,
                },
            )
        } else if in_progress.len() + 1 > MAX_TEMPLATE_DEPTH {
            Err(
                ComposeErrorV::TemplateNestingTooDeep {
                    name: decl.name.name,
                    limit: MAX_TEMPLATE_DEPTH,
                    span: decl.name.span,
                },
            )
        } else {
            match body_merged::<R>(
                decl.fields,
                scope,
                table,
                decls,
                in_progress.push(key),
                progress,
            ) {
                Err(error) => Err(error),
                Ok((fields, more)) => Ok(
                    (
                        fields,
                        ProgressV {
                            cache: more.cache.push(CachedTemplateV { key, fields }),
                            ..more
                        },
                    ),
                ),
            }
        },
    }
}

fn merge_body<R: SymbolResolver>(
    fields: &ServiceFields,
    scope: R::Scope,
    symbols: &Symbols<'_, R>,
    in_progress: &Vec<TemplateKey<R::Scope>>,
    progress: &mut Progress<R::Scope>,
) -> (r: Result<ServiceFields, ComposeError>)
    requires
        obeys_concrete_eq::<R::Scope>(),
        in_progress@.len() <= 64,
    ensures
        progressed(r, final(progress).deep_view()) == body_merged::<R>(
            fields.deep_view(),
            scope,
            symbols.resolver.table(),
            symbols.decls.deep_view(),
            in_progress.deep_view(),
            old(progress).deep_view(),
        ),
    decreases 65 - in_progress@.len(), 3int, 0int,
{
    let written = match resolve_scoped_field_accesses(fields, scope, symbols) {
        Ok(written) => written,
        Err(error) => {
            return Err(error);
        },
    };
    let acc = match merge_invocations(&written.with, scope, symbols, in_progress, progress) {
        Ok(acc) => acc,
        Err(error) => {
            return Err(error);
        },
    };
    let mut bare = written;
    bare.with = no_items();
    assert(bare.deep_view() =~= ServiceFieldsV { with: Seq::empty(), ..written.deep_view() });
    let own = match resolve_qualified_references(
        bare,
        scope,
        symbols.resolver,
        &mut progress.imports,
    ) {
        Ok(own) => own,
        Err(error) => {
            return Err(error);
        },
    };
    match merge_tier(acc, &own, &Tier::Own) {
        Ok(whole) => Ok(whole.into_service_fields()),
        Err(error) => Err(error),
    }
}

fn merge_invocations<R: SymbolResolver>(
    with: &Vec<TemplateInvocation>,
    scope: R::Scope,
    symbols: &Symbols<'_, R>,
    in_progress: &Vec<TemplateKey<R::Scope>>,
    progress: &mut Progress<R::Scope>,
) -> (r: Result<MergeAcc, ComposeError>)
    requires
        obeys_concrete_eq::<R::Scope>(),
        in_progress@.len() <= 64,
    ensures
        progressed(r, final(progress).deep_view()) == merged_invocations::<R>(
            with.deep_view(),
            0,
            MergeAccV::none(),
            scope,
            symbols.resolver.table(),
            symbols.decls.deep_view(),
            in_progress.deep_view(),
            old(progress).deep_view(),
        ),
    decreases 65 - in_progress@.len(), 2int, 0int,
{
    let mut acc = MergeAcc::new();
    let mut i: usize = 0;
    while i < with.len()
        invariant
            i <= with@.len(),
            obeys_concrete_eq::<R::Scope>(),
            in_progress@.len() <= 64,
            merged_invocations::<R>(
                with.deep_view(),
                0,
                MergeAccV::none(),
                scope,
                symbols.resolver.table(),
                symbols.decls.deep_view(),
                in_progress.deep_view(),
                old(progress).deep_view(),
            ) == merged_invocations::<R>(
                with.deep_view(),
                i as int,
                acc.deep_view(),
                scope,
                symbols.resolver.table(),
                symbols.decls.deep_view(),
                in_progress.deep_view(),
                progress.deep_view(),
            ),
        decreases with@.len() - i,
    {
        let inv = &with[i];
        assert(with.deep_view()[i as int] == inv.deep_view());
        let fields = match resolve_invocation(inv, scope, symbols, in_progress, progress) {
            Ok(fields) => fields,
            Err(error) => {
                return Err(error);
            },
        };
        acc =
        match merge_tier(acc, &fields, &Tier::Explicit(inv.name.name.clone())) {
            Ok(merged) => merged,
            Err(error) => {
                return Err(error);
            },
        };
        i = i + 1;
    }
    Ok(acc)
}

fn resolve_invocation<R: SymbolResolver>(
    inv: &TemplateInvocation,
    scope: R::Scope,
    symbols: &Symbols<'_, R>,
    in_progress: &Vec<TemplateKey<R::Scope>>,
    progress: &mut Progress<R::Scope>,
) -> (r: Result<ServiceFields, ComposeError>)
    requires
        obeys_concrete_eq::<R::Scope>(),
        in_progress@.len() <= 64,
    ensures
        progressed(r, final(progress).deep_view()) == resolved_invocation::<R>(
            inv.deep_view(),
            scope,
            symbols.resolver.table(),
            symbols.decls.deep_view(),
            in_progress.deep_view(),
            old(progress).deep_view(),
        ),
    decreases 65 - in_progress@.len(), 1int, 0int,
{
    let (home, decl) = match symbols.resolver.resolve_template(
        scope,
        inv.qualifier.as_ref(),
        inv.name.name.as_str(),
        inv.span,
    ) {
        Ok(found) => found,
        Err(error) => {
            return Err(error);
        },
    };
    if let Some(error) = check_arguments(inv, decl) {
        return Err(error);
    }
    let fields = match resolve_template(decl, home, symbols, in_progress, progress) {
        Ok(fields) => fields,
        Err(error) => {
            return Err(error);
        },
    };
    let template = decl.name.name.as_str();
    let call = Call { template, args: &inv.args.entries };
    let bound = match fields.bind(&call, &mut progress.warnings) {
        Ok(bound) => bound,
        Err(error) => {
            return Err(error);
        },
    };
    let read = match resolve_accesses(&bound, AccessScope::Substituted, scope, symbols) {
        Ok(read) => read,
        Err(error) => {
            return Err(error);
        },
    };
    let qualified = match resolve_qualified_references(
        read,
        scope,
        symbols.resolver,
        &mut progress.imports,
    ) {
        Ok(qualified) => qualified,
        Err(error) => {
            return Err(error);
        },
    };
    reject_qualified_values(&qualified, template)
}

fn resolve_template<R: SymbolResolver>(
    decl: &TemplateDecl,
    scope: R::Scope,
    symbols: &Symbols<'_, R>,
    in_progress: &Vec<TemplateKey<R::Scope>>,
    progress: &mut Progress<R::Scope>,
) -> (r: Result<ServiceFields, ComposeError>)
    requires
        obeys_concrete_eq::<R::Scope>(),
        in_progress@.len() <= 64,
    ensures
        progressed(r, final(progress).deep_view()) == resolved_template::<R>(
            decl.deep_view(),
            scope,
            symbols.resolver.table(),
            symbols.decls.deep_view(),
            in_progress.deep_view(),
            old(progress).deep_view(),
        ),
    decreases 65 - in_progress@.len(), 0int, 0int,
{
    let name = decl.name.name.as_str();
    let known = match find_cached(&progress.cache, scope, name) {
        Some(fields) => Some(fields.duplicate()),
        None => None,
    };
    if let Some(fields) = known {
        return Ok(fields);
    }
    if is_in_progress(in_progress, scope, name) {
        return Err(
            ComposeError::TemplateCycle {
                chain: chain_names(in_progress, name),
                span: decl.name.span,
            },
        );
    }
    let level: usize = in_progress.len() + 1;
    if level > MAX_TEMPLATE_DEPTH {
        return Err(
            ComposeError::TemplateNestingTooDeep {
                name: decl.name.name.clone(),
                limit: MAX_TEMPLATE_DEPTH,
                span: decl.name.span,
            },
        );
    }
    let mut deeper = in_progress.duplicate();
    push_to(&mut deeper, TemplateKey { scope, name: decl.name.name.clone() });
    assert(deeper.deep_view().len() == in_progress.deep_view().len() + 1);
    let fields = match merge_body(&decl.fields, scope, symbols, &deeper, progress) {
        Ok(fields) => fields,
        Err(error) => {
            return Err(error);
        },
    };
    push_to(
        &mut progress.cache,
        CachedTemplate {
            key: TemplateKey { scope, name: decl.name.name.clone() },
            fields: fields.duplicate(),
        },
    );
    Ok(fields)
}

/// What is wrong with the fields of a finished service that have to be
/// numbers, if anything is.
pub open spec fn numeric_fault(fields: ServiceFieldsV) -> Option<ComposeErrorV> {
    let port = match fields.expose {
        Some(expose) => expose.port,
        None => None,
    };
    let retries = match fields.healthcheck {
        Some(healthcheck) => healthcheck.retries,
        None => None,
    };
    match not_numeric("expose.port"@, port) {
        Some(error) => Some(error),
        None => not_numeric("healthcheck.retries"@, retries),
    }
}

/// What is wrong with a field that has to be a number, if anything is.
pub open spec fn not_numeric(field: Seq<char>, value: Option<crate::ast::LiteralV>) -> Option<
    ComposeErrorV,
> {
    match value {
        Some(lit) => match not_a_number(lit) {
            Some(found) => Some(ComposeErrorV::FieldNotNumeric { field, found, span: lit.span() }),
            None => None,
        },
        None => None,
    }
}

fn check_numeric_field(field: &'static str, value: Option<&crate::ast::Literal>) -> (r: Option<
    ComposeError,
>)
    ensures
        r.deep_view() == not_numeric(field@, value.deep_view()),
{
    match value {
        Some(lit) => match numeric_mismatch(lit) {
            Some(found) => Some(ComposeError::FieldNotNumeric { field, found, span: lit.span() }),
            None => None,
        },
        None => None,
    }
}

fn check_numeric_fields(fields: &ServiceFields) -> (r: Option<ComposeError>)
    ensures
        r.deep_view() == numeric_fault(fields.deep_view()),
{
    let port = match &fields.expose {
        Some(expose) => expose.port.as_ref(),
        None => None,
    };
    if let Some(error) = check_numeric_field("expose.port", port) {
        return Some(error);
    }
    let retries = match &fields.healthcheck {
        Some(healthcheck) => healthcheck.retries.as_ref(),
        None => None,
    };
    check_numeric_field("healthcheck.retries", retries)
}

/// A service fully resolved: merged with its templates, every field
/// access read, and its numbers checked.
pub open spec fn composed_service<R: SymbolResolver>(
    service: ServiceV,
    scope: R::Scope,
    table: SymbolTable<R::Scope>,
    decls: DeclarationsV,
    progress: ProgressV<R::Scope>,
) -> Result<(ServiceV, ProgressV<R::Scope>), ComposeErrorV> {
    match body_merged::<R>(service.fields, scope, table, decls, Seq::empty(), progress) {
        Err(error) => Err(error),
        Ok((merged, more)) => match resolved_accesses::<R>(
            merged,
            AccessScope::Bound,
            scope,
            table,
            decls,
        ) {
            Err(error) => Err(error),
            Ok(fields) => match numeric_fault(fields) {
                Some(error) => Err(error),
                None => Ok((ServiceV { fields, ..service }, more)),
            },
        },
    }
}

fn compose_service<R: SymbolResolver>(
    service: &Service,
    scope: R::Scope,
    symbols: &Symbols<'_, R>,
    progress: &mut Progress<R::Scope>,
) -> (r: Result<Service, ComposeError>)
    requires
        obeys_concrete_eq::<R::Scope>(),
    ensures
        progressed(r, final(progress).deep_view()) == composed_service::<R>(
            service.deep_view(),
            scope,
            symbols.resolver.table(),
            symbols.decls.deep_view(),
            old(progress).deep_view(),
        ),
{
    let nothing: Vec<TemplateKey<R::Scope>> = no_items();
    let merged = match merge_body(&service.fields, scope, symbols, &nothing, progress) {
        Ok(merged) => merged,
        Err(error) => {
            return Err(error);
        },
    };
    let fields = match resolve_accesses(&merged, AccessScope::Bound, scope, symbols) {
        Ok(fields) => fields,
        Err(error) => {
            return Err(error);
        },
    };
    if let Some(error) = check_numeric_fields(&fields) {
        return Err(error);
    }
    Ok(Service { name: service.name.duplicate(), fields, span: service.span })
}

/// The services from index `i` on, resolved one after the other.
pub open spec fn composed_services<R: SymbolResolver>(
    services: Seq<ServiceV>,
    i: int,
    before: Seq<ServiceV>,
    scope: R::Scope,
    table: SymbolTable<R::Scope>,
    decls: DeclarationsV,
    progress: ProgressV<R::Scope>,
) -> Result<(Seq<ServiceV>, ProgressV<R::Scope>), ComposeErrorV>
    decreases services.len() - i,
{
    if i >= services.len() {
        Ok((before, progress))
    } else {
        match composed_service::<R>(services[i], scope, table, decls, progress) {
            Err(error) => Err(error),
            Ok((service, more)) => composed_services::<R>(
                services,
                i + 1,
                before.push(service),
                scope,
                table,
                decls,
                more,
            ),
        }
    }
}

/// A program with every `template`/`with` composition resolved.
#[derive(Debug, Clone, PartialEq)]
pub struct ComposedProgram {
    /// The entry file's own networks first, then the imported ones.
    pub networks: Vec<Network>,
    /// The entry file's own volumes first, then the imported ones.
    pub volumes: Vec<Volume>,
    pub services: Vec<Service>,
    /// The files that places in this program lie in. Composition reads no
    /// file and leaves this empty.
    pub files: SourceMap,
    /// What composition has to say without failing, in the order it was
    /// raised.
    pub warnings: Vec<ComposeWarning>,
}

/// The view of [`ComposedProgram`].
#[verifier::ext_equal]
pub struct ComposedProgramV {
    pub networks: Seq<NetworkV>,
    pub volumes: Seq<VolumeV>,
    pub services: Seq<ServiceV>,
    pub files: Seq<Seq<char>>,
    pub warnings: Seq<ComposeWarningV>,
}

impl DeepView for ComposedProgram {
    type V = ComposedProgramV;

    open spec fn deep_view(&self) -> ComposedProgramV {
        ComposedProgramV {
            networks: self.networks.deep_view(),
            volumes: self.volumes.deep_view(),
            services: self.services.deep_view(),
            files: self.files.deep_view(),
            warnings: self.warnings.deep_view(),
        }
    }
}

/// The names of services.
pub open spec fn service_names(services: Seq<ServiceV>) -> Seq<Seq<char>> {
    services.map_values(|service: ServiceV| service.name.name)
}

fn names_of_services(services: &Vec<Service>) -> (r: Vec<String>)
    ensures
        r.deep_view() == service_names(services.deep_view()),
{
    let ghost names = service_names(services.deep_view());
    let mut out: Vec<String> = no_items();
    let mut i: usize = 0;
    while i < services.len()
        invariant
            i <= services@.len(),
            names == service_names(services.deep_view()),
            out.deep_view() == names.take(i as int),
        decreases services@.len() - i,
    {
        push_to(&mut out, services[i].name.name.clone());
        assert(out.deep_view() =~= names.take(i + 1));
        i = i + 1;
    }
    assert(out.deep_view() =~= names);
    out
}

/// What composition makes of declarations whose names resolve by `table`:
/// the services resolved, and the networks and volumes joined by those
/// that were imported on the way.
pub open spec fn composed<R: SymbolResolver>(
    networks: Seq<NetworkV>,
    volumes: Seq<VolumeV>,
    services: Seq<ServiceV>,
    scope: R::Scope,
    table: SymbolTable<R::Scope>,
) -> Result<ComposedProgramV, ComposeErrorV> {
    let decls = DeclarationsV { networks, volumes, services: service_names(services) };
    match composed_services::<R>(
        services,
        0,
        Seq::empty(),
        scope,
        table,
        decls,
        ProgressV::none(),
    ) {
        Err(error) => Err(error),
        Ok((resolved, progress)) => match with_imported::<Network>(
            networks,
            progress.imports.networks,
            0,
        ) {
            Err(error) => Err(error),
            Ok(all_networks) => match with_imported::<Volume>(
                volumes,
                progress.imports.volumes,
                0,
            ) {
                Err(error) => Err(error),
                Ok(all_volumes) => Ok(
                    ComposedProgramV {
                        networks: all_networks,
                        volumes: all_volumes,
                        services: resolved,
                        files: Seq::empty(),
                        warnings: progress.warnings,
                    },
                ),
            },
        },
    }
}

/// Resolves `services`, and joins to `networks` and `volumes` whatever
/// their qualified references reach, looking every name up through
/// `resolver` from `entry_scope` on.
pub fn compose_with_resolver<R: SymbolResolver>(
    networks: Vec<Network>,
    volumes: Vec<Volume>,
    services: Vec<Service>,
    entry_scope: R::Scope,
    resolver: &R,
) -> (r: Result<ComposedProgram, ComposeError>)
    requires
        obeys_concrete_eq::<R::Scope>(),
    ensures
        outcome(r) == composed::<R>(
            networks.deep_view(),
            volumes.deep_view(),
            services.deep_view(),
            entry_scope,
            resolver.table(),
        ),
{
    let names = names_of_services(&services);
    let symbols = Symbols {
        resolver,
        decls: Declarations { networks: &networks, volumes: &volumes, services: &names },
    };
    let mut progress: Progress<R::Scope> = Progress {
        cache: no_items(),
        imports: Imports { networks: no_items(), volumes: no_items() },
        warnings: no_items(),
    };
    assert(progress.deep_view() =~= ProgressV::<R::Scope>::none());
    let ghost decls = symbols.decls.deep_view();
    let mut resolved: Vec<Service> = no_items();
    let mut i: usize = 0;
    while i < services.len()
        invariant
            i <= services@.len(),
            obeys_concrete_eq::<R::Scope>(),
            symbols.resolver == resolver,
            symbols.decls.deep_view() == decls,
            decls == (DeclarationsV {
                networks: networks.deep_view(),
                volumes: volumes.deep_view(),
                services: service_names(services.deep_view()),
            }),
            composed_services::<R>(
                services.deep_view(),
                0,
                Seq::empty(),
                entry_scope,
                resolver.table(),
                decls,
                ProgressV::none(),
            ) == composed_services::<R>(
                services.deep_view(),
                i as int,
                resolved.deep_view(),
                entry_scope,
                resolver.table(),
                decls,
                progress.deep_view(),
            ),
        decreases services@.len() - i,
    {
        assert(services.deep_view()[i as int] == services@[i as int].deep_view());
        match compose_service(&services[i], entry_scope, &symbols, &mut progress) {
            Ok(service) => {
                push_to(&mut resolved, service);
            },
            Err(error) => {
                return Err(error);
            },
        }
        i = i + 1;
    }
    let all_networks = match merge_imported(networks, &progress.imports.networks) {
        Ok(all) => all,
        Err(error) => {
            return Err(error);
        },
    };
    let all_volumes = match merge_imported(volumes, &progress.imports.volumes) {
        Ok(all) => all,
        Err(error) => {
            return Err(error);
        },
    };
    Ok(
        ComposedProgram {
            networks: all_networks,
            volumes: all_volumes,
            services: resolved,
            files: SourceMap::default(),
            warnings: progress.warnings,
        },
    )
}

/// A program's declarations by kind, each kind in source order.
pub struct Collected {
    pub networks: Vec<Network>,
    pub volumes: Vec<Volume>,
    pub services: Vec<Service>,
    pub templates: Vec<TemplateDecl>,
}

/// The view of [`Collected`].
#[verifier::ext_equal]
pub struct CollectedV {
    pub networks: Seq<NetworkV>,
    pub volumes: Seq<VolumeV>,
    pub services: Seq<ServiceV>,
    pub templates: Seq<TemplateDeclV>,
}

impl DeepView for Collected {
    type V = CollectedV;

    open spec fn deep_view(&self) -> CollectedV {
        CollectedV {
            networks: self.networks.deep_view(),
            volumes: self.volumes.deep_view(),
            services: self.services.deep_view(),
            templates: self.templates.deep_view(),
        }
    }
}

/// The index of the first service called `name` at or after `i`, or the
/// number of services.
pub open spec fn service_index(services: Seq<ServiceV>, name: Seq<char>, i: int) -> int
    decreases services.len() - i,
{
    if i >= services.len() {
        services.len() as int
    } else if services[i].name.name == name {
        i
    } else {
        service_index(services, name, i + 1)
    }
}

/// The index of the first template called `name` at or after `i`, or the
/// number of templates.
pub open spec fn template_index(templates: Seq<TemplateDeclV>, name: Seq<char>, i: int) -> int
    decreases templates.len() - i,
{
    if i >= templates.len() {
        templates.len() as int
    } else if templates[i].name.name == name {
        i
    } else {
        template_index(templates, name, i + 1)
    }
}

fn find_service(services: &Vec<Service>, name: &str) -> (r: usize)
    ensures
        r == service_index(services.deep_view(), name@, 0),
        r <= services@.len(),
{
    let mut i: usize = 0;
    while i < services.len()
        invariant
            i <= services@.len(),
            service_index(services.deep_view(), name@, 0) == service_index(
                services.deep_view(),
                name@,
                i as int,
            ),
        decreases services@.len() - i,
    {
        assert(services.deep_view()[i as int] == services@[i as int].deep_view());
        if same_text(services[i].name.name.as_str(), name) {
            return i;
        }
        i = i + 1;
    }
    i
}

fn find_template(templates: &Vec<TemplateDecl>, name: &str) -> (r: usize)
    ensures
        r == template_index(templates.deep_view(), name@, 0),
        r <= templates@.len(),
{
    let mut i: usize = 0;
    while i < templates.len()
        invariant
            i <= templates@.len(),
            template_index(templates.deep_view(), name@, 0) == template_index(
                templates.deep_view(),
                name@,
                i as int,
            ),
        decreases templates@.len() - i,
    {
        assert(templates.deep_view()[i as int] == templates@[i as int].deep_view());
        if same_text(templates[i].name.name.as_str(), name) {
            return i;
        }
        i = i + 1;
    }
    i
}

/// What has been collected with one more declaration: a name may be
/// declared once among the declarations of its kind. A `use` adds
/// nothing.
pub open spec fn collected_decl(so_far: CollectedV, decl: TopDeclV) -> Result<
    CollectedV,
    ComposeErrorV,
> {
    match decl {
        TopDeclV::Network(n) => {
            let at = decl_index::<Network>(so_far.networks, n.name.name, 0);
            if at < so_far.networks.len() {
                Err(
                    ComposeErrorV::DuplicateNetworkName {
                        name: n.name.name,
                        first: so_far.networks[at].name.span,
                        second: n.name.span,
                    },
                )
            } else {
                Ok(CollectedV { networks: so_far.networks.push(n), ..so_far })
            }
        },
        TopDeclV::Volume(v) => {
            let at = decl_index::<Volume>(so_far.volumes, v.name.name, 0);
            if at < so_far.volumes.len() {
                Err(
                    ComposeErrorV::DuplicateVolumeName {
                        name: v.name.name,
                        first: so_far.volumes[at].name.span,
                        second: v.name.span,
                    },
                )
            } else {
                Ok(CollectedV { volumes: so_far.volumes.push(v), ..so_far })
            }
        },
        TopDeclV::Service(s) => {
            let at = service_index(so_far.services, s.name.name, 0);
            if at < so_far.services.len() {
                Err(
                    ComposeErrorV::DuplicateServiceName {
                        name: s.name.name,
                        first: so_far.services[at].name.span,
                        second: s.name.span,
                    },
                )
            } else {
                Ok(CollectedV { services: so_far.services.push(s), ..so_far })
            }
        },
        TopDeclV::Template(t) => {
            let at = template_index(so_far.templates, t.name.name, 0);
            if at < so_far.templates.len() {
                Err(
                    ComposeErrorV::DuplicateTemplateName {
                        name: t.name.name,
                        first: so_far.templates[at].name.span,
                        second: t.name.span,
                    },
                )
            } else {
                Ok(CollectedV { templates: so_far.templates.push(t), ..so_far })
            }
        },
        TopDeclV::Use(_) => Ok(so_far),
    }
}

/// The declarations from index `i` on, collected by kind.
pub open spec fn collected_from(decls: Seq<TopDeclV>, i: int, so_far: CollectedV) -> Result<
    CollectedV,
    ComposeErrorV,
>
    decreases decls.len() - i,
{
    if i >= decls.len() {
        Ok(so_far)
    } else {
        match collected_decl(so_far, decls[i]) {
            Ok(more) => collected_from(decls, i + 1, more),
            Err(error) => Err(error),
        }
    }
}

/// A program's declarations, collected by kind.
pub open spec fn collected(decls: Seq<TopDeclV>) -> Result<CollectedV, ComposeErrorV> {
    collected_from(
        decls,
        0,
        CollectedV {
            networks: Seq::empty(),
            volumes: Seq::empty(),
            services: Seq::empty(),
            templates: Seq::empty(),
        },
    )
}

fn collect_decl(so_far: &mut Collected, decl: &TopDecl) -> (r: Option<ComposeError>)
    ensures
        match r {
            None => collected_decl(old(so_far).deep_view(), decl.deep_view()) == Ok::<
                CollectedV,
                ComposeErrorV,
            >(final(so_far).deep_view()),
            Some(error) => collected_decl(old(so_far).deep_view(), decl.deep_view()) == Err::<
                CollectedV,
                ComposeErrorV,
            >(error.deep_view()),
        },
{
    match decl {
        TopDecl::Network(n) => {
            if let Some(first) = find_decl(&so_far.networks, n.name.name.as_str()) {
                return Some(
                    ComposeError::DuplicateNetworkName {
                        name: n.name.name.clone(),
                        first: first.name.span,
                        second: n.name.span,
                    },
                );
            }
            push_to(&mut so_far.networks, n.duplicate());
        },
        TopDecl::Volume(v) => {
            if let Some(first) = find_decl(&so_far.volumes, v.name.name.as_str()) {
                return Some(
                    ComposeError::DuplicateVolumeName {
                        name: v.name.name.clone(),
                        first: first.name.span,
                        second: v.name.span,
                    },
                );
            }
            push_to(&mut so_far.volumes, v.duplicate());
        },
        TopDecl::Service(s) => {
            let at = find_service(&so_far.services, s.name.name.as_str());
            if at < so_far.services.len() {
                return Some(
                    ComposeError::DuplicateServiceName {
                        name: s.name.name.clone(),
                        first: so_far.services[at].name.span,
                        second: s.name.span,
                    },
                );
            }
            push_to(&mut so_far.services, (**s).duplicate());
        },
        TopDecl::Template(t) => {
            let at = find_template(&so_far.templates, t.name.name.as_str());
            if at < so_far.templates.len() {
                return Some(
                    ComposeError::DuplicateTemplateName {
                        name: t.name.name.clone(),
                        first: so_far.templates[at].name.span,
                        second: t.name.span,
                    },
                );
            }
            push_to(&mut so_far.templates, (**t).duplicate());
        },
        TopDecl::Use(_) => {},
    }
    None
}

fn collect(program: &Program) -> (r: Result<Collected, ComposeError>)
    ensures
        outcome(r) == collected(program.deep_view().decls),
{
    let mut so_far = Collected {
        networks: no_items(),
        volumes: no_items(),
        services: no_items(),
        templates: no_items(),
    };
    let decls = &program.decls;
    let mut i: usize = 0;
    while i < decls.len()
        invariant
            i <= decls@.len(),
            *decls == program.decls,
            collected(decls.deep_view()) == collected_from(
                decls.deep_view(),
                i as int,
                so_far.deep_view(),
            ),
        decreases decls@.len() - i,
    {
        assert(decls.deep_view()[i as int] == decls@[i as int].deep_view());
        if let Some(error) = collect_decl(&mut so_far, &decls[i]) {
            return Err(error);
        }
        i = i + 1;
    }
    Ok(so_far)
}

/// What composition makes of a program that imports nothing.
pub open spec fn composed_program(program: ProgramV) -> Result<ComposedProgramV, ComposeErrorV> {
    match collected(program.decls) {
        Err(error) => Err(error),
        Ok(decls) => composed::<SingleFileResolver>(
            decls.networks,
            decls.volumes,
            decls.services,
            0usize,
            single_file_table(decls.templates),
        ),
    }
}

/// Resolves every `template`/`with` composition in `program`, by the
/// program's own declarations alone: a `use` is inert here, and an alias
/// means nothing.
pub fn compose(program: Program) -> (r: Result<ComposedProgram, ComposeError>)
    ensures
        outcome(r) == composed_program(program.deep_view()),
{
    broadcast use vstd::laws_eq::group_laws_eq;

    let decls = match collect(&program) {
        Ok(decls) => decls,
        Err(error) => {
            return Err(error);
        },
    };
    let resolver = SingleFileResolver { templates: decls.templates };
    compose_with_resolver(decls.networks, decls.volumes, decls.services, 0, &resolver)
}

} // verus!
