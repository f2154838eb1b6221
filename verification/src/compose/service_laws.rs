//! What becomes of services, templates and declarations as wholes: which
//! invocations are accepted, what each is answered otherwise, and what a
//! composed program holds.

use vstd::prelude::*;

use crate::ast::{
    IdentV, LiteralV, Network, NetworkV, ParamV, RawEntryV, ServiceFieldsV, ServiceV, TemplateDeclV,
    TemplateInvocationV, TopDeclV, Volume, VolumeV,
};
use crate::compose::access::scoped_accesses;
use crate::compose::engine::{
    arg_index, argument_fault, body_merged, cached_from, call_fault, collected, collected_decl,
    collected_from, composed, composed_service, composed_services, declares_param, in_progress_from,
    merged_invocations, missing_argument, numeric_fault, resolved_invocation, resolved_template,
    service_index, service_names, template_index, CollectedV, ProgressV, TemplateKeyV,
};
use crate::compose::field_laws::{law_own_fields_win_one_by_one, single_values_layered};
use crate::compose::merge::{merged_tier, MergeAccV, TierV};
use crate::compose::qualify::{qualified_references, with_imported, ImportedV};
use crate::compose::resolver::{
    decl_index, single_file_table, template_from, DeclarationsV, ImportableDecl, SymbolResolver,
    SymbolTable,
};
use crate::compose::substitute::arg_from;
use crate::compose_error::ComposeErrorV;
use crate::source::Span;

verus! {

/// Whether some argument is called `name`.
pub open spec fn argument_given(args: Seq<RawEntryV>, name: Seq<char>) -> bool {
    exists|k: int| 0 <= k < args.len() && (#[trigger] args[k]).key.text() == name
}

/// Whether some parameter is called `name`.
pub open spec fn parameter_declared(params: Seq<ParamV>, name: Seq<char>) -> bool {
    exists|k: int| 0 <= k < params.len() && (#[trigger] params[k]).name.name == name
}

/// Whether each argument is a parameter, and none is given twice.
pub open spec fn arguments_known(args: Seq<RawEntryV>, params: Seq<ParamV>) -> bool {
    &&& forall|k: int|
        0 <= k < args.len() ==> parameter_declared(params, (#[trigger] args[k]).key.text())
    &&& forall|j: int, k: int|
        0 <= j < k < args.len() ==> (#[trigger] args[j]).key.text() != (
        #[trigger] args[k]).key.text()
}

/// Whether the arguments are the parameters: each argument is one of them,
/// none is given twice, and none is left out.
pub open spec fn arguments_fit(args: Seq<RawEntryV>, params: Seq<ParamV>) -> bool {
    &&& arguments_known(args, params)
    &&& forall|k: int|
        0 <= k < params.len() ==> argument_given(args, (#[trigger] params[k]).name.name)
}

proof fn lemma_declared(params: Seq<ParamV>, name: Seq<char>, i: int)
    requires
        0 <= i,
    ensures
        declares_param(params, name, i) <==> exists|k: int|
            i <= k < params.len() && (#[trigger] params[k]).name.name == name,
    decreases params.len() - i,
{
    if i < params.len() && params[i].name.name != name {
        lemma_declared(params, name, i + 1);
    }
}

proof fn lemma_arg_index(args: Seq<RawEntryV>, key: Seq<char>, i: int)
    requires
        0 <= i <= args.len(),
    ensures
        i <= arg_index(args, key, i) <= args.len(),
        arg_index(args, key, i) < args.len() ==> args[arg_index(args, key, i)].key.text() == key,
        forall|k: int|
            i <= k < arg_index(args, key, i) ==> (#[trigger] args[k]).key.text() != key,
    decreases args.len() - i,
{
    if i < args.len() && args[i].key.text() != key {
        lemma_arg_index(args, key, i + 1);
    }
}

proof fn lemma_given(args: Seq<RawEntryV>, key: Seq<char>, i: int)
    requires
        0 <= i,
    ensures
        arg_from(args, key, i) is Some <==> exists|k: int|
            i <= k < args.len() && (#[trigger] args[k]).key.text() == key,
    decreases args.len() - i,
{
    if i < args.len() && args[i].key.text() != key {
        lemma_given(args, key, i + 1);
    }
}

/// Whether an error names the two places of one argument given twice.
pub open spec fn names_a_repeat(
    error: ComposeErrorV,
    args: Seq<RawEntryV>,
    template: Seq<char>,
) -> bool {
    exists|j: int, k: int|
        0 <= j < k < args.len() && (#[trigger] args[j]).key.text() == (
        #[trigger] args[k]).key.text() && error == (ComposeErrorV::DuplicateTemplateArgument {
            template,
            argument: args[k].key.text(),
            first: args[j].span,
            second: args[k].span,
        })
}

/// Whether an error names an argument that is no parameter.
pub open spec fn names_a_stray(
    error: ComposeErrorV,
    args: Seq<RawEntryV>,
    params: Seq<ParamV>,
    template: Seq<char>,
) -> bool {
    exists|k: int|
        0 <= k < args.len() && !parameter_declared(params, (#[trigger] args[k]).key.text())
            && error == (ComposeErrorV::UnknownTemplateArgument {
            template,
            argument: args[k].key.text(),
            span: args[k].span,
        })
}

/// Whether an error names a parameter that no argument is given for.
pub open spec fn names_an_omission(
    error: ComposeErrorV,
    args: Seq<RawEntryV>,
    params: Seq<ParamV>,
    template: Seq<char>,
    span: Span,
) -> bool {
    exists|k: int|
        0 <= k < params.len() && !argument_given(args, (#[trigger] params[k]).name.name) && error
            == (ComposeErrorV::MissingTemplateArgument {
            template,
            param: params[k].name.name,
            span,
        })
}

proof fn lemma_argument_fault(args: Seq<RawEntryV>, i: int, decl: TemplateDeclV)
    requires
        0 <= i <= args.len(),
        forall|j: int, k: int|
            0 <= j < k < i ==> (#[trigger] args[j]).key.text() != (#[trigger] args[k]).key.text(),
        forall|k: int|
            0 <= k < i ==> parameter_declared(decl.params, (#[trigger] args[k]).key.text()),
    ensures
        argument_fault(args, i, decl) is None <==> arguments_known(args, decl.params),
        argument_fault(args, i, decl) matches Some(error) ==> names_a_repeat(
            error,
            args,
            decl.name.name,
        ) || names_a_stray(error, args, decl.params, decl.name.name),
    decreases args.len() - i,
{
    if i < args.len() {
        let key = args[i].key.text();
        let first = arg_index(args, key, 0);
        lemma_arg_index(args, key, 0);
        lemma_declared(decl.params, key, 0);
        if first < i {
            assert(args[first].key.text() == args[i].key.text());
        } else if !declares_param(decl.params, key, 0) {
            assert(!parameter_declared(decl.params, args[i].key.text()));
        } else {
            assert(parameter_declared(decl.params, args[i].key.text()));
            assert forall|j: int, k: int| 0 <= j < k < i + 1 implies (#[trigger] args[j]).key.text()
                != (#[trigger] args[k]).key.text() by {
                if k == i {
                    assert(j < first);
                }
            }
            lemma_argument_fault(args, i + 1, decl);
        }
    }
}

proof fn lemma_missing(
    args: Seq<RawEntryV>,
    params: Seq<ParamV>,
    i: int,
    template: Seq<char>,
    span: Span,
)
    requires
        0 <= i <= params.len(),
    ensures
        missing_argument(args, params, i, template, span) is None <==> forall|k: int|
            i <= k < params.len() ==> argument_given(args, (#[trigger] params[k]).name.name),
        missing_argument(args, params, i, template, span) matches Some(error)
            ==> names_an_omission(error, args, params, template, span),
    decreases params.len() - i,
{
    if i < params.len() {
        lemma_given(args, params[i].name.name, 0);
        if arg_from(args, params[i].name.name, 0) is None {
            assert(!argument_given(args, params[i].name.name));
        } else {
            assert(argument_given(args, params[i].name.name));
            lemma_missing(args, params, i + 1, template, span);
        }
    }
}

/// An invocation is accepted if and only if its arguments are the
/// parameters. A refusal is about one of three things, and names the
/// template, the argument or parameter, and where: an argument given
/// twice, by both places; an argument that is no parameter; or a parameter
/// left out, at the invocation. What is wrong with an argument comes
/// before what is missing.
pub proof fn law_refused_calls_are_named(inv: TemplateInvocationV, decl: TemplateDeclV)
    ensures
        call_fault(inv, decl) is None <==> arguments_fit(inv.args.entries, decl.params),
        call_fault(inv, decl) matches Some(error) ==> {
            ||| names_a_repeat(error, inv.args.entries, decl.name.name)
            ||| names_a_stray(error, inv.args.entries, decl.params, decl.name.name)
            ||| names_an_omission(
                error,
                inv.args.entries,
                decl.params,
                decl.name.name,
                inv.span,
            ) && arguments_known(inv.args.entries, decl.params)
        },
{
    let args = inv.args.entries;
    let params = decl.params;
    lemma_argument_fault(args, 0, decl);
    lemma_missing(args, params, 0, decl.name.name, inv.span);
}

/// The names of the templates being resolved and the one that is reached
/// again.
pub open spec fn names_of_chain<S>(
    chain: Seq<Seq<char>>,
    in_progress: Seq<TemplateKeyV<S>>,
    name: Seq<char>,
) -> bool {
    &&& chain.len() == in_progress.len() + 1
    &&& forall|k: int| 0 <= k < in_progress.len() ==> #[trigger] chain[k] == in_progress[k].name
    &&& chain[in_progress.len() as int] == name
}

proof fn lemma_in_progress<S>(in_progress: Seq<TemplateKeyV<S>>, key: TemplateKeyV<S>, i: int)
    requires
        0 <= i,
    ensures
        in_progress_from(in_progress, key, i) <==> exists|k: int|
            i <= k < in_progress.len() && #[trigger] in_progress[k] == key,
    decreases in_progress.len() - i,
{
    if i < in_progress.len() && in_progress[i] != key {
        lemma_in_progress(in_progress, key, i + 1);
    }
}

/// A template not resolved before that is reached again while it is being
/// resolved is a cycle, told by the names on the way and its own; one more
/// than sixty-four deep is too deep. Both point at the template's name.
pub proof fn law_cycles_and_depth_are_refused<R: SymbolResolver>(
    decl: TemplateDeclV,
    scope: R::Scope,
    table: SymbolTable<R::Scope>,
    decls: DeclarationsV,
    in_progress: Seq<TemplateKeyV<R::Scope>>,
    progress: ProgressV<R::Scope>,
)
    requires
        cached_from(progress.cache, TemplateKeyV { scope, name: decl.name.name }, 0) is None,
    ensures
        (exists|k: int|
            0 <= k < in_progress.len() && (#[trigger] in_progress[k]).scope == scope
                && in_progress[k].name == decl.name.name) ==> (resolved_template::<R>(
            decl,
            scope,
            table,
            decls,
            in_progress,
            progress,
        ) matches Err(ComposeErrorV::TemplateCycle { chain, span }) && span == decl.name.span
            && names_of_chain(chain, in_progress, decl.name.name)),
        (forall|k: int|
            0 <= k < in_progress.len() ==> (#[trigger] in_progress[k]).scope != scope
                || in_progress[k].name != decl.name.name) && in_progress.len() >= 64
            ==> resolved_template::<R>(decl, scope, table, decls, in_progress, progress) == Err::<
            (ServiceFieldsV, ProgressV<R::Scope>),
            ComposeErrorV,
        >(
            ComposeErrorV::TemplateNestingTooDeep {
                name: decl.name.name,
                limit: 64,
                span: decl.name.span,
            },
        ),
{
    let key = TemplateKeyV { scope, name: decl.name.name };
    lemma_in_progress(in_progress, key, 0);
    if exists|k: int|
        0 <= k < in_progress.len() && (#[trigger] in_progress[k]).scope == scope
            && in_progress[k].name == decl.name.name {
        let k = choose|k: int|
            0 <= k < in_progress.len() && (#[trigger] in_progress[k]).scope == scope
                && in_progress[k].name == decl.name.name;
        assert(in_progress[k] == key);
    }
}

/// What a template became when it was resolved is kept, and is what the
/// same name in the same scope gives from then on.
pub proof fn law_templates_are_resolved_once<R: SymbolResolver>(
    decl: TemplateDeclV,
    scope: R::Scope,
    table: SymbolTable<R::Scope>,
    decls: DeclarationsV,
    in_progress: Seq<TemplateKeyV<R::Scope>>,
    progress: ProgressV<R::Scope>,
    later: Seq<TemplateKeyV<R::Scope>>,
)
    ensures
        resolved_template::<R>(decl, scope, table, decls, in_progress, progress) matches Ok((
            fields,
            more,
        )) ==> resolved_template::<R>(decl, scope, table, decls, later, more) matches Ok((
            again,
            after,
        )) && after == more && (cached_from(
            more.cache,
            TemplateKeyV { scope, name: decl.name.name },
            0,
        ) == Some(again)),
{
    let key = TemplateKeyV { scope, name: decl.name.name };
    if let Ok((fields, more)) = resolved_template::<R>(
        decl,
        scope,
        table,
        decls,
        in_progress,
        progress,
    ) {
        if cached_from(progress.cache, key, 0) is None {
            lemma_cached(more.cache, key, more.cache.len() - 1, 0);
        }
    }
}

proof fn lemma_cached<S>(
    cache: Seq<crate::compose::engine::CachedTemplateV<S>>,
    key: TemplateKeyV<S>,
    at: int,
    i: int,
)
    requires
        0 <= i <= at < cache.len(),
        cache[at].key == key,
    ensures
        cached_from(cache, key, i) is Some,
    decreases cache.len() - i,
{
    if cache[i].key != key {
        lemma_cached(cache, key, at, i + 1);
    }
}

/// An invocation looks its template up in the scope it is written in, and
/// resolves it in the scope that one is declared in: whatever is wrong
/// with either, or with the arguments between them, is the answer.
pub proof fn law_templates_are_resolved_at_home<R: SymbolResolver>(
    inv: TemplateInvocationV,
    scope: R::Scope,
    home: R::Scope,
    decl: TemplateDeclV,
    error: ComposeErrorV,
    table: SymbolTable<R::Scope>,
    decls: DeclarationsV,
    in_progress: Seq<TemplateKeyV<R::Scope>>,
    progress: ProgressV<R::Scope>,
)
    ensures
        table.template(scope, inv.qualifier, inv.name.name, inv.span) == Err::<
            (R::Scope, TemplateDeclV),
            ComposeErrorV,
        >(error) ==> resolved_invocation::<R>(inv, scope, table, decls, in_progress, progress)
            == Err::<(ServiceFieldsV, ProgressV<R::Scope>), ComposeErrorV>(error),
        table.template(scope, inv.qualifier, inv.name.name, inv.span) == Ok::<
            (R::Scope, TemplateDeclV),
            ComposeErrorV,
        >((home, decl)) ==> {
            let r = resolved_invocation::<R>(inv, scope, table, decls, in_progress, progress);
            &&& call_fault(inv, decl) == Some(error) ==> r == Err::<
                (ServiceFieldsV, ProgressV<R::Scope>),
                ComposeErrorV,
            >(error)
            &&& call_fault(inv, decl) is None && resolved_template::<R>(
                decl,
                home,
                table,
                decls,
                in_progress,
                progress,
            ) == Err::<(ServiceFieldsV, ProgressV<R::Scope>), ComposeErrorV>(error) ==> r == Err::<
                (ServiceFieldsV, ProgressV<R::Scope>),
                ComposeErrorV,
            >(error)
            &&& r is Ok ==> call_fault(inv, decl) is None && resolved_template::<R>(
                decl,
                home,
                table,
                decls,
                in_progress,
                progress,
            ) is Ok
        },
{
}

/// A body merged with its templates holds, for each single-value field,
/// what it sets itself, and else what its templates set.
pub proof fn law_bodies_lie_over_their_templates<R: SymbolResolver>(
    fields: ServiceFieldsV,
    scope: R::Scope,
    table: SymbolTable<R::Scope>,
    decls: DeclarationsV,
    in_progress: Seq<TemplateKeyV<R::Scope>>,
    progress: ProgressV<R::Scope>,
) -> (r: (ServiceFieldsV, MergeAccV))
    ensures
        body_merged::<R>(fields, scope, table, decls, in_progress, progress) matches Ok((
            whole,
            after,
        )) ==> {
            &&& single_values_layered(whole, r.0, r.1.fields())
            &&& scoped_accesses::<R>(fields, scope, table, decls) matches Ok(written)
            &&& merged_invocations::<R>(
                written.with,
                0,
                MergeAccV::none(),
                scope,
                table,
                decls,
                in_progress,
                progress,
            ) matches Ok((acc, more))
            &&& acc == r.1
            &&& qualified_references(
                ServiceFieldsV { with: Seq::empty(), ..written },
                scope,
                table,
                more.imports,
            ) matches Ok((own, imports))
            &&& own == r.0
            &&& after.imports == imports
            &&& after.warnings == more.warnings
            &&& after.cache == more.cache
        },
{
    if let Ok((whole, after)) = body_merged::<R>(
        fields,
        scope,
        table,
        decls,
        in_progress,
        progress,
    ) {
        let written = scoped_accesses::<R>(fields, scope, table, decls)->Ok_0;
        let (acc, more) = merged_invocations::<R>(
            written.with,
            0,
            MergeAccV::none(),
            scope,
            table,
            decls,
            in_progress,
            progress,
        )->Ok_0;
        let (own, imports) = qualified_references(
            ServiceFieldsV { with: Seq::empty(), ..written },
            scope,
            table,
            more.imports,
        )->Ok_0;
        law_own_fields_win_one_by_one(acc, own);
        (own, acc)
    } else {
        (fields, MergeAccV::none())
    }
}

/// Whether a value is no number and no parameter that may become one.
pub open spec fn cannot_be_a_number(value: Option<LiteralV>) -> bool {
    value matches Some(lit) && (lit is Str || lit is Ident || lit is Qualified || lit is Field)
}

/// The port a service exposes and the retries of its health check have to
/// be numbers. The first of the two that is not is named, with its place.
pub proof fn law_ports_and_retries_are_numbers(fields: ServiceFieldsV)
    ensures
        ({
            let port = match fields.expose {
                Some(expose) => expose.port,
                None => None,
            };
            let retries = match fields.healthcheck {
                Some(check) => check.retries,
                None => None,
            };
            &&& numeric_fault(fields) is None <==> !cannot_be_a_number(port)
                && !cannot_be_a_number(retries)
            &&& numeric_fault(fields) matches Some(error) ==> (error matches
                ComposeErrorV::FieldNotNumeric { field, span, .. } && (if cannot_be_a_number(port) {
                field == "expose.port"@ && span == port->0.span()
            } else {
                field == "healthcheck.retries"@ && span == retries->0.span()
            }))
        }),
{
}

/// A service keeps its name and its place through composition, and its
/// numbers are numbers.
pub proof fn law_services_stay_themselves<R: SymbolResolver>(
    service: ServiceV,
    scope: R::Scope,
    table: SymbolTable<R::Scope>,
    decls: DeclarationsV,
    progress: ProgressV<R::Scope>,
)
    ensures
        composed_service::<R>(service, scope, table, decls, progress) matches Ok((after, _))
            ==> after.name == service.name && after.span == service.span && numeric_fault(
            after.fields,
        ) is None,
{
}

proof fn lemma_collected_push(decls: Seq<TopDeclV>, d: TopDeclV, i: int, so_far: CollectedV)
    requires
        0 <= i <= decls.len(),
    ensures
        collected_from(decls.push(d), i, so_far) == (match collected_from(decls, i, so_far) {
            Ok(c) => collected_decl(c, d),
            Err(error) => Err(error),
        }),
    decreases decls.len() - i,
{
    reveal_with_fuel(collected_from, 2);
    if i < decls.len() {
        assert(decls.push(d)[i] == decls[i]);
        if let Ok(more) = collected_decl(so_far, decls[i]) {
            lemma_collected_push(decls, d, i + 1, more);
        }
    } else {
        assert(decls.push(d)[i] == d);
    }
}

proof fn lemma_found_decl<D: ImportableDecl>(decls: Seq<D::V>, name: Seq<char>, i: int)
    requires
        0 <= i <= decls.len(),
    ensures
        i <= decl_index::<D>(decls, name, i) <= decls.len(),
        decl_index::<D>(decls, name, i) < decls.len() ==> D::name_of(
            decls[decl_index::<D>(decls, name, i)],
        ) == name,
        forall|k: int|
            i <= k < decl_index::<D>(decls, name, i) ==> D::name_of(#[trigger] decls[k]) != name,
    decreases decls.len() - i,
{
    if i < decls.len() && D::name_of(decls[i]) != name {
        lemma_found_decl::<D>(decls, name, i + 1);
    }
}

proof fn lemma_found_service(services: Seq<ServiceV>, name: Seq<char>, i: int)
    requires
        0 <= i <= services.len(),
    ensures
        i <= service_index(services, name, i) <= services.len(),
        service_index(services, name, i) < services.len() ==> services[service_index(
            services,
            name,
            i,
        )].name.name == name,
        forall|k: int|
            i <= k < service_index(services, name, i) ==> (#[trigger] services[k]).name.name
                != name,
    decreases services.len() - i,
{
    if i < services.len() && services[i].name.name != name {
        lemma_found_service(services, name, i + 1);
    }
}

proof fn lemma_found_template(templates: Seq<TemplateDeclV>, name: Seq<char>, i: int)
    requires
        0 <= i <= templates.len(),
    ensures
        i <= template_index(templates, name, i) <= templates.len(),
        template_index(templates, name, i) < templates.len() ==> templates[template_index(
            templates,
            name,
            i,
        )].name.name == name,
        forall|k: int|
            i <= k < template_index(templates, name, i) ==> (#[trigger] templates[k]).name.name
                != name,
    decreases templates.len() - i,
{
    if i < templates.len() && templates[i].name.name != name {
        lemma_found_template(templates, name, i + 1);
    }
}

/// Whether one of `names` is `name`, and which place `place` the first one
/// is at.
pub open spec fn first_so_named(
    names: Seq<IdentV>,
    name: Seq<char>,
    place: Span,
) -> bool {
    exists|k: int|
        0 <= k < names.len() && (#[trigger] names[k]).name == name && names[k].span == place && (
        forall|j: int| 0 <= j < k ==> (#[trigger] names[j]).name != name)
}

/// Whether `name` is none of `names`.
pub open spec fn so_named_by_none(names: Seq<IdentV>, name: Seq<char>) -> bool {
    forall|k: int| 0 <= k < names.len() ==> (#[trigger] names[k]).name != name
}

/// Declarations are collected in their order, each with those of its kind:
/// one more goes behind them, if its name is new among them, and leaves
/// the other kinds alone. One whose name is taken is refused under its
/// name and its kind, with the place of the first such and its own. A
/// `use` adds nothing, and a refusal stands whatever follows.
pub proof fn law_declarations_are_collected_in_order(
    decls: Seq<TopDeclV>,
    n: NetworkV,
    v: VolumeV,
    s: ServiceV,
    t: TemplateDeclV,
    u: crate::ast::UseDeclV,
    d: TopDeclV,
    error: ComposeErrorV,
)
    ensures
        collected(Seq::empty()) == Ok::<CollectedV, ComposeErrorV>(
            CollectedV {
                networks: Seq::empty(),
                volumes: Seq::empty(),
                services: Seq::empty(),
                templates: Seq::empty(),
            },
        ),
        collected(decls) == Err::<CollectedV, ComposeErrorV>(error) ==> collected(decls.push(d))
            == Err::<CollectedV, ComposeErrorV>(error),
        collected(decls) matches Ok(c) ==> {
            let networks = c.networks.map_values(|x: NetworkV| x.name);
            let volumes = c.volumes.map_values(|x: VolumeV| x.name);
            let services = c.services.map_values(|x: ServiceV| x.name);
            let templates = c.templates.map_values(|x: TemplateDeclV| x.name);
            &&& match collected(decls.push(TopDeclV::Network(n))) {
                Ok(more) => so_named_by_none(networks, n.name.name) && more.networks
                    == c.networks.push(n) && more.volumes == c.volumes && more.services
                    == c.services && more.templates == c.templates,
                Err(ComposeErrorV::DuplicateNetworkName { name, first, second }) => name
                    == n.name.name && second == n.name.span && first_so_named(
                    networks,
                    name,
                    first,
                ),
                _ => false,
            }
            &&& match collected(decls.push(TopDeclV::Volume(v))) {
                Ok(more) => so_named_by_none(volumes, v.name.name) && more.volumes
                    == c.volumes.push(v) && more.networks == c.networks && more.services
                    == c.services && more.templates == c.templates,
                Err(ComposeErrorV::DuplicateVolumeName { name, first, second }) => name
                    == v.name.name && second == v.name.span && first_so_named(
                    volumes,
                    name,
                    first,
                ),
                _ => false,
            }
            &&& match collected(decls.push(TopDeclV::Service(s))) {
                Ok(more) => so_named_by_none(services, s.name.name) && more.services
                    == c.services.push(s) && more.networks == c.networks && more.volumes
                    == c.volumes && more.templates == c.templates,
                Err(ComposeErrorV::DuplicateServiceName { name, first, second }) => name
                    == s.name.name && second == s.name.span && first_so_named(
                    services,
                    name,
                    first,
                ),
                _ => false,
            }
            &&& match collected(decls.push(TopDeclV::Template(t))) {
                Ok(more) => so_named_by_none(templates, t.name.name) && more.templates
                    == c.templates.push(t) && more.networks == c.networks && more.volumes
                    == c.volumes && more.services == c.services,
                Err(ComposeErrorV::DuplicateTemplateName { name, first, second }) => name
                    == t.name.name && second == t.name.span && first_so_named(
                    templates,
                    name,
                    first,
                ),
                _ => false,
            }
            &&& collected(decls.push(TopDeclV::Use(u))) == Ok::<CollectedV, ComposeErrorV>(c)
        },
{
    let none = CollectedV {
        networks: Seq::empty(),
        volumes: Seq::empty(),
        services: Seq::empty(),
        templates: Seq::empty(),
    };
    lemma_collected_push(decls, d, 0, none);
    if let Ok(c) = collected(decls) {
        lemma_collected_push(decls, TopDeclV::Network(n), 0, none);
        lemma_collected_push(decls, TopDeclV::Volume(v), 0, none);
        lemma_collected_push(decls, TopDeclV::Service(s), 0, none);
        lemma_collected_push(decls, TopDeclV::Template(t), 0, none);
        lemma_collected_push(decls, TopDeclV::Use(u), 0, none);
        lemma_found_decl::<Network>(c.networks, n.name.name, 0);
        lemma_found_decl::<Volume>(c.volumes, v.name.name, 0);
        lemma_found_service(c.services, s.name.name, 0);
        lemma_found_template(c.templates, t.name.name, 0);
        let networks = c.networks.map_values(|x: NetworkV| x.name);
        let volumes = c.volumes.map_values(|x: VolumeV| x.name);
        let services = c.services.map_values(|x: ServiceV| x.name);
        let templates = c.templates.map_values(|x: TemplateDeclV| x.name);
        let a = decl_index::<Network>(c.networks, n.name.name, 0);
        if a < c.networks.len() {
            assert(networks[a] == c.networks[a].name);
        }
        assert forall|k: int| 0 <= k < a implies (#[trigger] networks[k]).name != n.name.name by {
            assert(Network::name_of(c.networks[k]) != n.name.name);
        }
        let b = decl_index::<Volume>(c.volumes, v.name.name, 0);
        if b < c.volumes.len() {
            assert(volumes[b] == c.volumes[b].name);
        }
        assert forall|k: int| 0 <= k < b implies (#[trigger] volumes[k]).name != v.name.name by {
            assert(Volume::name_of(c.volumes[k]) != v.name.name);
        }
        let e = service_index(c.services, s.name.name, 0);
        if e < c.services.len() {
            assert(services[e] == c.services[e].name);
        }
        assert forall|k: int| 0 <= k < e implies (#[trigger] services[k]).name != s.name.name by {
            assert(c.services[k].name.name != s.name.name);
        }
        let f = template_index(c.templates, t.name.name, 0);
        if f < c.templates.len() {
            assert(templates[f] == c.templates[f].name);
        }
        assert forall|k: int| 0 <= k < f implies (#[trigger] templates[k]).name != t.name.name by {
            assert(c.templates[k].name.name != t.name.name);
        }
    }
}

/// In a single file a template name reaches the template so called, and no
/// alias reaches anything: it is refused by its name and place.
pub proof fn law_single_files_know_their_templates(
    templates: Seq<TemplateDeclV>,
    scope: usize,
    qualifier: IdentV,
    name: Seq<char>,
    span: Span,
)
    ensures
        single_file_table(templates).template(scope, Some(qualifier), name, span) == Err::<
            (usize, TemplateDeclV),
            ComposeErrorV,
        >(ComposeErrorV::UnknownAlias { alias: qualifier.name, span: qualifier.span }),
        single_file_table(templates).network(scope, qualifier, name, span) == Err::<
            NetworkV,
            ComposeErrorV,
        >(ComposeErrorV::UnknownAlias { alias: qualifier.name, span: qualifier.span }),
        single_file_table(templates).volume(scope, qualifier, name, span) == Err::<
            VolumeV,
            ComposeErrorV,
        >(ComposeErrorV::UnknownAlias { alias: qualifier.name, span: qualifier.span }),
        match single_file_table(templates).template(scope, None, name, span) {
            Ok((home, decl)) => decl.name.name == name && templates.contains(decl),
            Err(error) => error == (ComposeErrorV::UnknownTemplate { name, span }) && forall|k: int|
                0 <= k < templates.len() ==> (#[trigger] templates[k]).name.name != name,
        },
{
    lemma_template_from(templates, name, 0);
}

proof fn lemma_template_from(templates: Seq<TemplateDeclV>, name: Seq<char>, i: int)
    requires
        0 <= i,
    ensures
        match template_from(templates, name, i) {
            Some(decl) => decl.name.name == name && templates.contains(decl),
            None => forall|k: int|
                i <= k < templates.len() ==> (#[trigger] templates[k]).name.name != name,
        },
    decreases templates.len() - i,
{
    if i < templates.len() && templates[i].name.name != name {
        lemma_template_from(templates, name, i + 1);
    }
}

/// Whether one of the imports from index `i` on is this very declaration.
pub open spec fn imported_there<D: ImportableDecl>(
    imported: Seq<ImportedV<D::V>>,
    decl: D::V,
    i: int,
) -> bool {
    exists|k: int| i <= k < imported.len() && (#[trigger] imported[k]).decl == decl
}

/// Nothing but imports joins a program's own declarations. Where they
/// cannot join, one of them has the name of a declaration that is another
/// one: the refusal names its alias, its name, and where it is referred
/// to.
pub proof fn law_only_imports_join<D: ImportableDecl>(
    all: Seq<D::V>,
    imported: Seq<ImportedV<D::V>>,
    i: int,
)
    requires
        0 <= i <= imported.len(),
    ensures
        match with_imported::<D>(all, imported, i) {
            Ok(joined) => all.is_prefix_of(joined) && forall|m: int|
                all.len() <= m < joined.len() ==> imported_there::<D>(
                    imported,
                    #[trigger] joined[m],
                    i,
                ),
            Err(error) => exists|k: int|
                i <= k < imported.len() && error == D::collision_of(
                    (#[trigger] imported[k]).alias,
                    D::name_of(imported[k].decl),
                    imported[k].reference,
                ) && clashes::<D>(all, imported, k),
        },
    decreases imported.len() - i,
{
    if i < imported.len() {
        let entry = imported[i];
        lemma_found_decl::<D>(all, D::name_of(entry.decl), 0);
        let at = decl_index::<D>(all, D::name_of(entry.decl), 0);
        if at < all.len() {
            if all[at] == entry.decl {
                law_only_imports_join::<D>(all, imported, i + 1);
                if let Ok(joined) = with_imported::<D>(all, imported, i) {
                    assert forall|m: int| all.len() <= m < joined.len() implies imported_there::<D>(
                        imported,
                        #[trigger] joined[m],
                        i,
                    ) by {
                        assert(imported_there::<D>(imported, joined[m], i + 1));
                    }
                }
            } else {
                assert(clashes::<D>(all, imported, i)) by {
                    assert(D::name_of(all[at]) == D::name_of(imported[i].decl));
                }
            }
        } else {
            let next = all.push(entry.decl);
            law_only_imports_join::<D>(next, imported, i + 1);
            match with_imported::<D>(all, imported, i) {
                Ok(joined) => {
                    assert(joined[all.len() as int] == next[all.len() as int]);
                    assert(imported[i].decl == joined[all.len() as int]);
                    assert forall|m: int| all.len() <= m < joined.len() implies imported_there::<D>(
                        imported,
                        #[trigger] joined[m],
                        i,
                    ) by {
                        if m > all.len() {
                            assert(imported_there::<D>(imported, joined[m], i + 1));
                        }
                    }
                },
                Err(error) => {
                    let k = choose|k: int|
                        i + 1 <= k < imported.len() && error == D::collision_of(
                            (#[trigger] imported[k]).alias,
                            D::name_of(imported[k].decl),
                            imported[k].reference,
                        ) && clashes::<D>(next, imported, k);
                    assert(clashes::<D>(all, imported, k)) by {
                        if exists|m: int|
                            0 <= m < next.len() && D::name_of(#[trigger] next[m]) == D::name_of(
                                imported[k].decl,
                            ) && next[m] != imported[k].decl {
                            let m = choose|m: int|
                                0 <= m < next.len() && D::name_of(#[trigger] next[m])
                                    == D::name_of(imported[k].decl) && next[m] != imported[k].decl;
                            if m < all.len() {
                                assert(next[m] == all[m]);
                            } else {
                                assert(imported[i].decl == next[m]);
                            }
                        }
                    }
                },
            }
        }
    }
}

/// Whether the import at `k` has the name of another declaration: one of
/// the program's own, or one imported before it.
pub open spec fn clashes<D: ImportableDecl>(
    all: Seq<D::V>,
    imported: Seq<ImportedV<D::V>>,
    k: int,
) -> bool {
    ||| exists|m: int|
        0 <= m < all.len() && D::name_of(#[trigger] all[m]) == D::name_of(imported[k].decl)
            && all[m] != imported[k].decl
    ||| exists|m: int|
        0 <= m < k && D::name_of((#[trigger] imported[m]).decl) == D::name_of(imported[k].decl)
            && imported[m].decl != imported[k].decl
}

/// A composed program holds its own networks and volumes first and as they
/// were declared, and as many services as it declared.
pub proof fn law_composed_programs_keep_their_declarations<R: SymbolResolver>(
    networks: Seq<NetworkV>,
    volumes: Seq<VolumeV>,
    services: Seq<ServiceV>,
    scope: R::Scope,
    table: SymbolTable<R::Scope>,
)
    ensures
        composed::<R>(networks, volumes, services, scope, table) matches Ok(program)
            ==> networks.is_prefix_of(program.networks) && volumes.is_prefix_of(program.volumes)
            && program.services.len() == services.len() && (forall|k: int|
            0 <= k < services.len() ==> (#[trigger] program.services[k]).name == services[k].name
                && program.services[k].span == services[k].span) && program.files.len() == 0,
{
    let decls = DeclarationsV { networks, volumes, services: service_names(services) };
    lemma_services_in_order::<R>(
        services,
        0,
        Seq::empty(),
        scope,
        table,
        decls,
        ProgressV::none(),
    );
    if let Ok((resolved, progress)) = composed_services::<R>(
        services,
        0,
        Seq::empty(),
        scope,
        table,
        decls,
        ProgressV::none(),
    ) {
        law_only_imports_join::<Network>(networks, progress.imports.networks, 0);
        law_only_imports_join::<Volume>(volumes, progress.imports.volumes, 0);
    }
}

proof fn lemma_services_in_order<R: SymbolResolver>(
    services: Seq<ServiceV>,
    i: int,
    before: Seq<ServiceV>,
    scope: R::Scope,
    table: SymbolTable<R::Scope>,
    decls: DeclarationsV,
    progress: ProgressV<R::Scope>,
)
    requires
        0 <= i <= services.len(),
        before.len() == i,
        forall|k: int|
            0 <= k < i ==> (#[trigger] before[k]).name == services[k].name && before[k].span
                == services[k].span,
    ensures
        composed_services::<R>(services, i, before, scope, table, decls, progress) matches Ok((
            resolved,
            _,
        )) ==> resolved.len() == services.len() && forall|k: int|
            0 <= k < services.len() ==> (#[trigger] resolved[k]).name == services[k].name
                && resolved[k].span == services[k].span,
    decreases services.len() - i,
{
    if i < services.len() {
        if let Ok((service, more)) = composed_service::<R>(
            services[i],
            scope,
            table,
            decls,
            progress,
        ) {
            let next = before.push(service);
            assert forall|k: int| 0 <= k < i + 1 implies (#[trigger] next[k]).name
                == services[k].name && next[k].span == services[k].span by {
                if k < i {
                    assert(next[k] == before[k]);
                }
            }
            lemma_services_in_order::<R>(services, i + 1, next, scope, table, decls, more);
        }
    }
}

/// Templates are merged left to right: one more at the end of a `with`
/// list is resolved after the others, with what they left, and merged into
/// what they gave, under its own name.
pub proof fn law_templates_merge_left_to_right<R: SymbolResolver>(
    with: Seq<TemplateInvocationV>,
    inv: TemplateInvocationV,
    i: int,
    acc: MergeAccV,
    scope: R::Scope,
    table: SymbolTable<R::Scope>,
    decls: DeclarationsV,
    in_progress: Seq<TemplateKeyV<R::Scope>>,
    progress: ProgressV<R::Scope>,
)
    requires
        0 <= i <= with.len(),
    ensures
        merged_invocations::<R>(
            Seq::empty(),
            0,
            acc,
            scope,
            table,
            decls,
            in_progress,
            progress,
        ) == Ok::<(MergeAccV, ProgressV<R::Scope>), ComposeErrorV>((acc, progress)),
        ({
            let whole = merged_invocations::<R>(
                with.push(inv),
                i,
                acc,
                scope,
                table,
                decls,
                in_progress,
                progress,
            );
            match merged_invocations::<R>(
                with,
                i,
                acc,
                scope,
                table,
                decls,
                in_progress,
                progress,
            ) {
                Err(error) => whole == Err::<(MergeAccV, ProgressV<R::Scope>), ComposeErrorV>(
                    error,
                ),
                Ok((before, left)) => match resolved_invocation::<R>(
                    inv,
                    scope,
                    table,
                    decls,
                    in_progress,
                    left,
                ) {
                    Err(error) => whole == Err::<(MergeAccV, ProgressV<R::Scope>), ComposeErrorV>(
                        error,
                    ),
                    Ok((fields, more)) => match merged_tier(
                        before,
                        fields,
                        TierV::Explicit(inv.name.name),
                    ) {
                        Err(error) => whole == Err::<
                            (MergeAccV, ProgressV<R::Scope>),
                            ComposeErrorV,
                        >(error),
                        Ok(after) => whole == Ok::<
                            (MergeAccV, ProgressV<R::Scope>),
                            ComposeErrorV,
                        >((after, more)),
                    },
                },
            }
        }),
    decreases with.len() - i,
{
    reveal_with_fuel(merged_invocations, 2);
    let longer = with.push(inv);
    if i < with.len() {
        assert(longer[i] == with[i]);
        if let Ok((fields, more)) = resolved_invocation::<R>(
            with[i],
            scope,
            table,
            decls,
            in_progress,
            progress,
        ) {
            if let Ok(merged) = merged_tier(acc, fields, TierV::Explicit(with[i].name.name)) {
                law_templates_merge_left_to_right::<R>(
                    with,
                    inv,
                    i + 1,
                    merged,
                    scope,
                    table,
                    decls,
                    in_progress,
                    more,
                );
            }
        }
    } else {
        assert(longer[i] == inv);
    }
}

/// A composed program holds the services as they were resolved, one after
/// the other from nothing, with every network, volume and service of the
/// program known to each, and reports what they were warned of. Where they
/// imported nothing, its networks and volumes are its own.
pub proof fn law_composed_programs_hold_what_was_resolved<R: SymbolResolver>(
    networks: Seq<NetworkV>,
    volumes: Seq<VolumeV>,
    services: Seq<ServiceV>,
    scope: R::Scope,
    table: SymbolTable<R::Scope>,
)
    ensures
        ({
            let decls = DeclarationsV {
                networks,
                volumes,
                services: Seq::new(services.len(), |k: int| services[k].name.name),
            };
            let resolved = composed_services::<R>(
                services,
                0,
                Seq::empty(),
                scope,
                table,
                decls,
                ProgressV::none(),
            );
            match composed::<R>(networks, volumes, services, scope, table) {
                Ok(program) => resolved matches Ok((all, progress)) && program.services == all
                    && program.warnings == progress.warnings && (
                progress.imports.networks.len() == 0 ==> program.networks == networks) && (
                progress.imports.volumes.len() == 0 ==> program.volumes == volumes),
                Err(error) => resolved is Ok || resolved == Err::<
                    (Seq<ServiceV>, ProgressV<R::Scope>),
                    ComposeErrorV,
                >(error),
            }
        }),
{
    let names = Seq::new(services.len(), |k: int| services[k].name.name);
    assert(service_names(services) =~= names);
}

} // verus!
