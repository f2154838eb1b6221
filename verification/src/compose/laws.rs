//! What composition guarantees of every program it accepts.

use vstd::prelude::*;

use crate::ast::{
    IdentV, Network, NetworkV, ParamV, ProgramV, RawEntry, RawEntryV, ServiceFields, ServiceFieldsV,
    ServiceV, TemplateDeclV, TemplateInvocation, TemplateInvocationV, TopDeclV, Volume, VolumeV,
};
use crate::compose::access::{
    lemma_resolved_accesses_within, lemma_scoped_accesses_within, resolved_accesses,
    scoped_accesses, AccessPass, AccessPassV, AccessScope,
};
use crate::compose::engine::{
    argument_fault, body_merged, cached_from, call_fault, collected, collected_decl, collected_from,
    composed, composed_program, composed_service, composed_services, declares_param,
    in_progress_from, merged_invocations, missing_argument, resolved_invocation, resolved_template,
    service_index, service_names, template_index, CachedTemplateV, CollectedV, ProgressV,
    TemplateKeyV, MAX_TEMPLATE_DEPTH,
};
use crate::compose::merge::{
    lemma_fields_within, lemma_merged_tier_within, merged_tier, MergeAccV, TierV,
};
use crate::compose::merge_laws::{
    fields_distinct, law_merging_keeps_keys_distinct, lemma_merged_fields_distinct,
};
use crate::compose::qualify::{
    lemma_plain_values_within, lemma_qualified_references_within, qualified_references,
    with_imported, ImportedV,
};
use crate::compose::resolver::{
    decl_index, single_file_table, template_from, DeclarationsV, ImportableDecl, SingleFileResolver,
    SymbolResolver, SymbolTable,
};
use crate::compose::slots::{raw_within, settles, Slots, Walk};
use crate::compose::substitute::{arg_from, CallV};
use crate::compose_error::ComposeErrorV;
use crate::source::Span;
use crate::warning::{grown, lemma_grown_twice};

verus! {

/// The names of a template's parameters.
pub open spec fn param_names(params: Seq<ParamV>) -> Set<Seq<char>> {
    Set::new(|name: Seq<char>| declares_param(params, name, 0))
}

/// Whether every `$param` in a template's body is one that the template
/// declares.
pub open spec fn template_sound(decl: TemplateDeclV) -> bool {
    ServiceFields::within(decl.fields, param_names(decl.params))
}

/// Whether a body refers to no parameter at all, as that of a service has
/// to.
pub open spec fn parameter_free(fields: ServiceFieldsV) -> bool {
    ServiceFields::within(fields, Set::empty())
}

/// Whether every template that a name resolves to is sound, and one scope
/// declares one template under one name.
pub open spec fn table_sound<S>(table: SymbolTable<S>) -> bool {
    &&& forall|scope: S, qualifier: Option<IdentV>, name: Seq<char>, span: Span|
        (#[trigger] table.template(scope, qualifier, name, span)) matches Ok((_, decl))
            ==> template_sound(decl)
    &&& forall|
        scope1: S,
        qualifier1: Option<IdentV>,
        name1: Seq<char>,
        span1: Span,
        scope2: S,
        qualifier2: Option<IdentV>,
        name2: Seq<char>,
        span2: Span,
    |
        (#[trigger] table.template(scope1, qualifier1, name1, span1)) matches Ok((home1, decl1))
            ==> ((#[trigger] table.template(scope2, qualifier2, name2, span2)) matches Ok(
            (home2, decl2),
        ) ==> (home1 == home2 && decl1.name.name == decl2.name.name ==> decl1.params
            == decl2.params))
}

/// Whether each template resolved before refers only to the parameters of
/// the template that it was resolved from.
pub open spec fn cache_sound<S>(table: SymbolTable<S>, cache: Seq<CachedTemplateV<S>>) -> bool {
    forall|i: int, scope: S, qualifier: Option<IdentV>, name: Seq<char>, span: Span|
        #![trigger cache[i], table.template(scope, qualifier, name, span)]
        0 <= i < cache.len() ==> (table.template(scope, qualifier, name, span) matches Ok(
            (home, decl),
        ) ==> (cache[i].key == (TemplateKeyV { scope: home, name: decl.name.name })
            ==> ServiceFields::within(cache[i].fields, param_names(decl.params))))
}

/// One place a template was looked up from.
pub struct Lookup<S> {
    pub scope: S,
    pub qualifier: Option<IdentV>,
    pub name: Seq<char>,
    pub span: Span,
}

impl<S> Lookup<S> {
    /// Whether this lookup finds `decl`, declared in `home`.
    pub open spec fn finds(self, table: SymbolTable<S>, home: S, decl: TemplateDeclV) -> bool {
        table.template(self.scope, self.qualifier, self.name, self.span) == Ok::<
            (S, TemplateDeclV),
            ComposeErrorV,
        >((home, decl))
    }
}

proof fn lemma_cached_within<S>(
    table: SymbolTable<S>,
    cache: Seq<CachedTemplateV<S>>,
    i: int,
    home: S,
    decl: TemplateDeclV,
    lookup: Lookup<S>,
)
    requires
        0 <= i,
        cache_sound(table, cache),
        lookup.finds(table, home, decl),
    ensures
        cached_from(cache, TemplateKeyV { scope: home, name: decl.name.name }, i) matches Some(
            fields,
        ) ==> ServiceFields::within(fields, param_names(decl.params)),
    decreases cache.len() - i,
{
    if i < cache.len() {
        assert(table.template(lookup.scope, lookup.qualifier, lookup.name, lookup.span) is Ok);
        assert(cache[i] == cache[i]);
        lemma_cached_within(table, cache, i + 1, home, decl, lookup);
    }
}

proof fn lemma_arg_within(
    args: Seq<RawEntryV>,
    name: Seq<char>,
    i: int,
    names: Set<Seq<char>>,
)
    requires
        0 <= i,
        Vec::<RawEntry>::within(args, names),
    ensures
        arg_from(args, name, i) matches Some(value) ==> raw_within(value, names),
    decreases args.len() - i,
{
    if i < args.len() {
        assert(RawEntry::within(args[i], names));
        lemma_arg_within(args, name, i + 1, names);
    }
}

proof fn lemma_args_are_params(
    args: Seq<RawEntryV>,
    i: int,
    decl: TemplateDeclV,
    name: Seq<char>,
)
    requires
        0 <= i,
        argument_fault(args, i, decl) is None,
        arg_from(args, name, i) is Some,
    ensures
        declares_param(decl.params, name, 0),
    decreases args.len() - i,
{
    if args[i].key.text() != name {
        lemma_args_are_params(args, i + 1, decl, name);
    }
}

proof fn lemma_params_are_args(
    args: Seq<RawEntryV>,
    params: Seq<ParamV>,
    i: int,
    template: Seq<char>,
    span: Span,
    name: Seq<char>,
)
    requires
        0 <= i,
        missing_argument(args, params, i, template, span) is None,
        declares_param(params, name, i),
    ensures
        arg_from(args, name, 0) is Some,
    decreases params.len() - i,
{
    if params[i].name.name != name {
        lemma_params_are_args(args, params, i + 1, template, span, name);
    }
}

/// An invocation whose arguments are accepted gives exactly the
/// parameters of its template.
pub proof fn law_arguments_are_the_parameters(inv: TemplateInvocationV, decl: TemplateDeclV)
    requires
        call_fault(inv, decl) is None,
    ensures
        (CallV { template: decl.name.name, args: inv.args.entries }).names() == param_names(
            decl.params,
        ),
{
    let call = CallV { template: decl.name.name, args: inv.args.entries };
    assert forall|name: Seq<char>| #[trigger] call.names().contains(name) == param_names(
        decl.params,
    ).contains(name) by {
        if call.arg(name) is Some {
            lemma_args_are_params(inv.args.entries, 0, decl, name);
        }
        if declares_param(decl.params, name, 0) {
            lemma_params_are_args(
                inv.args.entries,
                decl.params,
                0,
                decl.name.name,
                inv.span,
                name,
            );
        }
    }
    assert(call.names() =~= param_names(decl.params));
}

/// What holds after a step that resolved something: the parameters left
/// are among `names`, what is cached stays sound, and warnings were only
/// added.
pub open spec fn step_sound<S>(
    table: SymbolTable<S>,
    within: bool,
    before: ProgressV<S>,
    after: ProgressV<S>,
) -> bool {
    &&& within
    &&& cache_sound(table, after.cache)
    &&& grown(before.warnings, after.warnings)
}

proof fn lemma_body_sound<R: SymbolResolver>(
    fields: ServiceFieldsV,
    scope: R::Scope,
    table: SymbolTable<R::Scope>,
    decls: DeclarationsV,
    in_progress: Seq<TemplateKeyV<R::Scope>>,
    progress: ProgressV<R::Scope>,
    names: Set<Seq<char>>,
)
    requires
        table_sound(table),
        cache_sound(table, progress.cache),
        ServiceFields::within(fields, names),
    ensures
        body_merged::<R>(fields, scope, table, decls, in_progress, progress) matches Ok(
            (merged, more),
        ) ==> step_sound(table, ServiceFields::within(merged, names), progress, more)
            && merged.with.len() == 0,
    decreases 65 - in_progress.len(), 3int, 0int,
{
    lemma_scoped_accesses_within::<R>(fields, scope, table, decls, names);
    if let Ok(written) = scoped_accesses::<R>(fields, scope, table, decls) {
        assert(MergeAccV::none().within(names));
        lemma_invocations_sound::<R>(
            written.with,
            0,
            MergeAccV::none(),
            scope,
            table,
            decls,
            in_progress,
            progress,
            names,
        );
        if let Ok((acc, more)) = merged_invocations::<R>(
            written.with,
            0,
            MergeAccV::none(),
            scope,
            table,
            decls,
            in_progress,
            progress,
        ) {
            let bare = ServiceFieldsV { with: Seq::empty(), ..written };
            assert(ServiceFields::within(bare, names));
            lemma_qualified_references_within(bare, scope, table, more.imports, names);
            if let Ok((own, imports)) = qualified_references(bare, scope, table, more.imports) {
                lemma_merged_tier_within(acc, own, TierV::Own, names);
                if let Ok(whole) = merged_tier(acc, own, TierV::Own) {
                    lemma_fields_within(whole, names);
                }
            }
        }
    }
}

proof fn lemma_invocations_sound<R: SymbolResolver>(
    with: Seq<TemplateInvocationV>,
    i: int,
    acc: MergeAccV,
    scope: R::Scope,
    table: SymbolTable<R::Scope>,
    decls: DeclarationsV,
    in_progress: Seq<TemplateKeyV<R::Scope>>,
    progress: ProgressV<R::Scope>,
    names: Set<Seq<char>>,
)
    requires
        0 <= i,
        table_sound(table),
        cache_sound(table, progress.cache),
        Vec::<TemplateInvocation>::within(with, names),
        acc.within(names),
    ensures
        merged_invocations::<R>(
            with,
            i,
            acc,
            scope,
            table,
            decls,
            in_progress,
            progress,
        ) matches Ok(
            (merged, more),
        ) ==> step_sound(table, merged.within(names), progress, more),
    decreases 65 - in_progress.len(), 2int, with.len() - i,
{
    if i < with.len() {
        assert(TemplateInvocation::within(with[i], names));
        lemma_invocation_sound::<R>(with[i], scope, table, decls, in_progress, progress, names);
        if let Ok((fields, more)) = resolved_invocation::<R>(
            with[i],
            scope,
            table,
            decls,
            in_progress,
            progress,
        ) {
            let tier = TierV::Explicit(with[i].name.name);
            lemma_merged_tier_within(acc, fields, tier, names);
            if let Ok(merged) = merged_tier(acc, fields, tier) {
                lemma_invocations_sound::<R>(
                    with,
                    i + 1,
                    merged,
                    scope,
                    table,
                    decls,
                    in_progress,
                    more,
                    names,
                );
                if let Ok((_, last)) = merged_invocations::<R>(
                    with,
                    i + 1,
                    merged,
                    scope,
                    table,
                    decls,
                    in_progress,
                    more,
                ) {
                    lemma_grown_twice(progress.warnings, more.warnings, last.warnings);
                }
            }
        }
    }
}

proof fn lemma_invocation_sound<R: SymbolResolver>(
    inv: TemplateInvocationV,
    scope: R::Scope,
    table: SymbolTable<R::Scope>,
    decls: DeclarationsV,
    in_progress: Seq<TemplateKeyV<R::Scope>>,
    progress: ProgressV<R::Scope>,
    names: Set<Seq<char>>,
)
    requires
        table_sound(table),
        cache_sound(table, progress.cache),
        TemplateInvocation::within(inv, names),
    ensures
        resolved_invocation::<R>(inv, scope, table, decls, in_progress, progress) matches Ok(
            (fields, more),
        ) ==> step_sound(table, ServiceFields::within(fields, names), progress, more),
    decreases 65 - in_progress.len(), 1int, 0int,
{
    if let Ok((home, decl)) = table.template(scope, inv.qualifier, inv.name.name, inv.span) {
        if call_fault(inv, decl) is None {
            let lookup = Lookup {
                scope,
                qualifier: inv.qualifier,
                name: inv.name.name,
                span: inv.span,
            };
            lemma_template_sound::<R>(decl, home, table, decls, in_progress, progress, lookup);
            if let Ok((fields, more)) = resolved_template::<R>(
                decl,
                home,
                table,
                decls,
                in_progress,
                progress,
            ) {
                let call = CallV { template: decl.name.name, args: inv.args.entries };
                law_arguments_are_the_parameters(inv, decl);
                assert(call.args_within(names)) by {
                    assert forall|name: Seq<char>|
                        (#[trigger] call.arg(name)) matches Some(value) implies raw_within(
                        call.arg(name)->Some_0,
                        names,
                    ) by {
                        lemma_arg_within(inv.args.entries, name, 0, names);
                    }
                }
                ServiceFields::lemma_bound_within(fields, call, names);
                ServiceFields::lemma_bound_warns(fields, call);
                if let Ok((bound, warnings)) = ServiceFields::bound(fields, call, more.warnings) {
                    lemma_grown_twice(progress.warnings, more.warnings, warnings);
                    lemma_resolved_accesses_within::<R>(
                        bound,
                        AccessScope::Substituted,
                        scope,
                        table,
                        decls,
                        names,
                    );
                    if let Ok(read) = resolved_accesses::<R>(
                        bound,
                        AccessScope::Substituted,
                        scope,
                        table,
                        decls,
                    ) {
                        lemma_qualified_references_within(
                            read,
                            scope,
                            table,
                            more.imports,
                            names,
                        );
                        if let Ok((qualified, _)) = qualified_references(
                            read,
                            scope,
                            table,
                            more.imports,
                        ) {
                            lemma_plain_values_within(qualified, decl.name.name, names);
                        }
                    }
                }
            }
        }
    }
}

proof fn lemma_template_sound<R: SymbolResolver>(
    decl: TemplateDeclV,
    scope: R::Scope,
    table: SymbolTable<R::Scope>,
    decls: DeclarationsV,
    in_progress: Seq<TemplateKeyV<R::Scope>>,
    progress: ProgressV<R::Scope>,
    lookup: Lookup<R::Scope>,
)
    requires
        table_sound(table),
        cache_sound(table, progress.cache),
        lookup.finds(table, scope, decl),
    ensures
        resolved_template::<R>(decl, scope, table, decls, in_progress, progress) matches Ok(
            (fields, more),
        ) ==> step_sound(
            table,
            ServiceFields::within(fields, param_names(decl.params)),
            progress,
            more,
        ),
    decreases 65 - in_progress.len(), 0int, 0int,
{
    let key = TemplateKeyV { scope, name: decl.name.name };
    let names = param_names(decl.params);
    lemma_cached_within(table, progress.cache, 0, scope, decl, lookup);
    assert(table.template(lookup.scope, lookup.qualifier, lookup.name, lookup.span) is Ok);
    assert(template_sound(decl));
    if cached_from(progress.cache, key, 0) is None && !in_progress_from(in_progress, key, 0)
        && in_progress.len() + 1 <= MAX_TEMPLATE_DEPTH {
        lemma_body_sound::<R>(
            decl.fields,
            scope,
            table,
            decls,
            in_progress.push(key),
            progress,
            names,
        );
        if let Ok((fields, more)) = body_merged::<R>(
            decl.fields,
            scope,
            table,
            decls,
            in_progress.push(key),
            progress,
        ) {
            let cache = more.cache.push(CachedTemplateV { key, fields });
            assert forall|
                i: int,
                scope1: R::Scope,
                qualifier1: Option<IdentV>,
                name1: Seq<char>,
                span1: Span,
            |
                #![trigger cache[i], table.template(scope1, qualifier1, name1, span1)]
                0 <= i < cache.len() implies (table.template(
                scope1,
                qualifier1,
                name1,
                span1,
            ) matches Ok((home1, decl1)) ==> (cache[i].key == (TemplateKeyV {
                scope: home1,
                name: decl1.name.name,
            }) ==> ServiceFields::within(cache[i].fields, param_names(decl1.params)))) by {
                if i < more.cache.len() {
                    assert(cache[i] == more.cache[i]);
                }
            }
            assert(cache_sound(table, cache));
        }
    }
}

proof fn lemma_access_pass_settles<R: SymbolResolver>(pass: AccessPassV<R::Scope>)
    requires
        pass.stage == AccessScope::Bound,
    ensures
        settles::<AccessPass<'_, R>>(pass),
{
}

/// Whether a service is finished: nothing in its `with` list, no
/// parameter, and no field access left to read.
pub open spec fn service_finished(service: ServiceV) -> bool {
    &&& service.fields.with.len() == 0
    &&& ServiceFields::settled(service.fields)
}

proof fn lemma_service_sound<R: SymbolResolver>(
    service: ServiceV,
    scope: R::Scope,
    table: SymbolTable<R::Scope>,
    decls: DeclarationsV,
    progress: ProgressV<R::Scope>,
)
    requires
        table_sound(table),
        cache_sound(table, progress.cache),
        parameter_free(service.fields),
    ensures
        composed_service::<R>(service, scope, table, decls, progress) matches Ok((done, more))
            ==> step_sound(table, service_finished(done), progress, more),
{
    lemma_body_sound::<R>(
        service.fields,
        scope,
        table,
        decls,
        Seq::empty(),
        progress,
        Set::empty(),
    );
    if let Ok((merged, more)) = body_merged::<R>(
        service.fields,
        scope,
        table,
        decls,
        Seq::empty(),
        progress,
    ) {
        let pass = AccessPassV { table, decls, scope, stage: AccessScope::Bound };
        lemma_access_pass_settles::<R>(pass);
        <ServiceFields as Walk<AccessPass<'_, R>>>::lemma_passed_settled(merged, pass);
        assert(<Vec<TemplateInvocation> as Walk<AccessPass<'_, R>>>::passed(merged.with, pass)
            == Ok::<Seq<TemplateInvocationV>, ComposeErrorV>(Seq::empty()));
    }
}

proof fn lemma_services_sound<R: SymbolResolver>(
    services: Seq<ServiceV>,
    i: int,
    before: Seq<ServiceV>,
    scope: R::Scope,
    table: SymbolTable<R::Scope>,
    decls: DeclarationsV,
    progress: ProgressV<R::Scope>,
)
    requires
        0 <= i,
        table_sound(table),
        cache_sound(table, progress.cache),
        forall|k: int| 0 <= k < services.len() ==> parameter_free((#[trigger] services[k]).fields),
        forall|k: int| 0 <= k < before.len() ==> service_finished(#[trigger] before[k]),
    ensures
        composed_services::<R>(services, i, before, scope, table, decls, progress) matches Ok(
            (done, more),
        ) ==> (forall|k: int| 0 <= k < done.len() ==> service_finished(#[trigger] done[k]))
            && grown(progress.warnings, more.warnings),
    decreases services.len() - i,
{
    if i < services.len() {
        lemma_service_sound::<R>(services[i], scope, table, decls, progress);
        if let Ok((service, more)) = composed_service::<R>(
            services[i],
            scope,
            table,
            decls,
            progress,
        ) {
            lemma_services_sound::<R>(
                services,
                i + 1,
                before.push(service),
                scope,
                table,
                decls,
                more,
            );
            if let Ok((_, last)) = composed_services::<R>(
                services,
                i + 1,
                before.push(service),
                scope,
                table,
                decls,
                more,
            ) {
                lemma_grown_twice(progress.warnings, more.warnings, last.warnings);
            }
        }
    }
}

proof fn lemma_invocations_distinct<R: SymbolResolver>(
    with: Seq<TemplateInvocationV>,
    i: int,
    acc: MergeAccV,
    scope: R::Scope,
    table: SymbolTable<R::Scope>,
    decls: DeclarationsV,
    in_progress: Seq<TemplateKeyV<R::Scope>>,
    progress: ProgressV<R::Scope>,
)
    requires
        0 <= i,
        acc.distinct(),
    ensures
        merged_invocations::<R>(
            with,
            i,
            acc,
            scope,
            table,
            decls,
            in_progress,
            progress,
        ) matches Ok(
            (merged, _),
        ) ==> merged.distinct(),
    decreases with.len() - i,
{
    if i < with.len() {
        if let Ok((fields, more)) = resolved_invocation::<R>(
            with[i],
            scope,
            table,
            decls,
            in_progress,
            progress,
        ) {
            let tier = TierV::Explicit(with[i].name.name);
            law_merging_keeps_keys_distinct(acc, fields, tier);
            if let Ok(merged) = merged_tier(acc, fields, tier) {
                lemma_invocations_distinct::<R>(
                    with,
                    i + 1,
                    merged,
                    scope,
                    table,
                    decls,
                    in_progress,
                    more,
                );
            }
        }
    }
}

/// A body merged with its templates holds each key of each map field
/// once, and each network once, however many templates name it.
pub proof fn law_merged_bodies_hold_each_key_once<R: SymbolResolver>(
    fields: ServiceFieldsV,
    scope: R::Scope,
    table: SymbolTable<R::Scope>,
    decls: DeclarationsV,
    in_progress: Seq<TemplateKeyV<R::Scope>>,
    progress: ProgressV<R::Scope>,
)
    ensures
        body_merged::<R>(fields, scope, table, decls, in_progress, progress) matches Ok((merged, _))
            ==> fields_distinct(merged),
{
    if let Ok(written) = scoped_accesses::<R>(fields, scope, table, decls) {
        lemma_invocations_distinct::<R>(
            written.with,
            0,
            MergeAccV::none(),
            scope,
            table,
            decls,
            in_progress,
            progress,
        );
        if let Ok((acc, more)) = merged_invocations::<R>(
            written.with,
            0,
            MergeAccV::none(),
            scope,
            table,
            decls,
            in_progress,
            progress,
        ) {
            let bare = ServiceFieldsV { with: Seq::empty(), ..written };
            if let Ok((own, _)) = qualified_references(bare, scope, table, more.imports) {
                law_merging_keeps_keys_distinct(acc, own, TierV::Own);
                if let Ok(whole) = merged_tier(acc, own, TierV::Own) {
                    lemma_merged_fields_distinct(whole);
                }
            }
        }
    }
}

/// A composed program is finished: every service has an empty `with`
/// list and holds neither a parameter nor a field access, and no warning
/// is reported twice. All it takes is that the templates refer to no
/// parameters but their own, and the services to none.
pub proof fn law_composition_finishes_every_service<R: SymbolResolver>(
    networks: Seq<NetworkV>,
    volumes: Seq<VolumeV>,
    services: Seq<ServiceV>,
    scope: R::Scope,
    table: SymbolTable<R::Scope>,
)
    requires
        table_sound(table),
        forall|k: int| 0 <= k < services.len() ==> parameter_free((#[trigger] services[k]).fields),
    ensures
        composed::<R>(networks, volumes, services, scope, table) matches Ok(program) ==> (forall|
            k: int,
        | 0 <= k < program.services.len() ==> service_finished(#[trigger] program.services[k]))
            && program.warnings.no_duplicates(),
{
    let decls = DeclarationsV { networks, volumes, services: service_names(services) };
    let nothing = ProgressV::<R::Scope>::none();
    lemma_services_sound::<R>(services, 0, Seq::empty(), scope, table, decls, nothing);
}

proof fn lemma_template_from(templates: Seq<TemplateDeclV>, name: Seq<char>, i: int)
    requires
        0 <= i,
    ensures
        template_from(templates, name, i) matches Some(decl) ==> decl.name.name == name
            && templates.contains(decl),
    decreases templates.len() - i,
{
    if i < templates.len() {
        if templates[i].name.name == name {
            assert(templates.contains(templates[i]));
        } else {
            lemma_template_from(templates, name, i + 1);
        }
    }
}

proof fn lemma_single_file_table_sound(templates: Seq<TemplateDeclV>)
    requires
        forall|k: int| 0 <= k < templates.len() ==> template_sound(#[trigger] templates[k]),
    ensures
        table_sound(single_file_table(templates)),
{
    let table = single_file_table(templates);
    assert forall|scope: usize, qualifier: Option<IdentV>, name: Seq<char>, span: Span|
        (#[trigger] table.template(scope, qualifier, name, span)) matches Ok((_, decl)) implies ({
        let found = table.template(scope, qualifier, name, span)->Ok_0.1;
        template_sound(found) && found.name.name == name && qualifier is None
    }) by {
        lemma_template_from(templates, name, 0);
    }
}

/// Whether every declaration of a program is sound: its templates refer
/// to no parameters but their own, and its services to none.
pub open spec fn declarations_sound(decls: Seq<TopDeclV>) -> bool {
    forall|k: int|
        0 <= k < decls.len() ==> match #[trigger] decls[k] {
            TopDeclV::Template(t) => template_sound(t),
            TopDeclV::Service(s) => parameter_free(s.fields),
            _ => true,
        }
}

/// What holds of declarations collected so far: names are distinct within
/// each kind.
pub open spec fn names_distinct(so_far: CollectedV) -> bool {
    &&& forall|p: int, q: int|
        0 <= p < q < so_far.networks.len() ==> (#[trigger] so_far.networks[p]).name.name != (
        #[trigger] so_far.networks[q]).name.name
    &&& forall|p: int, q: int|
        0 <= p < q < so_far.volumes.len() ==> (#[trigger] so_far.volumes[p]).name.name != (
        #[trigger] so_far.volumes[q]).name.name
    &&& forall|p: int, q: int|
        0 <= p < q < so_far.services.len() ==> (#[trigger] so_far.services[p]).name.name != (
        #[trigger] so_far.services[q]).name.name
    &&& forall|p: int, q: int|
        0 <= p < q < so_far.templates.len() ==> (#[trigger] so_far.templates[p]).name.name != (
        #[trigger] so_far.templates[q]).name.name
}

proof fn lemma_service_index(services: Seq<ServiceV>, name: Seq<char>, i: int)
    requires
        0 <= i <= services.len(),
    ensures
        service_index(services, name, i) <= services.len(),
        forall|k: int|
            i <= k < service_index(
                services,
                name,
                i,
            ) ==> (#[trigger] services[k]).name.name != name,
    decreases services.len() - i,
{
    if i < services.len() && services[i].name.name != name {
        lemma_service_index(services, name, i + 1);
    }
}

proof fn lemma_template_index(templates: Seq<TemplateDeclV>, name: Seq<char>, i: int)
    requires
        0 <= i <= templates.len(),
    ensures
        template_index(templates, name, i) <= templates.len(),
        forall|k: int|
            i <= k < template_index(templates, name, i) ==> (#[trigger] templates[k]).name.name
                != name,
    decreases templates.len() - i,
{
    if i < templates.len() && templates[i].name.name != name {
        lemma_template_index(templates, name, i + 1);
    }
}

proof fn lemma_decl_index<D: ImportableDecl>(decls: Seq<D::V>, name: Seq<char>, i: int)
    requires
        0 <= i <= decls.len(),
    ensures
        i <= decl_index::<D>(decls, name, i) <= decls.len(),
        decl_index::<D>(decls, name, i) < decls.len() ==> D::name_of(
            decls[decl_index::<D>(decls, name, i)],
        ) == name,
        forall|k: int|
            i <= k < decl_index::<D>(decls, name, i) ==> D::name_of(#[trigger] decls[k]) != name,
    decreases decls.len() - i,
{
    if i < decls.len() && D::name_of(decls[i]) != name {
        lemma_decl_index::<D>(decls, name, i + 1);
    }
}

proof fn lemma_collected(decls: Seq<TopDeclV>, i: int, so_far: CollectedV)
    requires
        0 <= i,
        names_distinct(so_far),
    ensures
        collected_from(decls, i, so_far) matches Ok(all) ==> names_distinct(all),
        declarations_sound(decls) && (forall|k: int|
            0 <= k < so_far.templates.len() ==> template_sound(#[trigger] so_far.templates[k]))
            && (forall|k: int|
            0 <= k < so_far.services.len() ==> parameter_free(
                (#[trigger] so_far.services[k]).fields,
            )) ==> (collected_from(decls, i, so_far) matches Ok(all) ==> (forall|k: int|
            0 <= k < all.templates.len() ==> template_sound(#[trigger] all.templates[k])) && (
        forall|k: int|
            0 <= k < all.services.len() ==> parameter_free((#[trigger] all.services[k]).fields))),
    decreases decls.len() - i,
{
    if i < decls.len() {
        match decls[i] {
            TopDeclV::Network(n) => {
                lemma_decl_index::<Network>(so_far.networks, n.name.name, 0);
            },
            TopDeclV::Volume(v) => {
                lemma_decl_index::<Volume>(so_far.volumes, v.name.name, 0);
            },
            TopDeclV::Service(s) => {
                lemma_service_index(so_far.services, s.name.name, 0);
            },
            TopDeclV::Template(t) => {
                lemma_template_index(so_far.templates, t.name.name, 0);
            },
            TopDeclV::Use(_) => {},
        }
        if let Ok(more) = collected_decl(so_far, decls[i]) {
            lemma_collected(decls, i + 1, more);
        }
    }
}

/// A program whose declarations are accepted declares each name once
/// within its kind.
pub proof fn law_accepted_names_are_distinct(decls: Seq<TopDeclV>)
    ensures
        collected(decls) matches Ok(all) ==> names_distinct(all),
{
    lemma_collected(
        decls,
        0,
        CollectedV {
            networks: Seq::empty(),
            volumes: Seq::empty(),
            services: Seq::empty(),
            templates: Seq::empty(),
        },
    );
}

/// A composed single-file program is finished: every service has an empty
/// `with` list and holds neither a parameter nor a field access, and no
/// warning is reported twice.
pub proof fn law_compose_finishes_every_service(program: ProgramV)
    requires
        declarations_sound(program.decls),
    ensures
        composed_program(program) matches Ok(done) ==> (forall|k: int|
            0 <= k < done.services.len() ==> service_finished(#[trigger] done.services[k]))
            && done.warnings.no_duplicates(),
{
    lemma_collected(
        program.decls,
        0,
        CollectedV {
            networks: Seq::empty(),
            volumes: Seq::empty(),
            services: Seq::empty(),
            templates: Seq::empty(),
        },
    );
    if let Ok(decls) = collected(program.decls) {
        lemma_single_file_table_sound(decls.templates);
        law_composition_finishes_every_service::<SingleFileResolver>(
            decls.networks,
            decls.volumes,
            decls.services,
            0usize,
            single_file_table(decls.templates),
        );
    }
}

proof fn lemma_services_kept<R: SymbolResolver>(
    services: Seq<ServiceV>,
    i: int,
    before: Seq<ServiceV>,
    scope: R::Scope,
    table: SymbolTable<R::Scope>,
    decls: DeclarationsV,
    progress: ProgressV<R::Scope>,
)
    requires
        0 <= i <= services.len(),
        before.len() == i,
        forall|k: int|
            0 <= k < i ==> (#[trigger] before[k]).name == services[k].name && before[k].span
                == services[k].span,
    ensures
        composed_services::<R>(services, i, before, scope, table, decls, progress) matches Ok(
            (done, _),
        ) ==> done.len() == services.len() && (forall|k: int|
            0 <= k < services.len() ==> (#[trigger] done[k]).name == services[k].name
                && done[k].span == services[k].span),
    decreases services.len() - i,
{
    if i < services.len() {
        if let Ok((service, more)) = composed_service::<R>(
            services[i],
            scope,
            table,
            decls,
            progress,
        ) {
            lemma_services_kept::<R>(
                services,
                i + 1,
                before.push(service),
                scope,
                table,
                decls,
                more,
            );
        }
    }
}

/// Composition keeps the services: as many as before, in the same order,
/// each under its name.
pub proof fn law_services_are_kept<R: SymbolResolver>(
    networks: Seq<NetworkV>,
    volumes: Seq<VolumeV>,
    services: Seq<ServiceV>,
    scope: R::Scope,
    table: SymbolTable<R::Scope>,
)
    ensures
        composed::<R>(networks, volumes, services, scope, table) matches Ok(program)
            ==> program.services.len() == services.len() && (forall|k: int|
            0 <= k < services.len() ==> (#[trigger] program.services[k]).name == services[k].name
                && program.services[k].span == services[k].span),
{
    lemma_services_kept::<R>(
        services,
        0,
        Seq::empty(),
        scope,
        table,
        DeclarationsV { networks, volumes, services: service_names(services) },
        ProgressV::none(),
    );
}

/// Whether no two declarations have the same name.
pub open spec fn decls_distinct<D: ImportableDecl>(decls: Seq<D::V>) -> bool {
    forall|p: int, q: int|
        0 <= p < q < decls.len() ==> D::name_of(#[trigger] decls[p]) != D::name_of(
            #[trigger] decls[q],
        )
}

/// Whether some declaration is this very one.
pub open spec fn holds_decl<D: ImportableDecl>(decls: Seq<D::V>, decl: D::V) -> bool {
    exists|k: int| 0 <= k < decls.len() && #[trigger] decls[k] == decl
}

/// Imported declarations join behind the program's own, which stay as
/// they are; every import is there, and no name is there twice.
pub proof fn law_imports_join<D: ImportableDecl>(
    all: Seq<D::V>,
    imported: Seq<ImportedV<D::V>>,
    i: int,
)
    requires
        0 <= i <= imported.len(),
        decls_distinct::<D>(all),
    ensures
        with_imported::<D>(all, imported, i) matches Ok(joined) ==> decls_distinct::<D>(joined)
            && all.is_prefix_of(joined) && (forall|k: int|
            i <= k < imported.len() ==> holds_decl::<D>(joined, (#[trigger] imported[k]).decl)),
    decreases imported.len() - i,
{
    if i < imported.len() {
        let decl = imported[i].decl;
        lemma_decl_index::<D>(all, D::name_of(decl), 0);
        let at = decl_index::<D>(all, D::name_of(decl), 0);
        if at < all.len() {
            law_imports_join::<D>(all, imported, i + 1);
            if let Ok(joined) = with_imported::<D>(all, imported, i) {
                assert(joined[at] == all[at]);
                assert(holds_decl::<D>(joined, decl));
            }
        } else {
            let next = all.push(decl);
            assert(decls_distinct::<D>(next));
            law_imports_join::<D>(next, imported, i + 1);
            if let Ok(joined) = with_imported::<D>(all, imported, i) {
                assert(next[all.len() as int] == decl);
                assert(joined[all.len() as int] == next[all.len() as int]);
                assert(holds_decl::<D>(joined, decl));
            }
        }
    }
}

} // verus!
