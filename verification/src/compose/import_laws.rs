//! What holds of references through an import: composition leaves none in
//! any service.

use vstd::prelude::*;

use crate::ast::{
    ArrowMapEntry, ArrowMapEntryV, ArrowMapHostV, DependsOnEntry, DependsOnEntryV, Literal,
    LiteralV, NetworkV, QualifiedRefV, ServiceFields, ServiceFieldsV, ServiceV, TemplateInvocationV,
    VolumeV,
};
use crate::compose::access::{
    resolved_accesses, scoped_accesses, AccessPass, AccessPassV, AccessScope,
};
use crate::compose::engine::{
    body_merged, composed, composed_service, composed_services, merged_invocations,
    resolved_invocation, resolved_template, service_names, ProgressV, TemplateKeyV,
};
use crate::compose::merge::{
    lemma_key_index_bound, merged_dependencies, merged_dependency, merged_entry, merged_map,
    merged_tier, with_distinct, Keyed, MergeAccV, TierV,
};
use crate::compose::qualify::{
    dependency_references, first_refusal, law_resolved_references_are_bare, qualified_mounts,
    qualified_networks, qualified_references, references_bare, ImportedV, ImportsV, PlainValuePass,
};
use crate::compose_error::ComposeErrorV;
use crate::compose::resolver::{DeclarationsV, SymbolResolver, SymbolTable};
use crate::compose::slots::{passed_items, LiteralPass, Slots, Walk};
use crate::compose::substitute::CallV;
use crate::schema::MapSide;

verus! {

/// Whether no literal is qualified by an alias.
pub open spec fn literals_bare(lits: Seq<LiteralV>) -> bool {
    forall|k: int| 0 <= k < lits.len() ==> !(#[trigger] lits[k] is Qualified)
}

/// Whether the host side of a mount is not qualified by an alias, where it
/// names a volume.
pub open spec fn mount_bare(entry: ArrowMapEntryV) -> bool {
    entry.host matches ArrowMapHostV::Named(lit) ==> !(lit is Qualified)
}

/// Whether no reference set so far is qualified by an alias.
pub open spec fn acc_bare(acc: MergeAccV) -> bool {
    &&& literals_bare(acc.networks)
    &&& literals_bare(acc.dns)
    &&& literals_bare(acc.env_file)
    &&& entries_hold::<ArrowMapEntry>(acc.volumes, |entry: ArrowMapEntryV| mount_bare(entry))
    &&& entries_hold::<DependsOnEntry>(
        acc.depends_on,
        |entry: DependsOnEntryV| !(entry.reference is Qualified),
    )
}

/// Whether a pass makes no qualified reference of any other literal.
pub open spec fn keeps_bare<P: LiteralPass>(pass: P::V) -> bool {
    forall|lit: LiteralV|
        !(lit is Qualified) ==> ((#[trigger] P::rewrites(pass, lit)) matches Ok(after) ==> !(
        after is Qualified))
}

proof fn lemma_literals_passed<P: LiteralPass>(
    lits: Seq<LiteralV>,
    i: int,
    before: Seq<LiteralV>,
    pass: P::V,
)
    requires
        0 <= i,
        keeps_bare::<P>(pass),
        literals_bare(lits),
        literals_bare(before),
    ensures
        passed_items::<Literal, P>(
            lits,
            i,
            before,
            pass,
        ) matches Ok(after) ==> literals_bare(after),
    decreases lits.len() - i,
{
    if i < lits.len() {
        if let Ok(after) = P::rewrites(pass, lits[i]) {
            lemma_literals_passed::<P>(lits, i + 1, before.push(after), pass);
        }
    }
}

proof fn lemma_mounts_passed<P: LiteralPass>(
    entries: Seq<ArrowMapEntryV>,
    i: int,
    before: Seq<ArrowMapEntryV>,
    pass: P::V,
)
    requires
        0 <= i,
        keeps_bare::<P>(pass),
        forall|k: int| 0 <= k < entries.len() ==> mount_bare(#[trigger] entries[k]),
        forall|k: int| 0 <= k < before.len() ==> mount_bare(#[trigger] before[k]),
    ensures
        passed_items::<ArrowMapEntry, P>(entries, i, before, pass) matches Ok(after) ==> forall|
            k: int,
        |
            0 <= k < after.len() ==> mount_bare(#[trigger] after[k]),
    decreases entries.len() - i,
{
    if i < entries.len() {
        assert(mount_bare(entries[i]));
        if let Ok(after) = <ArrowMapEntry as Walk<P>>::passed(entries[i], pass) {
            assert(mount_bare(after));
            lemma_mounts_passed::<P>(entries, i + 1, before.push(after), pass);
        }
    }
}

proof fn lemma_dependencies_passed<P: LiteralPass>(
    entries: Seq<DependsOnEntryV>,
    i: int,
    before: Seq<DependsOnEntryV>,
    pass: P::V,
)
    requires
        0 <= i,
        keeps_bare::<P>(pass),
        forall|k: int| 0 <= k < entries.len() ==> !((#[trigger] entries[k]).reference is Qualified),
        forall|k: int| 0 <= k < before.len() ==> !((#[trigger] before[k]).reference is Qualified),
    ensures
        passed_items::<DependsOnEntry, P>(entries, i, before, pass) matches Ok(after) ==> forall|
            k: int,
        |
            0 <= k < after.len() ==> !((#[trigger] after[k]).reference is Qualified),
    decreases entries.len() - i,
{
    if i < entries.len() {
        if let Ok(after) = <DependsOnEntry as Walk<P>>::passed(entries[i], pass) {
            lemma_dependencies_passed::<P>(entries, i + 1, before.push(after), pass);
        }
    }
}

proof fn lemma_body_passed<P: LiteralPass>(fields: ServiceFieldsV, pass: P::V)
    requires
        keeps_bare::<P>(pass),
        references_bare(fields),
    ensures
        <ServiceFields as Walk<P>>::passed(fields, pass) matches Ok(after) ==> references_bare(
            after,
        ),
{
    lemma_literals_passed::<P>(fields.networks, 0, Seq::empty(), pass);
    lemma_literals_passed::<P>(fields.dns, 0, Seq::empty(), pass);
    lemma_literals_passed::<P>(fields.env_file, 0, Seq::empty(), pass);
    lemma_mounts_passed::<P>(fields.volumes.entries, 0, Seq::empty(), pass);
    lemma_dependencies_passed::<P>(fields.depends_on, 0, Seq::empty(), pass);
    if let Ok(after) = <ServiceFields as Walk<P>>::passed(fields, pass) {
        assert forall|k: int| 0 <= k < after.volumes.entries.len() implies ((
        #[trigger] after.volumes.entries[k]).host matches ArrowMapHostV::Named(lit) ==> !(
        lit is Qualified)) by {
            assert(mount_bare(after.volumes.entries[k]));
        }
    }
}

proof fn lemma_distinct_bare(held: Seq<LiteralV>, more: Seq<LiteralV>, i: int)
    requires
        0 <= i,
        literals_bare(held),
        literals_bare(more),
    ensures
        literals_bare(with_distinct(held, more, i)),
    decreases more.len() - i,
{
    if i < more.len() {
        lemma_distinct_bare(held, more, i + 1);
        lemma_distinct_bare(held.push(more[i]), more, i + 1);
    }
}

/// Whether something holds of every entry, whatever tier it is from.
pub open spec fn entries_hold<E: Keyed>(
    held: Seq<(E::V, TierV)>,
    holds: spec_fn(E::V) -> bool,
) -> bool {
    forall|k: int| 0 <= k < held.len() ==> holds((#[trigger] held[k]).0)
}

proof fn lemma_entry_holds<E: Keyed>(
    held: Seq<(E::V, TierV)>,
    field: Seq<char>,
    side: MapSide,
    entry: E::V,
    tier: TierV,
    holds: spec_fn(E::V) -> bool,
)
    requires
        entries_hold::<E>(held, holds),
        holds(entry),
    ensures
        merged_entry::<E>(held, field, side, entry, tier) matches Ok(after) ==> entries_hold::<E>(
            after,
            holds,
        ),
{
    lemma_key_index_bound::<E>(held, E::key_of(entry), 0);
}

proof fn lemma_map_holds<E: Keyed>(
    held: Seq<(E::V, TierV)>,
    field: Seq<char>,
    side: MapSide,
    incoming: Seq<E::V>,
    i: int,
    tier: TierV,
    holds: spec_fn(E::V) -> bool,
)
    requires
        0 <= i,
        entries_hold::<E>(held, holds),
        forall|k: int| 0 <= k < incoming.len() ==> holds(#[trigger] incoming[k]),
    ensures
        merged_map::<E>(held, field, side, incoming, i, tier) matches Ok(after) ==> entries_hold::<
            E,
        >(after, holds),
    decreases incoming.len() - i,
{
    if i < incoming.len() {
        lemma_entry_holds::<E>(held, field, side, incoming[i], tier, holds);
        if let Ok(after) = merged_entry::<E>(held, field, side, incoming[i], tier) {
            lemma_map_holds::<E>(after, field, side, incoming, i + 1, tier, holds);
        }
    }
}

proof fn lemma_dependencies_hold(
    held: Seq<(DependsOnEntryV, TierV)>,
    incoming: Seq<DependsOnEntryV>,
    i: int,
    tier: TierV,
    holds: spec_fn(DependsOnEntryV) -> bool,
)
    requires
        0 <= i,
        entries_hold::<DependsOnEntry>(held, holds),
        forall|k: int| 0 <= k < incoming.len() ==> holds(#[trigger] incoming[k]),
    ensures
        merged_dependencies(held, incoming, i, tier) matches Ok(after) ==> entries_hold::<
            DependsOnEntry,
        >(after, holds),
    decreases incoming.len() - i,
{
    if i < incoming.len() {
        lemma_entry_holds::<DependsOnEntry>(
            held,
            "depends_on"@,
            MapSide::Key,
            incoming[i],
            tier,
            holds,
        );
        if let Ok(after) = merged_dependency(held, incoming[i], tier) {
            lemma_dependencies_hold(after, incoming, i + 1, tier, holds);
        }
    }
}

proof fn lemma_tier_bare(acc: MergeAccV, incoming: ServiceFieldsV, tier: TierV)
    requires
        acc_bare(acc),
        references_bare(incoming),
    ensures
        merged_tier(acc, incoming, tier) matches Ok(after) ==> acc_bare(after),
{
    assert forall|k: int| 0 <= k < incoming.volumes.entries.len() implies mount_bare(
        #[trigger] incoming.volumes.entries[k],
    ) by {
        assert(incoming.volumes.entries[k] == incoming.volumes.entries[k]);
    }
    lemma_map_holds::<ArrowMapEntry>(
        acc.volumes,
        "volume"@,
        MapSide::Value,
        incoming.volumes.entries,
        0,
        tier,
        |entry: ArrowMapEntryV| mount_bare(entry),
    );
    lemma_dependencies_hold(
        acc.depends_on,
        incoming.depends_on,
        0,
        tier,
        |entry: DependsOnEntryV| !(entry.reference is Qualified),
    );
    lemma_distinct_bare(acc.networks, incoming.networks, 0);
    assert(literals_bare(acc.dns + incoming.dns));
    assert(literals_bare(acc.env_file + incoming.env_file));
}

proof fn lemma_fields_bare(acc: MergeAccV)
    requires
        acc_bare(acc),
    ensures
        references_bare(acc.fields()),
{
    let fields = acc.fields();
    assert forall|k: int| 0 <= k < fields.volumes.entries.len() implies ((
    #[trigger] fields.volumes.entries[k]).host matches ArrowMapHostV::Named(lit) ==> !(
    lit is Qualified)) by {
        assert(mount_bare(acc.volumes[k].0));
    }
    assert forall|k: int| 0 <= k < fields.depends_on.len() implies !((
    #[trigger] fields.depends_on[k]).reference is Qualified) by {
        assert(!(acc.depends_on[k].0.reference is Qualified));
    }
}

/// What one invocation adds to a body holds no reference through an
/// import.
pub proof fn law_invocations_are_bare<R: SymbolResolver>(
    inv: TemplateInvocationV,
    scope: R::Scope,
    table: SymbolTable<R::Scope>,
    decls: DeclarationsV,
    in_progress: Seq<TemplateKeyV<R::Scope>>,
    progress: ProgressV<R::Scope>,
)
    ensures
        resolved_invocation::<R>(inv, scope, table, decls, in_progress, progress) matches Ok(
            (fields, _),
        ) ==> references_bare(fields),
{
    if let Ok((home, decl)) = table.template(scope, inv.qualifier, inv.name.name, inv.span) {
        if let Ok((fields, more)) = resolved_template::<R>(
            decl,
            home,
            table,
            decls,
            in_progress,
            progress,
        ) {
            let call = CallV { template: decl.name.name, args: inv.args.entries };
            if let Ok((bound, _)) = ServiceFields::bound(fields, call, more.warnings) {
                if let Ok(read) = resolved_accesses::<R>(
                    bound,
                    AccessScope::Substituted,
                    scope,
                    table,
                    decls,
                ) {
                    law_resolved_references_are_bare(read, scope, table, more.imports);
                    if let Ok((qualified, _)) = qualified_references(
                        read,
                        scope,
                        table,
                        more.imports,
                    ) {
                        lemma_body_passed::<PlainValuePass<'_>>(qualified, decl.name.name);
                    }
                }
            }
        }
    }
}

proof fn lemma_invocations_bare<R: SymbolResolver>(
    with: Seq<TemplateInvocationV>,
    i: int,
    acc: MergeAccV,
    scope: R::Scope,
    table: SymbolTable<R::Scope>,
    decls: DeclarationsV,
    in_progress: Seq<TemplateKeyV<R::Scope>>,
    progress: ProgressV<R::Scope>,
)
    requires
        acc_bare(acc),
    ensures
        merged_invocations::<R>(
            with,
            i,
            acc,
            scope,
            table,
            decls,
            in_progress,
            progress,
        ) matches Ok(
            (after, _),
        ) ==> acc_bare(after),
    decreases with.len() - i,
{
    if i < with.len() {
        law_invocations_are_bare::<R>(with[i], scope, table, decls, in_progress, progress);
        if let Ok((fields, more)) = resolved_invocation::<R>(
            with[i],
            scope,
            table,
            decls,
            in_progress,
            progress,
        ) {
            let tier = TierV::Explicit(with[i].name.name);
            lemma_tier_bare(acc, fields, tier);
            if let Ok(merged) = merged_tier(acc, fields, tier) {
                lemma_invocations_bare::<R>(
                    with,
                    i + 1,
                    merged,
                    scope,
                    table,
                    decls,
                    in_progress,
                    more,
                );
            }
        }
    }
}

/// A body merged with its templates holds no reference through an import.
pub proof fn law_merged_bodies_are_bare<R: SymbolResolver>(
    fields: ServiceFieldsV,
    scope: R::Scope,
    table: SymbolTable<R::Scope>,
    decls: DeclarationsV,
    in_progress: Seq<TemplateKeyV<R::Scope>>,
    progress: ProgressV<R::Scope>,
)
    ensures
        body_merged::<R>(fields, scope, table, decls, in_progress, progress) matches Ok((merged, _))
            ==> references_bare(merged),
{
    if let Ok(written) = scoped_accesses::<R>(fields, scope, table, decls) {
        let none = MergeAccV::none();
        assert(acc_bare(none));
        lemma_invocations_bare::<R>(
            written.with,
            0,
            none,
            scope,
            table,
            decls,
            in_progress,
            progress,
        );
        if let Ok((acc, more)) = merged_invocations::<R>(
            written.with,
            0,
            none,
            scope,
            table,
            decls,
            in_progress,
            progress,
        ) {
            let bare = ServiceFieldsV { with: Seq::empty(), ..written };
            law_resolved_references_are_bare(bare, scope, table, more.imports);
            if let Ok((own, _)) = qualified_references(bare, scope, table, more.imports) {
                lemma_tier_bare(acc, own, TierV::Own);
                if let Ok(whole) = merged_tier(acc, own, TierV::Own) {
                    lemma_fields_bare(whole);
                }
            }
        }
    }
}

proof fn lemma_services_bare<R: SymbolResolver>(
    services: Seq<ServiceV>,
    i: int,
    before: Seq<ServiceV>,
    scope: R::Scope,
    table: SymbolTable<R::Scope>,
    decls: DeclarationsV,
    progress: ProgressV<R::Scope>,
)
    requires
        0 <= i,
        forall|k: int| 0 <= k < before.len() ==> references_bare((#[trigger] before[k]).fields),
    ensures
        composed_services::<R>(services, i, before, scope, table, decls, progress) matches Ok(
            (done, _),
        ) ==> forall|k: int| 0 <= k < done.len() ==> references_bare((#[trigger] done[k]).fields),
    decreases services.len() - i,
{
    if i < services.len() {
        let service = services[i];
        law_merged_bodies_are_bare::<R>(
            service.fields,
            scope,
            table,
            decls,
            Seq::empty(),
            progress,
        );
        if let Ok((merged, _)) = body_merged::<R>(
            service.fields,
            scope,
            table,
            decls,
            Seq::empty(),
            progress,
        ) {
            lemma_body_passed::<AccessPass<'_, R>>(
                merged,
                AccessPassV { table, decls, scope, stage: AccessScope::Bound },
            );
        }
        if let Ok((done, more)) = composed_service::<R>(service, scope, table, decls, progress) {
            lemma_services_bare::<R>(
                services,
                i + 1,
                before.push(done),
                scope,
                table,
                decls,
                more,
            );
        }
    }
}

/// No composed service holds a reference through an import: `networks`
/// and named volumes hold the bare names of what they reach, and nothing
/// else may refer through an alias.
pub proof fn law_composed_references_are_bare<R: SymbolResolver>(
    networks: Seq<NetworkV>,
    volumes: Seq<VolumeV>,
    services: Seq<ServiceV>,
    entry_scope: R::Scope,
    table: SymbolTable<R::Scope>,
)
    ensures
        composed::<R>(networks, volumes, services, entry_scope, table) matches Ok(done) ==> forall|
            k: int,
        |
            0 <= k < done.services.len() ==> references_bare((#[trigger] done.services[k]).fields),
{
    let decls = DeclarationsV { networks, volumes, services: service_names(services) };
    lemma_services_bare::<R>(
        services,
        0,
        Seq::empty(),
        entry_scope,
        table,
        decls,
        ProgressV::none(),
    );
}

/// Whether a reference to a network was resolved as it has to be: one
/// through an alias into the bare name of the very network that the alias
/// and the name reach, in the same place, and any other not at all.
pub open spec fn network_resolved<S>(
    before: LiteralV,
    after: LiteralV,
    scope: S,
    table: SymbolTable<S>,
    imports: Seq<ImportedV<NetworkV>>,
) -> bool {
    match before {
        LiteralV::Qualified(q) => match (table.networks)(scope, q.qualifier, q.name, q.span) {
            Ok(decl) => {
                &&& after == LiteralV::Ident(decl.name.name, q.span)
                &&& imports.contains(
                    ImportedV { decl, alias: q.qualifier.name, reference: q.span },
                )
            },
            Err(_) => false,
        },
        _ => after == before,
    }
}

/// Whether a mount was resolved as it has to be: a host through an alias
/// into the bare name of the very volume that the alias and the name
/// reach, in the same place and with the rest of the mount as it was, and
/// any other not at all.
pub open spec fn mount_resolved<S>(
    before: ArrowMapEntryV,
    after: ArrowMapEntryV,
    scope: S,
    table: SymbolTable<S>,
    imports: Seq<ImportedV<VolumeV>>,
) -> bool {
    match before.host {
        ArrowMapHostV::Named(LiteralV::Qualified(q)) => match (table.volumes)(
            scope,
            q.qualifier,
            q.name,
            q.span,
        ) {
            Ok(decl) => {
                &&& after.host == ArrowMapHostV::Named(LiteralV::Ident(decl.name.name, q.span))
                &&& after.container == before.container
                &&& after.read_only == before.read_only
                &&& after.span == before.span
                &&& imports.contains(
                    ImportedV { decl, alias: q.qualifier.name, reference: q.span },
                )
            },
            Err(_) => false,
        },
        _ => after == before,
    }
}

proof fn lemma_networks_resolved<S>(
    refs: Seq<LiteralV>,
    i: int,
    before: Seq<LiteralV>,
    scope: S,
    table: SymbolTable<S>,
    imports: Seq<ImportedV<NetworkV>>,
)
    requires
        0 <= i <= refs.len(),
        before.len() == i,
        forall|k: int|
            0 <= k < i ==> network_resolved(refs[k], #[trigger] before[k], scope, table, imports),
    ensures
        qualified_networks(refs, i, before, scope, table, imports) matches Ok((after, more))
            ==> after.len() == refs.len() && imports.is_prefix_of(more) && (forall|k: int|
            0 <= k < refs.len() ==> network_resolved(
                refs[k],
                #[trigger] after[k],
                scope,
                table,
                more,
            )) && more.len() - imports.len() <= refs.len() - i,
    decreases refs.len() - i,
{
    if i < refs.len() {
        if let LiteralV::Qualified(q) = refs[i] {
            if let Ok(decl) = table.network(scope, q.qualifier, q.name, q.span) {
                let one = ImportedV { decl, alias: q.qualifier.name, reference: q.span };
                let next = before.push(LiteralV::Ident(decl.name.name, q.span));
                let grown = imports.push(one);
                assert(grown[imports.len() as int] == one);
                assert forall|k: int| 0 <= k < i + 1 implies network_resolved(
                    refs[k],
                    #[trigger] next[k],
                    scope,
                    table,
                    grown,
                ) by {
                    if k < i {
                        assert(network_resolved(refs[k], before[k], scope, table, imports));
                        lemma_contains_grows(imports, one);
                    }
                }
                lemma_networks_resolved(refs, i + 1, next, scope, table, grown);
                if let Ok((_, more)) = qualified_networks(refs, i + 1, next, scope, table, grown) {
                    lemma_prefix_of_grown(imports, one, more);
                }
            }
        } else {
            lemma_networks_resolved(refs, i + 1, before.push(refs[i]), scope, table, imports);
        }
    } else {
        assert(imports.take(imports.len() as int) =~= imports);
    }
}

proof fn lemma_contains_grows<T>(s: Seq<T>, one: T)
    ensures
        forall|x: T| #[trigger] s.contains(x) ==> s.push(one).contains(x),
{
    assert forall|x: T| #[trigger] s.contains(x) implies s.push(one).contains(x) by {
        let k = choose|k: int| 0 <= k < s.len() && s[k] == x;
        assert(s.push(one)[k] == x);
    }
}

proof fn lemma_prefix_of_grown<T>(s: Seq<T>, one: T, more: Seq<T>)
    requires
        s.push(one).is_prefix_of(more),
    ensures
        s.is_prefix_of(more),
{
    assert(s.push(one) =~= more.take(s.len() as int + 1));
    assert(s =~= more.take(s.len() as int)) by {
        assert forall|k: int| 0 <= k < s.len() implies s[k] == more[k] by {
            assert(s.push(one)[k] == more[k]);
        }
    }
}

proof fn lemma_mounts_resolved<S>(
    entries: Seq<ArrowMapEntryV>,
    i: int,
    before: Seq<ArrowMapEntryV>,
    scope: S,
    table: SymbolTable<S>,
    imports: Seq<ImportedV<VolumeV>>,
)
    requires
        0 <= i <= entries.len(),
        before.len() == i,
        forall|k: int|
            0 <= k < i ==> mount_resolved(entries[k], #[trigger] before[k], scope, table, imports),
    ensures
        qualified_mounts(entries, i, before, scope, table, imports) matches Ok((after, more))
            ==> after.len() == entries.len() && imports.is_prefix_of(more) && (forall|k: int|
            0 <= k < entries.len() ==> mount_resolved(
                entries[k],
                #[trigger] after[k],
                scope,
                table,
                more,
            )) && more.len() - imports.len() <= entries.len() - i,
    decreases entries.len() - i,
{
    if i < entries.len() {
        match entries[i].host {
            ArrowMapHostV::Named(LiteralV::Qualified(q)) => {
                if let Ok(decl) = table.volume(scope, q.qualifier, q.name, q.span) {
                    let one = ImportedV { decl, alias: q.qualifier.name, reference: q.span };
                    let next = before.push(
                        ArrowMapEntryV {
                            host: ArrowMapHostV::Named(LiteralV::Ident(decl.name.name, q.span)),
                            ..entries[i]
                        },
                    );
                    let grown = imports.push(one);
                    assert(grown[imports.len() as int] == one);
                    assert forall|k: int| 0 <= k < i + 1 implies mount_resolved(
                        entries[k],
                        #[trigger] next[k],
                        scope,
                        table,
                        grown,
                    ) by {
                        if k < i {
                            assert(mount_resolved(entries[k], before[k], scope, table, imports));
                            lemma_contains_grows(imports, one);
                        }
                    }
                    lemma_mounts_resolved(entries, i + 1, next, scope, table, grown);
                    if let Ok((_, more)) = qualified_mounts(
                        entries,
                        i + 1,
                        next,
                        scope,
                        table,
                        grown,
                    ) {
                        lemma_prefix_of_grown(imports, one, more);
                    }
                }
            },
            _ => {
                lemma_mounts_resolved(
                    entries,
                    i + 1,
                    before.push(entries[i]),
                    scope,
                    table,
                    imports,
                );
            },
        }
    } else {
        assert(imports.take(imports.len() as int) =~= imports);
    }
}

/// Resolving a body's references through aliases replaces each of them,
/// one by one and in place, by the name of what it reaches, notes each
/// declaration reached, and leaves everything else as it was.
pub proof fn law_references_become_the_names_they_reach<S>(
    fields: ServiceFieldsV,
    scope: S,
    table: SymbolTable<S>,
    imports: ImportsV,
)
    ensures
        qualified_references(fields, scope, table, imports) matches Ok((after, more)) ==> ({
            &&& after.networks.len() == fields.networks.len()
            &&& forall|k: int|
                0 <= k < fields.networks.len() ==> network_resolved(
                    fields.networks[k],
                    #[trigger] after.networks[k],
                    scope,
                    table,
                    more.networks,
                )
            &&& after.volumes.entries.len() == fields.volumes.entries.len()
            &&& forall|k: int|
                0 <= k < fields.volumes.entries.len() ==> mount_resolved(
                    fields.volumes.entries[k],
                    #[trigger] after.volumes.entries[k],
                    scope,
                    table,
                    more.volumes,
                )
            &&& imports.networks.is_prefix_of(more.networks)
            &&& imports.volumes.is_prefix_of(more.volumes)
            &&& after == (ServiceFieldsV {
                networks: after.networks,
                volumes: after.volumes,
                ..fields
            })
        }),
{
    lemma_networks_resolved(fields.networks, 0, Seq::empty(), scope, table, imports.networks);
    lemma_mounts_resolved(fields.volumes.entries, 0, Seq::empty(), scope, table, imports.volumes);
}

/// A body none of whose references goes through an alias stays as it was,
/// and imports nothing.
pub proof fn law_bare_bodies_import_nothing<S>(
    fields: ServiceFieldsV,
    scope: S,
    table: SymbolTable<S>,
    imports: ImportsV,
)
    requires
        references_bare(fields),
    ensures
        qualified_references(fields, scope, table, imports) == Ok::<
            (ServiceFieldsV, ImportsV),
            ComposeErrorV,
        >((fields, imports)),
{
    lemma_bare_networks(fields.networks, 0, Seq::empty(), scope, table, imports.networks);
    assert forall|k: int| 0 <= k < fields.volumes.entries.len() implies mount_bare(
        #[trigger] fields.volumes.entries[k],
    ) by {
        assert(fields.volumes.entries[k] == fields.volumes.entries[k]);
    }
    lemma_bare_mounts(fields.volumes.entries, 0, Seq::empty(), scope, table, imports.volumes);
    assert(Seq::<LiteralV>::empty() + fields.networks.skip(0) =~= fields.networks);
    assert(Seq::<ArrowMapEntryV>::empty() + fields.volumes.entries.skip(0)
        =~= fields.volumes.entries);
    let refs = dependency_references(fields.depends_on);
    assert forall|k: int| 0 <= k < refs.len() implies !(#[trigger] refs[k] is Qualified) by {
        assert(refs[k] == fields.depends_on[k].reference);
    }
    lemma_no_refusal(refs, 0, "depends_on"@);
    lemma_no_refusal(fields.dns, 0, "dns"@);
    lemma_no_refusal(fields.env_file, 0, "env_file"@);
}

proof fn lemma_no_refusal(refs: Seq<LiteralV>, i: int, field: Seq<char>)
    requires
        0 <= i,
        forall|k: int| i <= k < refs.len() ==> !(#[trigger] refs[k] is Qualified),
    ensures
        first_refusal(refs, i, field) is None,
    decreases refs.len() - i,
{
    if i < refs.len() {
        lemma_no_refusal(refs, i + 1, field);
    }
}

proof fn lemma_bare_networks<S>(
    refs: Seq<LiteralV>,
    i: int,
    before: Seq<LiteralV>,
    scope: S,
    table: SymbolTable<S>,
    imports: Seq<ImportedV<NetworkV>>,
)
    requires
        0 <= i <= refs.len(),
        literals_bare(refs),
    ensures
        qualified_networks(refs, i, before, scope, table, imports) == Ok::<
            (Seq<LiteralV>, Seq<ImportedV<NetworkV>>),
            ComposeErrorV,
        >((before + refs.skip(i), imports)),
    decreases refs.len() - i,
{
    if i < refs.len() {
        lemma_bare_networks(refs, i + 1, before.push(refs[i]), scope, table, imports);
        assert(before.push(refs[i]) + refs.skip(i + 1) =~= before + refs.skip(i));
    } else {
        assert(before + refs.skip(i) =~= before);
    }
}

proof fn lemma_bare_mounts<S>(
    entries: Seq<ArrowMapEntryV>,
    i: int,
    before: Seq<ArrowMapEntryV>,
    scope: S,
    table: SymbolTable<S>,
    imports: Seq<ImportedV<VolumeV>>,
)
    requires
        0 <= i <= entries.len(),
        forall|k: int| 0 <= k < entries.len() ==> mount_bare(#[trigger] entries[k]),
    ensures
        qualified_mounts(entries, i, before, scope, table, imports) == Ok::<
            (Seq<ArrowMapEntryV>, Seq<ImportedV<VolumeV>>),
            ComposeErrorV,
        >((before + entries.skip(i), imports)),
    decreases entries.len() - i,
{
    if i < entries.len() {
        assert(mount_bare(entries[i]));
        lemma_bare_mounts(entries, i + 1, before.push(entries[i]), scope, table, imports);
        assert(before.push(entries[i]) + entries.skip(i + 1) =~= before + entries.skip(i));
    } else {
        assert(before + entries.skip(i) =~= before);
    }
}

/// A reference through an alias in `depends_on`, `dns` or `env_file` is
/// refused by that field's name, the alias and the place, where nothing
/// before it fails.
pub proof fn law_other_references_must_be_bare<S>(
    fields: ServiceFieldsV,
    scope: S,
    table: SymbolTable<S>,
    imports: ImportsV,
    q: QualifiedRefV,
)
    requires
        fields.networks.len() == 0,
        fields.volumes.entries.len() == 0,
    ensures
        fields.depends_on.len() > 0 && fields.depends_on[0].reference == LiteralV::Qualified(q)
            ==> refused_in(
            qualified_references(fields, scope, table, imports),
            "depends_on"@,
            q,
        ),
        fields.depends_on.len() == 0 && fields.dns.len() > 0 && fields.dns[0]
            == LiteralV::Qualified(q) ==> refused_in(
            qualified_references(fields, scope, table, imports),
            "dns"@,
            q,
        ),
        fields.depends_on.len() == 0 && fields.dns.len() == 0 && fields.env_file.len() > 0
            && fields.env_file[0] == LiteralV::Qualified(q) ==> refused_in(
            qualified_references(fields, scope, table, imports),
            "env_file"@,
            q,
        ),
{
    let refs = dependency_references(fields.depends_on);
    if fields.depends_on.len() > 0 {
        assert(refs[0] == fields.depends_on[0].reference);
    }
}

/// Whether a body was refused for a reference through an alias in a field.
pub open spec fn refused_in<T>(
    r: Result<T, ComposeErrorV>,
    field: Seq<char>,
    q: QualifiedRefV,
) -> bool {
    r == Err::<T, ComposeErrorV>(
        ComposeErrorV::UnsupportedQualifiedReference {
            field,
            alias: q.qualifier.name,
            span: q.span,
        },
    )
}

} // verus!
