//! Qualified references: the two positions that resolve an `alias.name`,
//! the ones that refuse it, and the declarations it brings in.

use vstd::prelude::*;
use vstd::string::*;

use crate::ast::{
    ArrowMap, ArrowMapEntry, ArrowMapEntryV, ArrowMapHost, ArrowMapHostV, ArrowMapV, DependsOnEntry,
    DependsOnEntryV, Literal, LiteralV, Network, NetworkV, ServiceFields, ServiceFieldsV, Volume,
    VolumeV,
};
use crate::compose::resolver::{declared, find_decl, ImportableDecl, SymbolResolver, SymbolTable};
use crate::compose::slots::{LiteralPass, Slots, Walk};
use crate::compose_error::{ComposeError, ComposeErrorV};
use crate::deep::{no_items, outcome, push_to, Duplicate, SameView};
use crate::schema::may_be_qualified;
use crate::source::Span;

verus! {

/// A declaration that a qualified reference reached, and the reference
/// that reached it.
pub struct Imported<D> {
    pub decl: D,
    pub alias: String,
    pub reference: Span,
}

/// The view of [`Imported`].
#[verifier::ext_equal]
pub struct ImportedV<T> {
    pub decl: T,
    pub alias: Seq<char>,
    pub reference: Span,
}

impl<D: DeepView> DeepView for Imported<D> {
    type V = ImportedV<D::V>;

    open spec fn deep_view(&self) -> ImportedV<D::V> {
        ImportedV {
            decl: self.decl.deep_view(),
            alias: self.alias@,
            reference: self.reference,
        }
    }
}

/// Everything that qualified references reached, in the order they were
/// resolved.
pub struct Imports {
    pub networks: Vec<Imported<Network>>,
    pub volumes: Vec<Imported<Volume>>,
}

/// The view of [`Imports`].
#[verifier::ext_equal]
pub struct ImportsV {
    pub networks: Seq<ImportedV<NetworkV>>,
    pub volumes: Seq<ImportedV<VolumeV>>,
}

impl DeepView for Imports {
    type V = ImportsV;

    open spec fn deep_view(&self) -> ImportsV {
        ImportsV { networks: self.networks.deep_view(), volumes: self.volumes.deep_view() }
    }
}

/// The `networks` entries from index `i` on, each qualified one replaced
/// by the bare name of the network it reaches.
pub open spec fn qualified_networks<S>(
    refs: Seq<LiteralV>,
    i: int,
    before: Seq<LiteralV>,
    scope: S,
    table: SymbolTable<S>,
    imports: Seq<ImportedV<NetworkV>>,
) -> Result<(Seq<LiteralV>, Seq<ImportedV<NetworkV>>), ComposeErrorV>
    decreases refs.len() - i,
{
    if i >= refs.len() {
        Ok((before, imports))
    } else {
        match refs[i] {
            LiteralV::Qualified(q) => match table.network(
                scope,
                q.qualifier,
                q.name,
                q.span,
            ) {
                Ok(decl) => qualified_networks(
                    refs,
                    i + 1,
                    before.push(LiteralV::Ident(decl.name.name, q.span)),
                    scope,
                    table,
                    imports.push(
                        ImportedV { decl, alias: q.qualifier.name, reference: q.span },
                    ),
                ),
                Err(error) => Err(error),
            },
            lit => qualified_networks(refs, i + 1, before.push(lit), scope, table, imports),
        }
    }
}

/// The mounts from index `i` on, each qualified named volume replaced by
/// the bare name of the volume it reaches.
pub open spec fn qualified_mounts<S>(
    entries: Seq<ArrowMapEntryV>,
    i: int,
    before: Seq<ArrowMapEntryV>,
    scope: S,
    table: SymbolTable<S>,
    imports: Seq<ImportedV<VolumeV>>,
) -> Result<(Seq<ArrowMapEntryV>, Seq<ImportedV<VolumeV>>), ComposeErrorV>
    decreases entries.len() - i,
{
    if i >= entries.len() {
        Ok((before, imports))
    } else {
        match entries[i].host {
            ArrowMapHostV::Named(LiteralV::Qualified(q)) => match table.volume(
                scope,
                q.qualifier,
                q.name,
                q.span,
            ) {
                Ok(decl) => qualified_mounts(
                    entries,
                    i + 1,
                    before.push(
                        ArrowMapEntryV {
                            host: ArrowMapHostV::Named(LiteralV::Ident(decl.name.name, q.span)),
                            ..entries[i]
                        },
                    ),
                    scope,
                    table,
                    imports.push(
                        ImportedV { decl, alias: q.qualifier.name, reference: q.span },
                    ),
                ),
                Err(error) => Err(error),
            },
            _ => qualified_mounts(
                entries,
                i + 1,
                before.push(entries[i]),
                scope,
                table,
                imports,
            ),
        }
    }
}

/// Why a literal cannot stand in `field`, if it is qualified.
pub open spec fn qualified_refusal(lit: LiteralV, field: Seq<char>) -> Option<ComposeErrorV> {
    match lit.qualifier() {
        Some(q) => Some(
            ComposeErrorV::UnsupportedQualifiedReference { field, alias: q.name, span: lit.span() },
        ),
        None => None,
    }
}

/// The refusal of the first qualified literal at or after index `i`.
pub open spec fn first_refusal(refs: Seq<LiteralV>, i: int, field: Seq<char>) -> Option<
    ComposeErrorV,
>
    decreases refs.len() - i,
{
    if i >= refs.len() {
        None
    } else {
        match qualified_refusal(refs[i], field) {
            Some(error) => Some(error),
            None => first_refusal(refs, i + 1, field),
        }
    }
}

/// The references of `depends_on` entries.
pub open spec fn dependency_references(entries: Seq<DependsOnEntryV>) -> Seq<LiteralV> {
    entries.map_values(|entry: DependsOnEntryV| entry.reference)
}

/// Whether no reference of a body is qualified by an alias any more.
pub open spec fn references_bare(fields: ServiceFieldsV) -> bool {
    &&& forall|k: int|
        0 <= k < fields.networks.len() ==> !(#[trigger] fields.networks[k] is Qualified)
    &&& forall|k: int|
        0 <= k < fields.volumes.entries.len() ==> ((
        #[trigger] fields.volumes.entries[k]).host matches ArrowMapHostV::Named(lit) ==> !(
        lit is Qualified))
    &&& forall|k: int|
        0 <= k < fields.depends_on.len() ==> !((
        #[trigger] fields.depends_on[k]).reference is Qualified)
    &&& forall|k: int| 0 <= k < fields.dns.len() ==> !(#[trigger] fields.dns[k] is Qualified)
    &&& forall|k: int|
        0 <= k < fields.env_file.len() ==> !(#[trigger] fields.env_file[k] is Qualified)
}

proof fn lemma_networks_bare<S>(
    refs: Seq<LiteralV>,
    i: int,
    before: Seq<LiteralV>,
    scope: S,
    table: SymbolTable<S>,
    imports: Seq<ImportedV<NetworkV>>,
)
    requires
        0 <= i,
        forall|k: int| 0 <= k < before.len() ==> !(#[trigger] before[k] is Qualified),
    ensures
        qualified_networks(refs, i, before, scope, table, imports) matches Ok((after, _))
            ==> forall|k: int| 0 <= k < after.len() ==> !(#[trigger] after[k] is Qualified),
    decreases refs.len() - i,
{
    if i < refs.len() {
        if let LiteralV::Qualified(q) = refs[i] {
            if let Ok(decl) = table.network(scope, q.qualifier, q.name, q.span) {
                lemma_networks_bare(
                    refs,
                    i + 1,
                    before.push(LiteralV::Ident(decl.name.name, q.span)),
                    scope,
                    table,
                    imports.push(ImportedV { decl, alias: q.qualifier.name, reference: q.span }),
                );
            }
        } else {
            lemma_networks_bare(refs, i + 1, before.push(refs[i]), scope, table, imports);
        }
    }
}

proof fn lemma_mounts_bare<S>(
    entries: Seq<ArrowMapEntryV>,
    i: int,
    before: Seq<ArrowMapEntryV>,
    scope: S,
    table: SymbolTable<S>,
    imports: Seq<ImportedV<VolumeV>>,
)
    requires
        0 <= i,
        forall|k: int|
            0 <= k < before.len() ==> ((#[trigger] before[k]).host matches ArrowMapHostV::Named(lit)
                ==> !(lit is Qualified)),
    ensures
        qualified_mounts(entries, i, before, scope, table, imports) matches Ok((after, _))
            ==> forall|k: int|
            0 <= k < after.len() ==> ((#[trigger] after[k]).host matches ArrowMapHostV::Named(lit)
                ==> !(lit is Qualified)),
    decreases entries.len() - i,
{
    if i < entries.len() {
        match entries[i].host {
            ArrowMapHostV::Named(LiteralV::Qualified(q)) => {
                if let Ok(decl) = table.volume(scope, q.qualifier, q.name, q.span) {
                    let entry = ArrowMapEntryV {
                        host: ArrowMapHostV::Named(LiteralV::Ident(decl.name.name, q.span)),
                        ..entries[i]
                    };
                    lemma_mounts_bare(
                        entries,
                        i + 1,
                        before.push(entry),
                        scope,
                        table,
                        imports.push(
                            ImportedV { decl, alias: q.qualifier.name, reference: q.span },
                        ),
                    );
                }
            },
            _ => {
                lemma_mounts_bare(entries, i + 1, before.push(entries[i]), scope, table, imports);
            },
        }
    }
}

proof fn lemma_refusals(refs: Seq<LiteralV>, i: int, field: Seq<char>)
    requires
        0 <= i,
    ensures
        first_refusal(refs, i, field) is None ==> forall|k: int|
            i <= k < refs.len() ==> !(#[trigger] refs[k] is Qualified),
    decreases refs.len() - i,
{
    if i < refs.len() {
        lemma_refusals(refs, i + 1, field);
    }
}

/// Once a body's qualified references are resolved, none is left: what
/// merges bodies need not know of imports.
pub proof fn law_resolved_references_are_bare<S>(
    fields: ServiceFieldsV,
    scope: S,
    table: SymbolTable<S>,
    imports: ImportsV,
)
    ensures
        qualified_references(fields, scope, table, imports) matches Ok((after, _))
            ==> references_bare(after),
{
    lemma_networks_bare(fields.networks, 0, Seq::empty(), scope, table, imports.networks);
    lemma_mounts_bare(fields.volumes.entries, 0, Seq::empty(), scope, table, imports.volumes);
    let refs = dependency_references(fields.depends_on);
    lemma_refusals(refs, 0, "depends_on"@);
    lemma_refusals(fields.dns, 0, "dns"@);
    lemma_refusals(fields.env_file, 0, "env_file"@);
    if let Ok((after, _)) = qualified_references(fields, scope, table, imports) {
        assert forall|k: int| 0 <= k < after.depends_on.len() implies !((
        #[trigger] after.depends_on[k]).reference is Qualified) by {
            assert(refs[k] == after.depends_on[k].reference);
        }
    }
}

/// A body with its qualified references resolved: `networks` entries and
/// named-volume hosts are replaced by the bare names they reach, and a
/// qualified reference in `depends_on`, `dns` or `env_file`, where it has
/// no meaning, is refused.
pub open spec fn qualified_references<S>(
    fields: ServiceFieldsV,
    scope: S,
    table: SymbolTable<S>,
    imports: ImportsV,
) -> Result<(ServiceFieldsV, ImportsV), ComposeErrorV> {
    match qualified_networks(
        fields.networks,
        0,
        Seq::empty(),
        scope,
        table,
        imports.networks,
    ) {
        Err(error) => Err(error),
        Ok((networks, network_imports)) => match qualified_mounts(
            fields.volumes.entries,
            0,
            Seq::empty(),
            scope,
            table,
            imports.volumes,
        ) {
            Err(error) => Err(error),
            Ok((mounts, volume_imports)) => match first_refusal(
                dependency_references(fields.depends_on),
                0,
                "depends_on"@,
            ) {
                Some(error) => Err(error),
                None => match first_refusal(fields.dns, 0, "dns"@) {
                    Some(error) => Err(error),
                    None => match first_refusal(fields.env_file, 0, "env_file"@) {
                        Some(error) => Err(error),
                        None => Ok(
                            (
                                ServiceFieldsV {
                                    networks,
                                    volumes: ArrowMapV { entries: mounts },
                                    ..fields
                                },
                                ImportsV { networks: network_imports, volumes: volume_imports },
                            ),
                        ),
                    },
                },
            },
        },
    }
}

/// The outcome of a step that may add imports, which a failed step does
/// not get to keep.
pub open spec fn imported_step<T: DeepView, I>(r: Result<T, ComposeError>, imports: I) -> Result<
    (T::V, I),
    ComposeErrorV,
> {
    match r {
        Ok(value) => Ok((value.deep_view(), imports)),
        Err(error) => Err(error.deep_view()),
    }
}

fn resolve_networks<R: SymbolResolver>(
    refs: &Vec<Literal>,
    scope: R::Scope,
    resolver: &R,
    imports: &mut Vec<Imported<Network>>,
) -> (r: Result<Vec<Literal>, ComposeError>)
    ensures
        imported_step(r, final(imports).deep_view()) == qualified_networks(
            refs.deep_view(),
            0,
            Seq::empty(),
            scope,
            resolver.table(),
            old(imports).deep_view(),
        ),
{
    let mut out: Vec<Literal> = no_items();
    let mut i: usize = 0;
    while i < refs.len()
        invariant
            i <= refs@.len(),
            qualified_networks(
                refs.deep_view(),
                0,
                Seq::empty(),
                scope,
                resolver.table(),
                old(imports).deep_view(),
            ) == qualified_networks(
                refs.deep_view(),
                i as int,
                out.deep_view(),
                scope,
                resolver.table(),
                imports.deep_view(),
            ),
        decreases refs@.len() - i,
    {
        let lit = &refs[i];
        assert(refs.deep_view()[i as int] == lit.deep_view());
        match lit {
            Literal::Qualified(q) => {
                match resolver.resolve_qualified_network(
                    scope,
                    &q.qualifier,
                    q.name.as_str(),
                    q.span,
                ) {
                    Ok(network) => {
                        push_to(
                            imports,
                            Imported {
                                decl: network.duplicate(),
                                alias: q.qualifier.name.clone(),
                                reference: q.span,
                            },
                        );
                        push_to(&mut out, Literal::Ident(network.name.name.clone(), q.span));
                    },
                    Err(error) => {
                        return Err(error);
                    },
                }
            },
            _ => {
                push_to(&mut out, lit.duplicate());
            },
        }
        i = i + 1;
    }
    Ok(out)
}

fn resolve_mounts<R: SymbolResolver>(
    entries: &Vec<ArrowMapEntry>,
    scope: R::Scope,
    resolver: &R,
    imports: &mut Vec<Imported<Volume>>,
) -> (r: Result<Vec<ArrowMapEntry>, ComposeError>)
    ensures
        imported_step(r, final(imports).deep_view()) == qualified_mounts(
            entries.deep_view(),
            0,
            Seq::empty(),
            scope,
            resolver.table(),
            old(imports).deep_view(),
        ),
{
    let mut out: Vec<ArrowMapEntry> = no_items();
    let mut i: usize = 0;
    while i < entries.len()
        invariant
            i <= entries@.len(),
            qualified_mounts(
                entries.deep_view(),
                0,
                Seq::empty(),
                scope,
                resolver.table(),
                old(imports).deep_view(),
            ) == qualified_mounts(
                entries.deep_view(),
                i as int,
                out.deep_view(),
                scope,
                resolver.table(),
                imports.deep_view(),
            ),
        decreases entries@.len() - i,
    {
        let entry = &entries[i];
        assert(entries.deep_view()[i as int] == entry.deep_view());
        match &entry.host {
            ArrowMapHost::Named(Literal::Qualified(q)) => {
                match resolver.resolve_qualified_volume(
                    scope,
                    &q.qualifier,
                    q.name.as_str(),
                    q.span,
                ) {
                    Ok(volume) => {
                        push_to(
                            imports,
                            Imported {
                                decl: volume.duplicate(),
                                alias: q.qualifier.name.clone(),
                                reference: q.span,
                            },
                        );
                        push_to(
                            &mut out,
                            ArrowMapEntry {
                                host: ArrowMapHost::Named(
                                    Literal::Ident(volume.name.name.clone(), q.span),
                                ),
                                container: entry.container.duplicate(),
                                read_only: entry.read_only,
                                span: entry.span,
                            },
                        );
                    },
                    Err(error) => {
                        return Err(error);
                    },
                }
            },
            _ => {
                push_to(&mut out, entry.duplicate());
            },
        }
        i = i + 1;
    }
    Ok(out)
}

proof fn lemma_refused_fields()
    ensures
        !may_be_qualified("depends_on"@),
        !may_be_qualified("dns"@),
        !may_be_qualified("env_file"@),
{
    reveal_strlit("networks");
    reveal_strlit("volume");
    reveal_strlit("depends_on");
    reveal_strlit("dns");
    reveal_strlit("env_file");
    assert("networks"@[0] == 'n');
    assert("env_file"@[0] == 'e');
    assert("networks"@.len() == 8 && "volume"@.len() == 6);
    assert("depends_on"@.len() == 10 && "dns"@.len() == 3 && "env_file"@.len() == 8);
}

fn refuse(lit: &Literal, field: &'static str) -> (r: Option<ComposeError>)
    requires
        !may_be_qualified(field@),
    ensures
        r.deep_view() == qualified_refusal(lit.deep_view(), field@),
{
    match lit.qualifier() {
        Some(q) => Some(
            ComposeError::UnsupportedQualifiedReference {
                field,
                alias: q.name.clone(),
                span: lit.span(),
            },
        ),
        None => None,
    }
}

fn reject_qualified(refs: &Vec<Literal>, field: &'static str) -> (r: Option<ComposeError>)
    requires
        !may_be_qualified(field@),
    ensures
        r.deep_view() == first_refusal(refs.deep_view(), 0, field@),
{
    let mut i: usize = 0;
    while i < refs.len()
        invariant
            i <= refs@.len(),
            !may_be_qualified(field@),
            first_refusal(refs.deep_view(), 0, field@) == first_refusal(
                refs.deep_view(),
                i as int,
                field@,
            ),
        decreases refs@.len() - i,
    {
        let refusal = refuse(&refs[i], field);
        if refusal.is_some() {
            return refusal;
        }
        i = i + 1;
    }
    None
}

fn reject_qualified_dependencies(entries: &Vec<DependsOnEntry>) -> (r: Option<ComposeError>)
    ensures
        r.deep_view() == first_refusal(
            dependency_references(entries.deep_view()),
            0,
            "depends_on"@,
        ),
{
    let ghost refs = dependency_references(entries.deep_view());
    proof {
        lemma_refused_fields();
    }
    let mut i: usize = 0;
    while i < entries.len()
        invariant
            i <= entries@.len(),
            !may_be_qualified("depends_on"@),
            refs == dependency_references(entries.deep_view()),
            first_refusal(refs, 0, "depends_on"@) == first_refusal(refs, i as int, "depends_on"@),
        decreases entries@.len() - i,
    {
        assert(refs[i as int] == entries@[i as int].reference.deep_view());
        let refusal = refuse(&entries[i].reference, "depends_on");
        if refusal.is_some() {
            return refusal;
        }
        i = i + 1;
    }
    None
}

pub(crate) fn resolve_qualified_references<R: SymbolResolver>(
    fields: ServiceFields,
    scope: R::Scope,
    resolver: &R,
    imports: &mut Imports,
) -> (r: Result<ServiceFields, ComposeError>)
    ensures
        imported_step(r, final(imports).deep_view()) == qualified_references(
            fields.deep_view(),
            scope,
            resolver.table(),
            old(imports).deep_view(),
        ),
{
    let networks = match resolve_networks(
        &fields.networks,
        scope,
        resolver,
        &mut imports.networks,
    ) {
        Ok(networks) => networks,
        Err(error) => {
            return Err(error);
        },
    };
    let mounts = match resolve_mounts(
        &fields.volumes.entries,
        scope,
        resolver,
        &mut imports.volumes,
    ) {
        Ok(mounts) => mounts,
        Err(error) => {
            return Err(error);
        },
    };
    proof {
        lemma_refused_fields();
    }
    if let Some(error) = reject_qualified_dependencies(&fields.depends_on) {
        return Err(error);
    }
    if let Some(error) = reject_qualified(&fields.dns, "dns") {
        return Err(error);
    }
    if let Some(error) = reject_qualified(&fields.env_file, "env_file") {
        return Err(error);
    }
    let mut out = fields;
    out.networks = networks;
    out.volumes = ArrowMap { entries: mounts };
    assert(out.deep_view() =~= ServiceFieldsV {
        networks: networks.deep_view(),
        volumes: ArrowMapV { entries: mounts.deep_view() },
        ..fields.deep_view()
    });
    Ok(out)
}

/// What becomes of a literal that an argument left in a template's body:
/// a declaration reference is no plain value.
pub open spec fn plain_value(lit: LiteralV, template: Seq<char>) -> Result<
    LiteralV,
    ComposeErrorV,
> {
    match lit {
        LiteralV::Qualified(q) => Err(
            ComposeErrorV::QualifiedArgumentNotAValue {
                template,
                alias: q.qualifier.name,
                name: q.name,
                span: q.span,
            },
        ),
        _ => Ok(lit),
    }
}

/// Refuses a declaration reference wherever one is left.
pub struct PlainValuePass<'a> {
    pub template: &'a str,
}

impl<'a> DeepView for PlainValuePass<'a> {
    type V = Seq<char>;

    open spec fn deep_view(&self) -> Seq<char> {
        self.template@
    }
}

impl<'a> LiteralPass for PlainValuePass<'a> {
    open spec fn rewrites(pass: Seq<char>, lit: LiteralV) -> Result<LiteralV, ComposeErrorV> {
        plain_value(lit, pass)
    }

    fn rewrite(&self, lit: &Literal) -> (r: Result<Literal, ComposeError>) {
        match lit {
            Literal::Qualified(q) => Err(
                ComposeError::QualifiedArgumentNotAValue {
                    template: self.template.to_owned(),
                    alias: q.qualifier.name.clone(),
                    name: q.name.clone(),
                    span: q.span,
                },
            ),
            _ => Ok(lit.duplicate()),
        }
    }

    proof fn lemma_rewrites_within(pass: Seq<char>, lit: LiteralV, names: Set<Seq<char>>) {
    }
}

/// A body that an invocation's arguments have left no declaration
/// reference in.
pub open spec fn plain_values(fields: ServiceFieldsV, template: Seq<char>) -> Result<
    ServiceFieldsV,
    ComposeErrorV,
> {
    <ServiceFields as Walk<PlainValuePass<'_>>>::passed(fields, template)
}

pub(crate) fn reject_qualified_values(fields: &ServiceFields, template: &str) -> (r: Result<
    ServiceFields,
    ComposeError,
>)
    ensures
        outcome(r) == plain_values(fields.deep_view(), template@),
{
    fields.pass(&PlainValuePass { template })
}

/// Refusing declaration references brings in no parameter.
pub proof fn lemma_plain_values_within(
    fields: ServiceFieldsV,
    template: Seq<char>,
    names: Set<Seq<char>>,
)
    requires
        ServiceFields::within(fields, names),
    ensures
        plain_values(fields, template) matches Ok(after) ==> ServiceFields::within(after, names),
{
    <ServiceFields as Walk<PlainValuePass<'_>>>::lemma_passed_within(fields, template, names);
}

/// All declarations with the imported ones from index `i` on among them:
/// one that is there already joins once, and a different one under a name
/// already taken is a collision.
pub open spec fn with_imported<D: ImportableDecl>(
    all: Seq<D::V>,
    imported: Seq<ImportedV<D::V>>,
    i: int,
) -> Result<Seq<D::V>, ComposeErrorV>
    decreases imported.len() - i,
{
    if i >= imported.len() {
        Ok(all)
    } else {
        let entry = imported[i];
        match declared::<D>(all, D::name_of(entry.decl)) {
            Some(already) => if already == entry.decl {
                with_imported::<D>(all, imported, i + 1)
            } else {
                Err(D::collision_of(entry.alias, D::name_of(entry.decl), entry.reference))
            },
            None => with_imported::<D>(all.push(entry.decl), imported, i + 1),
        }
    }
}

pub(crate) fn merge_imported<D: ImportableDecl>(all: Vec<D>, imported: &Vec<Imported<D>>) -> (r:
    Result<Vec<D>, ComposeError>)
    ensures
        outcome(r) == with_imported::<D>(all.deep_view(), imported.deep_view(), 0),
{
    let mut out = all;
    let mut i: usize = 0;
    while i < imported.len()
        invariant
            i <= imported@.len(),
            with_imported::<D>(all.deep_view(), imported.deep_view(), 0) == with_imported::<D>(
                out.deep_view(),
                imported.deep_view(),
                i as int,
            ),
        decreases imported@.len() - i,
    {
        let entry = &imported[i];
        assert(imported.deep_view()[i as int] == entry.deep_view());
        let joins = match find_decl(&out, entry.decl.decl_name()) {
            Some(already) => {
                if !already.same(&entry.decl) {
                    return Err(
                        D::collision(
                            entry.alias.clone(),
                            entry.decl.decl_name().to_owned(),
                            entry.reference,
                        ),
                    );
                }
                false
            },
            None => true,
        };
        if joins {
            push_to(&mut out, entry.decl.duplicate());
        }
        i = i + 1;
    }
    Ok(out)
}

proof fn lemma_qualified_networks_within<S>(
    refs: Seq<LiteralV>,
    i: int,
    before: Seq<LiteralV>,
    scope: S,
    table: SymbolTable<S>,
    imports: Seq<ImportedV<NetworkV>>,
    names: Set<Seq<char>>,
)
    requires
        0 <= i,
        Vec::<Literal>::within(refs, names),
        Vec::<Literal>::within(before, names),
    ensures
        qualified_networks(refs, i, before, scope, table, imports) matches Ok((after, _))
            ==> Vec::<Literal>::within(after, names),
    decreases refs.len() - i,
{
    if i < refs.len() {
        assert(Literal::within(refs[i], names));
        match refs[i] {
            LiteralV::Qualified(q) => {
                if let Ok(decl) = table.network(scope, q.qualifier, q.name, q.span) {
                    let next = LiteralV::Ident(decl.name.name, q.span);
                    assert(Literal::within(next, names));
                    lemma_qualified_networks_within(
                        refs,
                        i + 1,
                        before.push(next),
                        scope,
                        table,
                        imports.push(
                            ImportedV { decl, alias: q.qualifier.name, reference: q.span },
                        ),
                        names,
                    );
                }
            },
            lit => {
                lemma_qualified_networks_within(
                    refs,
                    i + 1,
                    before.push(lit),
                    scope,
                    table,
                    imports,
                    names,
                );
            },
        }
    }
}

proof fn lemma_qualified_mounts_within<S>(
    entries: Seq<ArrowMapEntryV>,
    i: int,
    before: Seq<ArrowMapEntryV>,
    scope: S,
    table: SymbolTable<S>,
    imports: Seq<ImportedV<VolumeV>>,
    names: Set<Seq<char>>,
)
    requires
        0 <= i,
        Vec::<ArrowMapEntry>::within(entries, names),
        Vec::<ArrowMapEntry>::within(before, names),
    ensures
        qualified_mounts(entries, i, before, scope, table, imports) matches Ok((after, _))
            ==> Vec::<ArrowMapEntry>::within(after, names),
    decreases entries.len() - i,
{
    if i < entries.len() {
        assert(ArrowMapEntry::within(entries[i], names));
        match entries[i].host {
            ArrowMapHostV::Named(LiteralV::Qualified(q)) => {
                if let Ok(decl) = table.volume(scope, q.qualifier, q.name, q.span) {
                    let next = ArrowMapEntryV {
                        host: ArrowMapHostV::Named(LiteralV::Ident(decl.name.name, q.span)),
                        ..entries[i]
                    };
                    assert(ArrowMapEntry::within(next, names));
                    lemma_qualified_mounts_within(
                        entries,
                        i + 1,
                        before.push(next),
                        scope,
                        table,
                        imports.push(
                            ImportedV { decl, alias: q.qualifier.name, reference: q.span },
                        ),
                        names,
                    );
                }
            },
            _ => {
                lemma_qualified_mounts_within(
                    entries,
                    i + 1,
                    before.push(entries[i]),
                    scope,
                    table,
                    imports,
                    names,
                );
            },
        }
    }
}

/// Resolving qualified references brings in no parameter.
pub proof fn lemma_qualified_references_within<S>(
    fields: ServiceFieldsV,
    scope: S,
    table: SymbolTable<S>,
    imports: ImportsV,
    names: Set<Seq<char>>,
)
    requires
        ServiceFields::within(fields, names),
    ensures
        qualified_references(fields, scope, table, imports) matches Ok((after, _))
            ==> ServiceFields::within(after, names),
{
    lemma_qualified_networks_within(
        fields.networks,
        0,
        Seq::empty(),
        scope,
        table,
        imports.networks,
        names,
    );
    lemma_qualified_mounts_within(
        fields.volumes.entries,
        0,
        Seq::empty(),
        scope,
        table,
        imports.volumes,
        names,
    );
}

} // verus!
