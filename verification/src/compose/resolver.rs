//! What a name can stand for: the declarations of the program itself, and
//! those of imported files.

use vstd::laws_eq::obeys_concrete_eq;
use vstd::prelude::*;
use vstd::string::*;

use crate::ast::{Ident, IdentV, Network, NetworkV, TemplateDecl, TemplateDeclV, Volume, VolumeV};
use crate::compose_error::{ComposeError, ComposeErrorV};
use crate::deep::{no_items, outcome, push_to, Duplicate, SameView};
use crate::source::Span;
use crate::text::same_text;

verus! {

/// What every name resolves to, in each scope it can be written in.
#[verifier::reject_recursive_types(S)]
pub struct SymbolTable<S> {
    pub templates: spec_fn(S, Option<IdentV>, Seq<char>, Span) -> Result<
        (S, TemplateDeclV),
        ComposeErrorV,
    >,
    pub networks: spec_fn(S, IdentV, Seq<char>, Span) -> Result<NetworkV, ComposeErrorV>,
    pub volumes: spec_fn(S, IdentV, Seq<char>, Span) -> Result<VolumeV, ComposeErrorV>,
}

impl<S> SymbolTable<S> {
    /// The template that a `with` in `scope` names, and the scope it is
    /// declared in.
    pub open spec fn template(
        self,
        scope: S,
        qualifier: Option<IdentV>,
        name: Seq<char>,
        span: Span,
    ) -> Result<(S, TemplateDeclV), ComposeErrorV> {
        (self.templates)(scope, qualifier, name, span)
    }

    /// The network that `qualifier.name` names in `scope`.
    pub open spec fn network(
        self,
        scope: S,
        qualifier: IdentV,
        name: Seq<char>,
        span: Span,
    ) -> Result<NetworkV, ComposeErrorV> {
        (self.networks)(scope, qualifier, name, span)
    }

    /// The volume that `qualifier.name` names in `scope`.
    pub open spec fn volume(
        self,
        scope: S,
        qualifier: IdentV,
        name: Seq<char>,
        span: Span,
    ) -> Result<VolumeV, ComposeErrorV> {
        (self.volumes)(scope, qualifier, name, span)
    }
}

/// Resolves names against a symbol table, in the scope they are written
/// in.
///
/// A template is resolved to its declaration together with the scope it
/// was declared in: the references in its own body mean what they mean
/// there, whoever invokes it.
pub trait SymbolResolver {
    type Scope: Copy + Eq;

    /// What every name resolves to.
    spec fn table(&self) -> SymbolTable<Self::Scope>;

    /// Resolves a `with` item's template: `with alias.name` with a
    /// qualifier, `with name` without.
    fn resolve_template(
        &self,
        scope: Self::Scope,
        qualifier: Option<&Ident>,
        name: &str,
        span: Span,
    ) -> (r: Result<(Self::Scope, &TemplateDecl), ComposeError>)
        ensures
            template_outcome(r) == self.table().template(
                scope,
                qualifier.deep_view(),
                name@,
                span,
            ),
    ;

    /// Resolves a qualified `networks [alias.name]` entry.
    fn resolve_qualified_network(
        &self,
        scope: Self::Scope,
        qualifier: &Ident,
        name: &str,
        span: Span,
    ) -> (r: Result<&Network, ComposeError>)
        ensures
            outcome(r) == self.table().network(scope, qualifier.deep_view(), name@, span),
    ;

    /// Resolves a qualified named-volume mount.
    fn resolve_qualified_volume(
        &self,
        scope: Self::Scope,
        qualifier: &Ident,
        name: &str,
        span: Span,
    ) -> (r: Result<&Volume, ComposeError>)
        ensures
            outcome(r) == self.table().volume(scope, qualifier.deep_view(), name@, span),
    ;
}

/// What a template resolves to, seen through its views.
pub open spec fn template_outcome<S>(r: Result<(S, &TemplateDecl), ComposeError>) -> Result<
    (S, TemplateDeclV),
    ComposeErrorV,
> {
    match r {
        Ok((scope, decl)) => Ok((scope, decl.deep_view())),
        Err(error) => Err(error.deep_view()),
    }
}

/// Whether two scopes are the same.
pub(crate) fn same_scope<S: Copy + Eq>(a: S, b: S) -> (r: bool)
    requires
        obeys_concrete_eq::<S>(),
    ensures
        r == (a == b),
{
    proof {
        reveal(obeys_concrete_eq);
    }
    a == b
}

/// What a declaration answers when one of its fields is read.
pub enum FieldValue {
    /// The field's value, as text.
    Held(String),
    /// A field of this kind that the declaration leaves unset.
    Unset,
    /// A field that never holds a value, and why.
    NotAValue(&'static str),
}

/// The view of [`FieldValue`].
#[verifier::ext_equal]
pub enum FieldValueV {
    Held(Seq<char>),
    Unset,
    NotAValue(Seq<char>),
}

impl DeepView for FieldValue {
    type V = FieldValueV;

    open spec fn deep_view(&self) -> FieldValueV {
        match self {
            FieldValue::Held(text) => FieldValueV::Held(text@),
            FieldValue::Unset => FieldValueV::Unset,
            FieldValue::NotAValue(why) => FieldValueV::NotAValue(why@),
        }
    }
}

/// A top-level declaration that another file can import by name, and that
/// a field can be read off.
pub trait ImportableDecl: Duplicate + SameView {
    /// How this kind is written, in source and in diagnostics.
    spec fn kind_text() -> Seq<char>;

    /// The fields of this kind that can be read, in the order a
    /// diagnostic lists them.
    spec fn readable_texts() -> Seq<Seq<char>>;

    /// What a declaration is called.
    spec fn name_of(v: Self::V) -> Seq<char>;

    /// What a field of a declaration holds, if the kind has that field.
    spec fn field_of(v: Self::V, field: Seq<char>) -> Option<FieldValueV>;

    /// The error when another declaration has the name already.
    spec fn collision_of(alias: Seq<char>, name: Seq<char>, span: Span) -> ComposeErrorV;

    fn kind() -> (r: &'static str)
        ensures
            r@ == Self::kind_text(),
    ;

    fn readable_fields() -> (r: Vec<&'static str>)
        ensures
            r.deep_view() == Self::readable_texts(),
    ;

    fn decl_name(&self) -> (r: &str)
        ensures
            r@ == Self::name_of(self.deep_view()),
    ;

    fn read_field(&self, field: &str) -> (r: Option<FieldValue>)
        ensures
            r.deep_view() == Self::field_of(self.deep_view(), field@),
    ;

    fn collision(alias: String, name: String, span: Span) -> (r: ComposeError)
        ensures
            r.deep_view() == Self::collision_of(alias@, name@, span),
    ;
}

impl ImportableDecl for Network {
    open spec fn kind_text() -> Seq<char> {
        "network"@
    }

    open spec fn readable_texts() -> Seq<Seq<char>> {
        seq!["name"@]
    }

    open spec fn name_of(v: NetworkV) -> Seq<char> {
        v.name.name
    }

    open spec fn field_of(v: NetworkV, field: Seq<char>) -> Option<FieldValueV> {
        if field == "name"@ {
            Some(FieldValueV::Held(v.docker_name()))
        } else if field == "external"@ {
            Some(FieldValueV::NotAValue("a bare-presence flag rather than a value"@))
        } else {
            None
        }
    }

    open spec fn collision_of(alias: Seq<char>, name: Seq<char>, span: Span) -> ComposeErrorV {
        ComposeErrorV::CollidingImportedNetwork { alias, name, span }
    }

    fn kind() -> (r: &'static str) {
        "network"
    }

    fn readable_fields() -> (r: Vec<&'static str>) {
        let mut r: Vec<&'static str> = no_items();
        push_to(&mut r, "name");
        assert(r.deep_view() =~= seq!["name"@]);
        r
    }

    fn decl_name(&self) -> (r: &str) {
        self.name.name.as_str()
    }

    fn read_field(&self, field: &str) -> (r: Option<FieldValue>) {
        if same_text(field, "name") {
            Some(FieldValue::Held(self.docker_name().to_owned()))
        } else if same_text(field, "external") {
            Some(FieldValue::NotAValue("a bare-presence flag rather than a value"))
        } else {
            None
        }
    }

    fn collision(alias: String, name: String, span: Span) -> (r: ComposeError) {
        ComposeError::CollidingImportedNetwork { alias, name, span }
    }
}

impl ImportableDecl for Volume {
    open spec fn kind_text() -> Seq<char> {
        "volume"@
    }

    open spec fn readable_texts() -> Seq<Seq<char>> {
        seq!["name"@, "driver"@]
    }

    open spec fn name_of(v: VolumeV) -> Seq<char> {
        v.name.name
    }

    open spec fn field_of(v: VolumeV, field: Seq<char>) -> Option<FieldValueV> {
        if field == "name"@ {
            Some(FieldValueV::Held(v.docker_name()))
        } else if field == "driver"@ {
            match v.driver {
                Some(driver) => Some(FieldValueV::Held(driver.text())),
                None => Some(FieldValueV::Unset),
            }
        } else if field == "external"@ {
            Some(FieldValueV::NotAValue("a bare-presence flag rather than a value"@))
        } else if field == "driver_opts"@ {
            Some(FieldValueV::NotAValue("a map of driver options rather than one value"@))
        } else {
            None
        }
    }

    open spec fn collision_of(alias: Seq<char>, name: Seq<char>, span: Span) -> ComposeErrorV {
        ComposeErrorV::CollidingImportedVolume { alias, name, span }
    }

    fn kind() -> (r: &'static str) {
        "volume"
    }

    fn readable_fields() -> (r: Vec<&'static str>) {
        let mut r: Vec<&'static str> = no_items();
        push_to(&mut r, "name");
        push_to(&mut r, "driver");
        assert(r.deep_view() =~= seq!["name"@, "driver"@]);
        r
    }

    fn decl_name(&self) -> (r: &str) {
        self.name.name.as_str()
    }

    fn read_field(&self, field: &str) -> (r: Option<FieldValue>) {
        if same_text(field, "name") {
            Some(FieldValue::Held(self.docker_name().to_owned()))
        } else if same_text(field, "driver") {
            match &self.driver {
                Some(driver) => Some(FieldValue::Held(driver.text().to_owned())),
                None => Some(FieldValue::Unset),
            }
        } else if same_text(field, "external") {
            Some(FieldValue::NotAValue("a bare-presence flag rather than a value"))
        } else if same_text(field, "driver_opts") {
            Some(FieldValue::NotAValue("a map of driver options rather than one value"))
        } else {
            None
        }
    }

    fn collision(alias: String, name: String, span: Span) -> (r: ComposeError) {
        ComposeError::CollidingImportedVolume { alias, name, span }
    }
}

/// The text a field of a declaration holds, or why there is none.
pub open spec fn field_read<D: ImportableDecl>(decl: D::V, field: IdentV) -> Result<
    Seq<char>,
    ComposeErrorV,
> {
    match D::field_of(decl, field.name) {
        Some(FieldValueV::Held(value)) => Ok(value),
        Some(FieldValueV::Unset) => Err(
            ComposeErrorV::DeclarationFieldUnset {
                kind: D::kind_text(),
                decl: D::name_of(decl),
                field: field.name,
                span: field.span,
            },
        ),
        Some(FieldValueV::NotAValue(what)) => Err(
            ComposeErrorV::DeclarationFieldNotAValue {
                kind: D::kind_text(),
                decl: D::name_of(decl),
                field: field.name,
                what,
                span: field.span,
            },
        ),
        None => Err(
            ComposeErrorV::UnknownDeclarationField {
                kind: D::kind_text(),
                decl: D::name_of(decl),
                field: field.name,
                readable: D::readable_texts(),
                span: field.span,
            },
        ),
    }
}

/// Reads a field off a declaration.
pub(crate) fn declaration_field<D: ImportableDecl>(decl: &D, field: &Ident) -> (r: Result<
    String,
    ComposeError,
>)
    ensures
        outcome(r) == field_read::<D>(decl.deep_view(), field.deep_view()),
{
    match decl.read_field(field.name.as_str()) {
        Some(FieldValue::Held(value)) => Ok(value),
        Some(FieldValue::Unset) => Err(
            ComposeError::DeclarationFieldUnset {
                kind: D::kind(),
                decl: decl.decl_name().to_owned(),
                field: field.name.clone(),
                span: field.span,
            },
        ),
        Some(FieldValue::NotAValue(what)) => Err(
            ComposeError::DeclarationFieldNotAValue {
                kind: D::kind(),
                decl: decl.decl_name().to_owned(),
                field: field.name.clone(),
                what,
                span: field.span,
            },
        ),
        None => Err(
            ComposeError::UnknownDeclarationField {
                kind: D::kind(),
                decl: decl.decl_name().to_owned(),
                field: field.name.clone(),
                readable: D::readable_fields(),
                span: field.span,
            },
        ),
    }
}

/// The index of the first declaration called `name` at or after `i`, or
/// the number of declarations.
pub open spec fn decl_index<D: ImportableDecl>(decls: Seq<D::V>, name: Seq<char>, i: int) -> int
    decreases decls.len() - i,
{
    if i >= decls.len() {
        decls.len() as int
    } else if D::name_of(decls[i]) == name {
        i
    } else {
        decl_index::<D>(decls, name, i + 1)
    }
}

/// The first declaration called `name`, if there is one.
pub open spec fn declared<D: ImportableDecl>(decls: Seq<D::V>, name: Seq<char>) -> Option<D::V> {
    let i = decl_index::<D>(decls, name, 0);
    if i < decls.len() {
        Some(decls[i])
    } else {
        None
    }
}

/// Finds the first declaration called `name`.
pub(crate) fn find_decl<'a, D: ImportableDecl>(decls: &'a Vec<D>, name: &str) -> (r: Option<&'a D>)
    ensures
        r.deep_view() == declared::<D>(decls.deep_view(), name@),
{
    let ghost all = decls.deep_view();
    let mut i: usize = 0;
    while i < decls.len()
        invariant
            i <= decls@.len(),
            all == decls.deep_view(),
            decl_index::<D>(all, name@, 0) == decl_index::<D>(all, name@, i as int),
        decreases decls@.len() - i,
    {
        assert(all[i as int] == decls@[i as int].deep_view());
        if same_text(decls[i].decl_name(), name) {
            return Some(&decls[i]);
        }
        i = i + 1;
    }
    None
}

/// The program's own top-level declarations, as a bare name sees them.
pub struct Declarations<'a> {
    pub networks: &'a Vec<Network>,
    pub volumes: &'a Vec<Volume>,
    pub services: &'a Vec<String>,
}

/// The view of [`Declarations`].
#[verifier::ext_equal]
pub struct DeclarationsV {
    pub networks: Seq<NetworkV>,
    pub volumes: Seq<VolumeV>,
    pub services: Seq<Seq<char>>,
}

impl<'a> DeepView for Declarations<'a> {
    type V = DeclarationsV;

    open spec fn deep_view(&self) -> DeclarationsV {
        DeclarationsV {
            networks: self.networks.deep_view(),
            volumes: self.volumes.deep_view(),
            services: self.services.deep_view(),
        }
    }
}

impl DeclarationsV {
    /// Whether the program declares anything called `name`.
    pub open spec fn declares(self, name: Seq<char>) -> bool {
        declared::<Network>(self.networks, name) is Some || declared::<Volume>(
            self.volumes,
            name,
        ) is Some || self.services.contains(name)
    }
}

impl<'a> Declarations<'a> {
    /// Whether a service is called `name`.
    pub(crate) fn is_service(&self, name: &str) -> (r: bool)
        ensures
            r == self.deep_view().services.contains(name@),
    {
        let ghost all = self.services.deep_view();
        let mut i: usize = 0;
        while i < self.services.len()
            invariant
                i <= self.services@.len(),
                all == self.services.deep_view(),
                forall|k: int| 0 <= k < i ==> all[k] != name@,
            decreases self.services@.len() - i,
        {
            assert(all[i as int] == self.services@[i as int]@);
            if same_text(self.services[i].as_str(), name) {
                return true;
            }
            i = i + 1;
        }
        false
    }

    /// Whether the program declares anything called `name`.
    pub(crate) fn declares(&self, name: &str) -> (r: bool)
        ensures
            r == self.deep_view().declares(name@),
    {
        find_decl(self.networks, name).is_some() || find_decl(self.volumes, name).is_some()
            || self.is_service(name)
    }
}

/// Everything a name is resolved against.
pub struct Symbols<'a, R: SymbolResolver> {
    pub resolver: &'a R,
    pub decls: Declarations<'a>,
}

/// The first template called `name` at or after `i`.
pub open spec fn template_from(templates: Seq<TemplateDeclV>, name: Seq<char>, i: int) -> Option<
    TemplateDeclV,
>
    decreases templates.len() - i,
{
    if i >= templates.len() {
        None
    } else if templates[i].name.name == name {
        Some(templates[i])
    } else {
        template_from(templates, name, i + 1)
    }
}

/// What a template name resolves to in a file that imports nothing.
pub open spec fn single_file_template(
    templates: Seq<TemplateDeclV>,
    qualifier: Option<IdentV>,
    name: Seq<char>,
    span: Span,
) -> Result<(usize, TemplateDeclV), ComposeErrorV> {
    match qualifier {
        Some(q) => Err(ComposeErrorV::UnknownAlias { alias: q.name, span: q.span }),
        None => match template_from(templates, name, 0) {
            Some(decl) => Ok((0usize, decl)),
            None => Err(ComposeErrorV::UnknownTemplate { name, span }),
        },
    }
}

/// What every name resolves to in a file that imports nothing: a template
/// by its name, and no alias at all.
pub open spec fn single_file_table(templates: Seq<TemplateDeclV>) -> SymbolTable<usize> {
    SymbolTable {
        templates: |scope: usize, qualifier: Option<IdentV>, name: Seq<char>, span: Span|
            single_file_template(templates, qualifier, name, span),
        networks: |scope: usize, qualifier: IdentV, name: Seq<char>, span: Span|
            Err(ComposeErrorV::UnknownAlias { alias: qualifier.name, span: qualifier.span }),
        volumes: |scope: usize, qualifier: IdentV, name: Seq<char>, span: Span|
            Err(ComposeErrorV::UnknownAlias { alias: qualifier.name, span: qualifier.span }),
    }
}

/// The symbols of a single file, which imports nothing: its templates by
/// name, and no alias at all. The one scope there is is written `0`.
pub struct SingleFileResolver {
    pub templates: Vec<TemplateDecl>,
}

impl SymbolResolver for SingleFileResolver {
    type Scope = usize;

    open spec fn table(&self) -> SymbolTable<usize> {
        single_file_table(self.templates.deep_view())
    }

    fn resolve_template(
        &self,
        scope: usize,
        qualifier: Option<&Ident>,
        name: &str,
        span: Span,
    ) -> (r: Result<(usize, &TemplateDecl), ComposeError>) {
        if let Some(q) = qualifier {
            return Err(ComposeError::UnknownAlias { alias: q.name.clone(), span: q.span });
        }
        let ghost all = self.templates.deep_view();
        let mut i: usize = 0;
        while i < self.templates.len()
            invariant
                i <= self.templates@.len(),
                qualifier is None,
                all == self.templates.deep_view(),
                template_from(all, name@, 0) == template_from(all, name@, i as int),
            decreases self.templates@.len() - i,
        {
            assert(all[i as int] == self.templates@[i as int].deep_view());
            if same_text(self.templates[i].name.name.as_str(), name) {
                return Ok((0, &self.templates[i]));
            }
            i = i + 1;
        }
        Err(ComposeError::UnknownTemplate { name: name.to_owned(), span })
    }

    fn resolve_qualified_network(
        &self,
        scope: usize,
        qualifier: &Ident,
        name: &str,
        span: Span,
    ) -> (r: Result<&Network, ComposeError>) {
        Err(ComposeError::UnknownAlias { alias: qualifier.name.clone(), span: qualifier.span })
    }

    fn resolve_qualified_volume(
        &self,
        scope: usize,
        qualifier: &Ident,
        name: &str,
        span: Span,
    ) -> (r: Result<&Volume, ComposeError>) {
        Err(ComposeError::UnknownAlias { alias: qualifier.name.clone(), span: qualifier.span })
    }
}

} // verus!
