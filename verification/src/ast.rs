//! The abstract syntax tree: what a parsed `.hll` file holds.
//!
//! Each type has a view, under the same name with a `V` behind it, in
//! which texts are sequences of characters and lists are sequences. The
//! contracts of the whole library speak of those views.

use vstd::prelude::*;
use vstd::string::*;

use crate::deep::{no_items, push_to, Duplicate, SameView};
use crate::interp::text_outcome;
use crate::source::Span;
use crate::text::{join_texts, same_text, texts_joined};

verus! {

/// A name as written: an identifier token and where it stands.
#[derive(Debug, PartialEq)]
pub struct Ident {
    pub name: String,
    pub span: Span,
}

/// The view of [`Ident`].
#[verifier::ext_equal]
pub struct IdentV {
    pub name: Seq<char>,
    pub span: Span,
}

impl DeepView for Ident {
    type V = IdentV;

    open spec fn deep_view(&self) -> IdentV {
        IdentV {
            name: self.name.deep_view(),
            span: self.span.deep_view(),
        }
    }
}

impl Duplicate for Ident {
    fn duplicate(&self) -> (r: Self) {
        Ident {
            name: self.name.duplicate(),
            span: self.span.duplicate(),
        }
    }
}

impl Clone for Ident {
    fn clone(&self) -> (r: Self)
        ensures
            r.deep_view() == self.deep_view(),
    {
        self.duplicate()
    }
}

impl SameView for Ident {
    fn same(&self, other: &Self) -> (r: bool) {
        self.name.same(&other.name)
            && self.span.same(&other.span)
    }
}

/// An `alias.name` reference to a declaration of an imported file.
#[derive(Debug, PartialEq)]
pub struct QualifiedRef {
    /// The alias the file was imported under.
    pub qualifier: Ident,
    /// The declaration named in it.
    pub name: String,
    pub name_span: Span,
    /// The whole `alias.name`.
    pub span: Span,
}

/// The view of [`QualifiedRef`].
#[verifier::ext_equal]
pub struct QualifiedRefV {
    pub qualifier: IdentV,
    pub name: Seq<char>,
    pub name_span: Span,
    pub span: Span,
}

impl DeepView for QualifiedRef {
    type V = QualifiedRefV;

    open spec fn deep_view(&self) -> QualifiedRefV {
        QualifiedRefV {
            qualifier: self.qualifier.deep_view(),
            name: self.name.deep_view(),
            name_span: self.name_span.deep_view(),
            span: self.span.deep_view(),
        }
    }
}

impl Duplicate for QualifiedRef {
    fn duplicate(&self) -> (r: Self) {
        QualifiedRef {
            qualifier: self.qualifier.duplicate(),
            name: self.name.duplicate(),
            name_span: self.name_span.duplicate(),
            span: self.span.duplicate(),
        }
    }
}

impl Clone for QualifiedRef {
    fn clone(&self) -> (r: Self)
        ensures
            r.deep_view() == self.deep_view(),
    {
        self.duplicate()
    }
}

impl SameView for QualifiedRef {
    fn same(&self, other: &Self) -> (r: bool) {
        self.qualifier.same(&other.qualifier)
            && self.name.same(&other.name)
            && self.name_span.same(&other.name_span)
            && self.span.same(&other.span)
    }
}

/// A single value, as written at one place.
#[derive(Debug, PartialEq)]
pub enum Literal {
    /// A quoted string, by its content.
    Str(String, Span),
    /// A number, by its digits and its value.
    Number { text: String, value: u64, span: Span },
    /// A bare identifier.
    Ident(String, Span),
    /// An `alias.name` reference.
    Qualified(Box<QualifiedRef>),
    /// A field read off a declaration, such as `proxy.name`.
    Field(Box<FieldAccess>),
    /// A `$param` of the enclosing template, by its name without the `$`.
    Param(String, Span),
}

/// A field read off a `network` or `volume` declaration.
#[derive(Debug, PartialEq)]
pub struct FieldAccess {
    /// What names the declaration.
    pub base: Literal,
    pub field: Ident,
    pub span: Span,
}

/// The view of [`Literal`].
#[verifier::ext_equal]
pub enum LiteralV {
    Str(Seq<char>, Span),
    Number { text: Seq<char>, value: u64, span: Span },
    Ident(Seq<char>, Span),
    Qualified(QualifiedRefV),
    Field(Box<FieldAccessV>),
    Param(Seq<char>, Span),
}

/// The view of [`FieldAccess`].
#[verifier::ext_equal]
pub struct FieldAccessV {
    pub base: LiteralV,
    pub field: IdentV,
    pub span: Span,
}

/// The view of a literal.
pub open spec fn literal_view(lit: Literal) -> LiteralV
    decreases lit,
{
    match lit {
        Literal::Str(text, span) => LiteralV::Str(text@, span),
        Literal::Number { text, value, span } => LiteralV::Number { text: text@, value, span },
        Literal::Ident(text, span) => LiteralV::Ident(text@, span),
        Literal::Qualified(q) => LiteralV::Qualified(q.deep_view()),
        Literal::Field(access) => LiteralV::Field(
            Box::new(
                FieldAccessV {
                    base: literal_view(access.base),
                    field: access.field.deep_view(),
                    span: access.span,
                },
            ),
        ),
        Literal::Param(name, span) => LiteralV::Param(name@, span),
    }
}

impl DeepView for Literal {
    type V = LiteralV;

    open spec fn deep_view(&self) -> LiteralV {
        literal_view(*self)
    }
}

impl DeepView for FieldAccess {
    type V = FieldAccessV;

    open spec fn deep_view(&self) -> FieldAccessV {
        FieldAccessV {
            base: self.base.deep_view(),
            field: self.field.deep_view(),
            span: self.span,
        }
    }
}

fn copy_literal(lit: &Literal) -> (r: Literal)
    ensures
        r.deep_view() == lit.deep_view(),
    decreases lit,
{
    match lit {
        Literal::Str(text, span) => Literal::Str(text.clone(), *span),
        Literal::Number { text, value, span } => Literal::Number {
            text: text.clone(),
            value: *value,
            span: *span,
        },
        Literal::Ident(text, span) => Literal::Ident(text.clone(), *span),
        Literal::Qualified(q) => Literal::Qualified(Box::new((**q).duplicate())),
        Literal::Field(access) => Literal::Field(
            Box::new(
                FieldAccess {
                    base: copy_literal(&access.base),
                    field: access.field.duplicate(),
                    span: access.span,
                },
            ),
        ),
        Literal::Param(name, span) => Literal::Param(name.clone(), *span),
    }
}

impl Duplicate for Literal {
    fn duplicate(&self) -> (r: Self) {
        copy_literal(self)
    }
}

impl Clone for Literal {
    fn clone(&self) -> (r: Self)
        ensures
            r.deep_view() == self.deep_view(),
    {
        self.duplicate()
    }
}

impl Duplicate for FieldAccess {
    fn duplicate(&self) -> (r: Self) {
        FieldAccess {
            base: self.base.duplicate(),
            field: self.field.duplicate(),
            span: self.span,
        }
    }
}

impl Clone for FieldAccess {
    fn clone(&self) -> (r: Self)
        ensures
            r.deep_view() == self.deep_view(),
    {
        self.duplicate()
    }
}

fn same_literal(a: &Literal, b: &Literal) -> (r: bool)
    ensures
        r == (a.deep_view() == b.deep_view()),
    decreases a,
{
    match (a, b) {
        (Literal::Str(x, s), Literal::Str(y, t)) => x.same(y) && s.same(t),
        (
            Literal::Number { text: x, value: m, span: s },
            Literal::Number { text: y, value: n, span: t },
        ) => x.same(y) && *m == *n && s.same(t),
        (Literal::Ident(x, s), Literal::Ident(y, t)) => x.same(y) && s.same(t),
        (Literal::Qualified(x), Literal::Qualified(y)) => (**x).same(&**y),
        (Literal::Field(x), Literal::Field(y)) => same_literal(&x.base, &y.base) && x.field.same(
            &y.field,
        ) && x.span.same(&y.span),
        (Literal::Param(x, s), Literal::Param(y, t)) => x.same(y) && s.same(t),
        _ => false,
    }
}

impl SameView for Literal {
    fn same(&self, other: &Self) -> (r: bool) {
        same_literal(self, other)
    }
}

impl LiteralV {
    /// The text a literal stands for: a string's content, a number's
    /// digits, and for anything else the name it ends in.
    pub open spec fn text(self) -> Seq<char> {
        match self {
            LiteralV::Str(text, _) => text,
            LiteralV::Number { text, .. } => text,
            LiteralV::Ident(text, _) => text,
            LiteralV::Qualified(q) => q.name,
            LiteralV::Field(access) => access.field.name,
            LiteralV::Param(name, _) => name,
        }
    }

    /// Where a literal stands.
    pub open spec fn span(self) -> Span {
        match self {
            LiteralV::Str(_, span) => span,
            LiteralV::Number { span, .. } => span,
            LiteralV::Ident(_, span) => span,
            LiteralV::Qualified(q) => q.span,
            LiteralV::Field(access) => access.span,
            LiteralV::Param(_, span) => span,
        }
    }

    /// The alias a literal is qualified by, if it is.
    pub open spec fn qualifier(self) -> Option<IdentV> {
        match self {
            LiteralV::Qualified(q) => Some(q.qualifier),
            _ => None,
        }
    }
}

impl Literal {
    /// The text this literal stands for.
    pub fn text(&self) -> (r: &str)
        ensures
            r@ == self.deep_view().text(),
    {
        match self {
            Literal::Str(text, _) => text.as_str(),
            Literal::Number { text, .. } => text.as_str(),
            Literal::Ident(text, _) => text.as_str(),
            Literal::Qualified(q) => q.name.as_str(),
            Literal::Field(access) => access.field.name.as_str(),
            Literal::Param(name, _) => name.as_str(),
        }
    }

    /// Where this literal stands.
    pub fn span(&self) -> (r: Span)
        ensures
            r == self.deep_view().span(),
    {
        match self {
            Literal::Str(_, span) => *span,
            Literal::Number { span, .. } => *span,
            Literal::Ident(_, span) => *span,
            Literal::Qualified(q) => q.span,
            Literal::Field(access) => access.span,
            Literal::Param(_, span) => *span,
        }
    }

    /// The alias this literal is qualified by, if it is.
    pub fn qualifier(&self) -> (r: Option<&Ident>)
        ensures
            r.deep_view() == self.deep_view().qualifier(),
    {
        match self {
            Literal::Qualified(q) => Some(&q.qualifier),
            _ => None,
        }
    }
}

impl FieldAccessV {
    /// The access as written: its segments joined by dots, a parameter
    /// with its `$`.
    pub open spec fn dotted(self) -> Seq<char> {
        match self.base {
            LiteralV::Qualified(q) => q.qualifier.name + "."@ + q.name + "."@ + self.field.name,
            LiteralV::Param(name, _) => "$"@ + name + "."@ + self.field.name,
            base => base.text() + "."@ + self.field.name,
        }
    }
}

impl FieldAccess {
    /// The access as written.
    pub fn dotted(&self) -> (r: String)
        ensures
            r@ == self.deep_view().dotted(),
    {
        match &self.base {
            Literal::Qualified(q) => {
                let mut out = q.qualifier.name.clone();
                out.append(".");
                out.append(q.name.as_str());
                out.append(".");
                out.append(self.field.name.as_str());
                out
            },
            Literal::Param(name, _) => {
                let mut out = "$".to_owned();
                out.append(name.as_str());
                out.append(".");
                out.append(self.field.name.as_str());
                out
            },
            base => {
                let mut out = base.text().to_owned();
                out.append(".");
                out.append(self.field.name.as_str());
                out
            },
        }
    }
}

/// One declared parameter of a template.
#[derive(Debug, PartialEq)]
pub struct Param {
    pub name: Ident,
}

/// The view of [`Param`].
#[verifier::ext_equal]
pub struct ParamV {
    pub name: IdentV,
}

impl DeepView for Param {
    type V = ParamV;

    open spec fn deep_view(&self) -> ParamV {
        ParamV {
            name: self.name.deep_view(),
        }
    }
}

impl Duplicate for Param {
    fn duplicate(&self) -> (r: Self) {
        Param {
            name: self.name.duplicate(),
        }
    }
}

impl Clone for Param {
    fn clone(&self) -> (r: Self)
        ensures
            r.deep_view() == self.deep_view(),
    {
        self.duplicate()
    }
}

/// What a dependency has to have reached before a service starts.
#[derive(Debug, Clone, Copy, PartialEq, Eq, Structural)]
pub enum DependsOnCondition {
    ServiceStarted,
    ServiceHealthy,
    ServiceCompletedSuccessfully,
}

impl DeepView for DependsOnCondition {
    type V = DependsOnCondition;

    open spec fn deep_view(&self) -> DependsOnCondition {
        *self
    }
}

impl Duplicate for DependsOnCondition {
    fn duplicate(&self) -> (r: Self) {
        *self
    }
}

/// How a condition is written, in an `.hll` file and in Compose alike.
pub open spec fn condition_text(condition: DependsOnCondition) -> Seq<char> {
    match condition {
        DependsOnCondition::ServiceStarted => "service_started"@,
        DependsOnCondition::ServiceHealthy => "service_healthy"@,
        DependsOnCondition::ServiceCompletedSuccessfully => "service_completed_successfully"@,
    }
}

/// The condition a text names, if it names one.
pub open spec fn condition_named(text: Seq<char>) -> Option<DependsOnCondition> {
    if text == "service_started"@ {
        Some(DependsOnCondition::ServiceStarted)
    } else if text == "service_healthy"@ {
        Some(DependsOnCondition::ServiceHealthy)
    } else if text == "service_completed_successfully"@ {
        Some(DependsOnCondition::ServiceCompletedSuccessfully)
    } else {
        None
    }
}

impl DependsOnCondition {
    /// The condition `text` names, if it names one.
    pub fn parse(text: &str) -> (r: Option<Self>)
        ensures
            r == condition_named(text@),
    {
        if same_text(text, "service_started") {
            Some(DependsOnCondition::ServiceStarted)
        } else if same_text(text, "service_healthy") {
            Some(DependsOnCondition::ServiceHealthy)
        } else if same_text(text, "service_completed_successfully") {
            Some(DependsOnCondition::ServiceCompletedSuccessfully)
        } else {
            None
        }
    }

    /// How Compose writes this condition.
    pub fn compose_value(self) -> (r: &'static str)
        ensures
            r@ == condition_text(self),
    {
        match self {
            DependsOnCondition::ServiceStarted => "service_started",
            DependsOnCondition::ServiceHealthy => "service_healthy",
            DependsOnCondition::ServiceCompletedSuccessfully => "service_completed_successfully",
        }
    }
}

/// Each condition is the one its own text names, and no other text names
/// it.
pub proof fn law_conditions_round_trip(condition: DependsOnCondition, text: Seq<char>)
    ensures
        condition_named(condition_text(condition)) == Some(condition),
        condition_named(text) == Some(condition) ==> text == condition_text(condition),
{
    reveal_strlit("service_started");
    reveal_strlit("service_healthy");
    reveal_strlit("service_completed_successfully");
    assert("service_started"@.len() == 15);
    assert("service_healthy"@.len() == 15);
    assert("service_started"@[8] == 's');
    assert("service_healthy"@[8] == 'h');
    assert("service_completed_successfully"@.len() == 30);
}

/// The three conditions by their names; any other text names none.
pub proof fn law_conditions_are_named(text: Seq<char>)
    ensures
        condition_named(text) == Some(DependsOnCondition::ServiceStarted) <==> text
            == "service_started"@,
        condition_named(text) == Some(DependsOnCondition::ServiceHealthy) <==> text
            == "service_healthy"@,
        condition_named(text) == Some(DependsOnCondition::ServiceCompletedSuccessfully) <==> text
            == "service_completed_successfully"@,
{
    law_conditions_round_trip(DependsOnCondition::ServiceStarted, text);
    law_conditions_round_trip(DependsOnCondition::ServiceHealthy, text);
    law_conditions_round_trip(DependsOnCondition::ServiceCompletedSuccessfully, text);
}

/// One service a service depends on, and the condition it waits for.
#[derive(Debug, PartialEq)]
pub struct DependsOnEntry {
    pub reference: Literal,
    /// The condition, if one was written, and where.
    pub condition: Option<(DependsOnCondition, Span)>,
    pub span: Span,
}

/// The view of [`DependsOnEntry`].
#[verifier::ext_equal]
pub struct DependsOnEntryV {
    pub reference: LiteralV,
    pub condition: Option<(DependsOnCondition, Span)>,
    pub span: Span,
}

impl DeepView for DependsOnEntry {
    type V = DependsOnEntryV;

    open spec fn deep_view(&self) -> DependsOnEntryV {
        DependsOnEntryV {
            reference: self.reference.deep_view(),
            condition: self.condition.deep_view(),
            span: self.span.deep_view(),
        }
    }
}

impl Duplicate for DependsOnEntry {
    fn duplicate(&self) -> (r: Self) {
        DependsOnEntry {
            reference: self.reference.duplicate(),
            condition: self.condition.duplicate(),
            span: self.span.duplicate(),
        }
    }
}

impl Clone for DependsOnEntry {
    fn clone(&self) -> (r: Self)
        ensures
            r.deep_view() == self.deep_view(),
    {
        self.duplicate()
    }
}

impl DependsOnEntryV {
    /// The condition that holds for this entry: the one written, or
    /// Compose's default, `service_started`.
    pub open spec fn effective_condition(self) -> DependsOnCondition {
        match self.condition {
            Some((condition, _)) => condition,
            None => DependsOnCondition::ServiceStarted,
        }
    }
}

/// A dependency without a condition waits for the service to have started;
/// any other for what its condition says.
pub proof fn law_dependencies_wait_for_a_start(entry: DependsOnEntryV)
    ensures
        entry.condition is None ==> condition_text(entry.effective_condition())
            == "service_started"@,
        entry.condition matches Some((condition, _)) ==> entry.effective_condition() == condition,
{
}

impl DependsOnEntry {
    /// The condition that holds for this entry.
    pub fn effective_condition(&self) -> (r: DependsOnCondition)
        ensures
            r == self.deep_view().effective_condition(),
    {
        match &self.condition {
            Some((condition, _)) => *condition,
            None => DependsOnCondition::ServiceStarted,
        }
    }
}

/// A top-level `network` declaration.
#[derive(Debug, PartialEq)]
pub struct Network {
    pub name: Ident,
    /// Where `external` was written, if it was.
    pub external: Option<Span>,
    /// The `name` override: what Docker calls the network.
    pub real_name: Option<Literal>,
    pub span: Span,
}

/// The view of [`Network`].
#[verifier::ext_equal]
pub struct NetworkV {
    pub name: IdentV,
    pub external: Option<Span>,
    pub real_name: Option<LiteralV>,
    pub span: Span,
}

impl DeepView for Network {
    type V = NetworkV;

    open spec fn deep_view(&self) -> NetworkV {
        NetworkV {
            name: self.name.deep_view(),
            external: self.external.deep_view(),
            real_name: self.real_name.deep_view(),
            span: self.span.deep_view(),
        }
    }
}

impl Duplicate for Network {
    fn duplicate(&self) -> (r: Self) {
        Network {
            name: self.name.duplicate(),
            external: self.external.duplicate(),
            real_name: self.real_name.duplicate(),
            span: self.span.duplicate(),
        }
    }
}

impl Clone for Network {
    fn clone(&self) -> (r: Self)
        ensures
            r.deep_view() == self.deep_view(),
    {
        self.duplicate()
    }
}

impl SameView for Network {
    fn same(&self, other: &Self) -> (r: bool) {
        self.name.same(&other.name)
            && self.external.same(&other.external)
            && self.real_name.same(&other.real_name)
            && self.span.same(&other.span)
    }
}

impl NetworkV {
    /// What Docker calls it: the `name` override, or else its own name.
    pub open spec fn docker_name(self) -> Seq<char> {
        match self.real_name {
            Some(lit) => lit.text(),
            None => self.name.name,
        }
    }
}

impl Network {
    /// What Docker calls it.
    pub fn docker_name(&self) -> (r: &str)
        ensures
            r@ == self.deep_view().docker_name(),
    {
        match &self.real_name {
            Some(lit) => lit.text(),
            None => self.name.name.as_str(),
        }
    }
}

/// One option handed to a volume driver.
#[derive(Debug, PartialEq)]
pub struct VolumeDriverOpt {
    pub key: Literal,
    pub value: Literal,
    pub span: Span,
}

/// The view of [`VolumeDriverOpt`].
#[verifier::ext_equal]
pub struct VolumeDriverOptV {
    pub key: LiteralV,
    pub value: LiteralV,
    pub span: Span,
}

impl DeepView for VolumeDriverOpt {
    type V = VolumeDriverOptV;

    open spec fn deep_view(&self) -> VolumeDriverOptV {
        VolumeDriverOptV {
            key: self.key.deep_view(),
            value: self.value.deep_view(),
            span: self.span.deep_view(),
        }
    }
}

impl Duplicate for VolumeDriverOpt {
    fn duplicate(&self) -> (r: Self) {
        VolumeDriverOpt {
            key: self.key.duplicate(),
            value: self.value.duplicate(),
            span: self.span.duplicate(),
        }
    }
}

impl Clone for VolumeDriverOpt {
    fn clone(&self) -> (r: Self)
        ensures
            r.deep_view() == self.deep_view(),
    {
        self.duplicate()
    }
}

impl SameView for VolumeDriverOpt {
    fn same(&self, other: &Self) -> (r: bool) {
        self.key.same(&other.key)
            && self.value.same(&other.value)
            && self.span.same(&other.span)
    }
}

/// A top-level `volume` declaration.
#[derive(Debug, PartialEq)]
pub struct Volume {
    pub name: Ident,
    /// Where `external` was written, if it was.
    pub external: Option<Span>,
    /// The `name` override: what Docker calls the volume.
    pub real_name: Option<Literal>,
    pub driver: Option<Literal>,
    pub driver_opts: Vec<VolumeDriverOpt>,
    pub span: Span,
}

/// The view of [`Volume`].
#[verifier::ext_equal]
pub struct VolumeV {
    pub name: IdentV,
    pub external: Option<Span>,
    pub real_name: Option<LiteralV>,
    pub driver: Option<LiteralV>,
    pub driver_opts: Seq<VolumeDriverOptV>,
    pub span: Span,
}

impl DeepView for Volume {
    type V = VolumeV;

    open spec fn deep_view(&self) -> VolumeV {
        VolumeV {
            name: self.name.deep_view(),
            external: self.external.deep_view(),
            real_name: self.real_name.deep_view(),
            driver: self.driver.deep_view(),
            driver_opts: self.driver_opts.deep_view(),
            span: self.span.deep_view(),
        }
    }
}

impl Duplicate for Volume {
    fn duplicate(&self) -> (r: Self) {
        Volume {
            name: self.name.duplicate(),
            external: self.external.duplicate(),
            real_name: self.real_name.duplicate(),
            driver: self.driver.duplicate(),
            driver_opts: self.driver_opts.duplicate(),
            span: self.span.duplicate(),
        }
    }
}

impl Clone for Volume {
    fn clone(&self) -> (r: Self)
        ensures
            r.deep_view() == self.deep_view(),
    {
        self.duplicate()
    }
}

impl SameView for Volume {
    fn same(&self, other: &Self) -> (r: bool) {
        self.name.same(&other.name)
            && self.external.same(&other.external)
            && self.real_name.same(&other.real_name)
            && self.driver.same(&other.driver)
            && self.driver_opts.same(&other.driver_opts)
            && self.span.same(&other.span)
    }
}

impl VolumeV {
    /// What Docker calls it: the `name` override, or else its own name.
    pub open spec fn docker_name(self) -> Seq<char> {
        match self.real_name {
            Some(lit) => lit.text(),
            None => self.name.name,
        }
    }
}

impl Volume {
    /// What Docker calls it.
    pub fn docker_name(&self) -> (r: &str)
        ensures
            r@ == self.deep_view().docker_name(),
    {
        match &self.real_name {
            Some(lit) => lit.text(),
            None => self.name.name.as_str(),
        }
    }
}

/// A service's `image`.
#[derive(Debug, PartialEq)]
pub struct Image {
    pub reference: Option<Literal>,
    pub span: Span,
}

/// The view of [`Image`].
#[verifier::ext_equal]
pub struct ImageV {
    pub reference: Option<LiteralV>,
    pub span: Span,
}

impl DeepView for Image {
    type V = ImageV;

    open spec fn deep_view(&self) -> ImageV {
        ImageV {
            reference: self.reference.deep_view(),
            span: self.span.deep_view(),
        }
    }
}

impl Duplicate for Image {
    fn duplicate(&self) -> (r: Self) {
        Image {
            reference: self.reference.duplicate(),
            span: self.span.duplicate(),
        }
    }
}

impl Clone for Image {
    fn clone(&self) -> (r: Self)
        ensures
            r.deep_view() == self.deep_view(),
    {
        self.duplicate()
    }
}

/// A service's `build` context.
#[derive(Debug, PartialEq)]
pub struct Build {
    pub context: Option<Literal>,
    pub dockerfile: Option<Literal>,
    pub span: Span,
}

/// The view of [`Build`].
#[verifier::ext_equal]
pub struct BuildV {
    pub context: Option<LiteralV>,
    pub dockerfile: Option<LiteralV>,
    pub span: Span,
}

impl DeepView for Build {
    type V = BuildV;

    open spec fn deep_view(&self) -> BuildV {
        BuildV {
            context: self.context.deep_view(),
            dockerfile: self.dockerfile.deep_view(),
            span: self.span.deep_view(),
        }
    }
}

impl Duplicate for Build {
    fn duplicate(&self) -> (r: Self) {
        Build {
            context: self.context.duplicate(),
            dockerfile: self.dockerfile.duplicate(),
            span: self.span.duplicate(),
        }
    }
}

impl Clone for Build {
    fn clone(&self) -> (r: Self)
        ensures
            r.deep_view() == self.deep_view(),
    {
        self.duplicate()
    }
}

/// A port a service exposes to other containers.
#[derive(Debug, PartialEq)]
pub struct Expose {
    pub port: Option<Literal>,
    pub span: Span,
}

/// The view of [`Expose`].
#[verifier::ext_equal]
pub struct ExposeV {
    pub port: Option<LiteralV>,
    pub span: Span,
}

impl DeepView for Expose {
    type V = ExposeV;

    open spec fn deep_view(&self) -> ExposeV {
        ExposeV {
            port: self.port.deep_view(),
            span: self.span.deep_view(),
        }
    }
}

impl Duplicate for Expose {
    fn duplicate(&self) -> (r: Self) {
        Expose {
            port: self.port.duplicate(),
            span: self.span.duplicate(),
        }
    }
}

impl Clone for Expose {
    fn clone(&self) -> (r: Self)
        ensures
            r.deep_view() == self.deep_view(),
    {
        self.duplicate()
    }
}

/// A service's `restart` policy.
#[derive(Debug, PartialEq)]
pub struct Restart {
    pub policy: Option<Literal>,
    pub span: Span,
}

/// The view of [`Restart`].
#[verifier::ext_equal]
pub struct RestartV {
    pub policy: Option<LiteralV>,
    pub span: Span,
}

impl DeepView for Restart {
    type V = RestartV;

    open spec fn deep_view(&self) -> RestartV {
        RestartV {
            policy: self.policy.deep_view(),
            span: self.span.deep_view(),
        }
    }
}

impl Duplicate for Restart {
    fn duplicate(&self) -> (r: Self) {
        Restart {
            policy: self.policy.duplicate(),
            span: self.span.duplicate(),
        }
    }
}

impl Clone for Restart {
    fn clone(&self) -> (r: Self)
        ensures
            r.deep_view() == self.deep_view(),
    {
        self.duplicate()
    }
}

/// The command of a health check: one shell line, or a list of words.
#[derive(Debug, PartialEq)]
pub enum HealthcheckTest {
    Shell(Literal),
    Exec(Vec<Literal>, Span),
}

impl DeepView for HealthcheckTest {
    type V = ShellOrExecV;

    open spec fn deep_view(&self) -> ShellOrExecV {
        match self {
            HealthcheckTest::Shell(lit) => ShellOrExecV::Shell(lit.deep_view()),
            HealthcheckTest::Exec(items, span) => ShellOrExecV::Exec(items.deep_view(), *span),
        }
    }
}

impl Duplicate for HealthcheckTest {
    fn duplicate(&self) -> (r: Self) {
        match self {
            HealthcheckTest::Shell(lit) => HealthcheckTest::Shell(lit.duplicate()),
            HealthcheckTest::Exec(items, span) => HealthcheckTest::Exec(items.duplicate(), *span),
        }
    }
}

impl Clone for HealthcheckTest {
    fn clone(&self) -> (r: Self)
        ensures
            r.deep_view() == self.deep_view(),
    {
        self.duplicate()
    }
}

impl HealthcheckTest {
    /// Where it stands.
    pub fn span(&self) -> (r: Span)
        ensures
            r == self.deep_view().span(),
    {
        match self {
            HealthcheckTest::Shell(lit) => lit.span(),
            HealthcheckTest::Exec(_, span) => *span,
        }
    }
}

/// What a service runs: one shell line, or a list of words.
#[derive(Debug, PartialEq)]
pub enum Command {
    Shell(Literal),
    Exec(Vec<Literal>, Span),
}

impl DeepView for Command {
    type V = ShellOrExecV;

    open spec fn deep_view(&self) -> ShellOrExecV {
        match self {
            Command::Shell(lit) => ShellOrExecV::Shell(lit.deep_view()),
            Command::Exec(items, span) => ShellOrExecV::Exec(items.deep_view(), *span),
        }
    }
}

impl Duplicate for Command {
    fn duplicate(&self) -> (r: Self) {
        match self {
            Command::Shell(lit) => Command::Shell(lit.duplicate()),
            Command::Exec(items, span) => Command::Exec(items.duplicate(), *span),
        }
    }
}

impl Clone for Command {
    fn clone(&self) -> (r: Self)
        ensures
            r.deep_view() == self.deep_view(),
    {
        self.duplicate()
    }
}

impl Command {
    /// Where it stands.
    pub fn span(&self) -> (r: Span)
        ensures
            r == self.deep_view().span(),
    {
        match self {
            Command::Shell(lit) => lit.span(),
            Command::Exec(_, span) => *span,
        }
    }
}

/// What a service starts with: one shell line, or a list of words.
#[derive(Debug, PartialEq)]
pub enum Entrypoint {
    Shell(Literal),
    Exec(Vec<Literal>, Span),
}

impl DeepView for Entrypoint {
    type V = ShellOrExecV;

    open spec fn deep_view(&self) -> ShellOrExecV {
        match self {
            Entrypoint::Shell(lit) => ShellOrExecV::Shell(lit.deep_view()),
            Entrypoint::Exec(items, span) => ShellOrExecV::Exec(items.deep_view(), *span),
        }
    }
}

impl Duplicate for Entrypoint {
    fn duplicate(&self) -> (r: Self) {
        match self {
            Entrypoint::Shell(lit) => Entrypoint::Shell(lit.duplicate()),
            Entrypoint::Exec(items, span) => Entrypoint::Exec(items.duplicate(), *span),
        }
    }
}

impl Clone for Entrypoint {
    fn clone(&self) -> (r: Self)
        ensures
            r.deep_view() == self.deep_view(),
    {
        self.duplicate()
    }
}

impl Entrypoint {
    /// Where it stands.
    pub fn span(&self) -> (r: Span)
        ensures
            r == self.deep_view().span(),
    {
        match self {
            Entrypoint::Shell(lit) => lit.span(),
            Entrypoint::Exec(_, span) => *span,
        }
    }
}

/// The view of a command: one shell line, or a list of words with the
/// place of its brackets.
#[verifier::ext_equal]
pub enum ShellOrExecV {
    Shell(LiteralV),
    Exec(Seq<LiteralV>, Span),
}

impl ShellOrExecV {
    /// Where a command stands.
    pub open spec fn span(self) -> Span {
        match self {
            ShellOrExecV::Shell(lit) => lit.span(),
            ShellOrExecV::Exec(_, span) => span,
        }
    }
}

/// A service's `healthcheck`.
#[derive(Debug, PartialEq)]
pub struct Healthcheck {
    pub test: Option<HealthcheckTest>,
    pub interval: Option<Literal>,
    pub timeout: Option<Literal>,
    pub retries: Option<Literal>,
    pub start_period: Option<Literal>,
    pub start_interval: Option<Literal>,
    /// Where `disable` was written, if it was.
    pub disable: Option<Span>,
    pub span: Span,
}

/// The view of [`Healthcheck`].
#[verifier::ext_equal]
pub struct HealthcheckV {
    pub test: Option<ShellOrExecV>,
    pub interval: Option<LiteralV>,
    pub timeout: Option<LiteralV>,
    pub retries: Option<LiteralV>,
    pub start_period: Option<LiteralV>,
    pub start_interval: Option<LiteralV>,
    pub disable: Option<Span>,
    pub span: Span,
}

impl DeepView for Healthcheck {
    type V = HealthcheckV;

    open spec fn deep_view(&self) -> HealthcheckV {
        HealthcheckV {
            test: self.test.deep_view(),
            interval: self.interval.deep_view(),
            timeout: self.timeout.deep_view(),
            retries: self.retries.deep_view(),
            start_period: self.start_period.deep_view(),
            start_interval: self.start_interval.deep_view(),
            disable: self.disable.deep_view(),
            span: self.span.deep_view(),
        }
    }
}

impl Duplicate for Healthcheck {
    fn duplicate(&self) -> (r: Self) {
        Healthcheck {
            test: self.test.duplicate(),
            interval: self.interval.duplicate(),
            timeout: self.timeout.duplicate(),
            retries: self.retries.duplicate(),
            start_period: self.start_period.duplicate(),
            start_interval: self.start_interval.duplicate(),
            disable: self.disable.duplicate(),
            span: self.span.duplicate(),
        }
    }
}

impl Clone for Healthcheck {
    fn clone(&self) -> (r: Self)
        ensures
            r.deep_view() == self.deep_view(),
    {
        self.duplicate()
    }
}

/// The host side of a mount: a path written out, or a volume named.
#[derive(Debug, PartialEq)]
pub enum ArrowMapHost {
    BindMount(Literal),
    Named(Literal),
}

/// The view of [`ArrowMapHost`].
#[verifier::ext_equal]
pub enum ArrowMapHostV {
    BindMount(LiteralV),
    Named(LiteralV),
}

impl DeepView for ArrowMapHost {
    type V = ArrowMapHostV;

    open spec fn deep_view(&self) -> ArrowMapHostV {
        match self {
            ArrowMapHost::BindMount(lit) => ArrowMapHostV::BindMount(lit.deep_view()),
            ArrowMapHost::Named(lit) => ArrowMapHostV::Named(lit.deep_view()),
        }
    }
}

impl Duplicate for ArrowMapHost {
    fn duplicate(&self) -> (r: Self) {
        match self {
            ArrowMapHost::BindMount(lit) => ArrowMapHost::BindMount(lit.duplicate()),
            ArrowMapHost::Named(lit) => ArrowMapHost::Named(lit.duplicate()),
        }
    }
}

impl Clone for ArrowMapHost {
    fn clone(&self) -> (r: Self)
        ensures
            r.deep_view() == self.deep_view(),
    {
        self.duplicate()
    }
}

impl ArrowMapHostV {
    /// The literal a host side holds, of either kind.
    pub open spec fn literal(self) -> LiteralV {
        match self {
            ArrowMapHostV::BindMount(lit) => lit,
            ArrowMapHostV::Named(lit) => lit,
        }
    }
}

impl ArrowMapHost {
    /// Where the host side stands.
    pub fn span(&self) -> (r: Span)
        ensures
            r == self.deep_view().literal().span(),
    {
        match self {
            ArrowMapHost::BindMount(lit) => lit.span(),
            ArrowMapHost::Named(lit) => lit.span(),
        }
    }

    /// The text of the host side.
    pub fn text(&self) -> (r: &str)
        ensures
            r@ == self.deep_view().literal().text(),
    {
        match self {
            ArrowMapHost::BindMount(lit) => lit.text(),
            ArrowMapHost::Named(lit) => lit.text(),
        }
    }
}

/// One `host -> container` entry of `volume`, `publish` or `devices`.
#[derive(Debug, PartialEq)]
pub struct ArrowMapEntry {
    pub host: ArrowMapHost,
    pub container: Literal,
    pub read_only: bool,
    pub span: Span,
}

/// The view of [`ArrowMapEntry`].
#[verifier::ext_equal]
pub struct ArrowMapEntryV {
    pub host: ArrowMapHostV,
    pub container: LiteralV,
    pub read_only: bool,
    pub span: Span,
}

impl DeepView for ArrowMapEntry {
    type V = ArrowMapEntryV;

    open spec fn deep_view(&self) -> ArrowMapEntryV {
        ArrowMapEntryV {
            host: self.host.deep_view(),
            container: self.container.deep_view(),
            read_only: self.read_only.deep_view(),
            span: self.span.deep_view(),
        }
    }
}

impl Duplicate for ArrowMapEntry {
    fn duplicate(&self) -> (r: Self) {
        ArrowMapEntry {
            host: self.host.duplicate(),
            container: self.container.duplicate(),
            read_only: self.read_only.duplicate(),
            span: self.span.duplicate(),
        }
    }
}

impl Clone for ArrowMapEntry {
    fn clone(&self) -> (r: Self)
        ensures
            r.deep_view() == self.deep_view(),
    {
        self.duplicate()
    }
}

/// The entries of a `volume`, `publish` or `devices` field.
#[derive(Debug, PartialEq)]
pub struct ArrowMap {
    pub entries: Vec<ArrowMapEntry>,
}

/// The view of [`ArrowMap`].
#[verifier::ext_equal]
pub struct ArrowMapV {
    pub entries: Seq<ArrowMapEntryV>,
}

impl DeepView for ArrowMap {
    type V = ArrowMapV;

    open spec fn deep_view(&self) -> ArrowMapV {
        ArrowMapV {
            entries: self.entries.deep_view(),
        }
    }
}

impl Duplicate for ArrowMap {
    fn duplicate(&self) -> (r: Self) {
        ArrowMap {
            entries: self.entries.duplicate(),
        }
    }
}

impl Clone for ArrowMap {
    fn clone(&self) -> (r: Self)
        ensures
            r.deep_view() == self.deep_view(),
    {
        self.duplicate()
    }
}

/// One environment variable.
#[derive(Debug, PartialEq)]
pub struct EnvEntry {
    pub key: Literal,
    pub value: Literal,
    pub span: Span,
}

/// The view of [`EnvEntry`].
#[verifier::ext_equal]
pub struct EnvEntryV {
    pub key: LiteralV,
    pub value: LiteralV,
    pub span: Span,
}

impl DeepView for EnvEntry {
    type V = EnvEntryV;

    open spec fn deep_view(&self) -> EnvEntryV {
        EnvEntryV {
            key: self.key.deep_view(),
            value: self.value.deep_view(),
            span: self.span.deep_view(),
        }
    }
}

impl Duplicate for EnvEntry {
    fn duplicate(&self) -> (r: Self) {
        EnvEntry {
            key: self.key.duplicate(),
            value: self.value.duplicate(),
            span: self.span.duplicate(),
        }
    }
}

impl Clone for EnvEntry {
    fn clone(&self) -> (r: Self)
        ensures
            r.deep_view() == self.deep_view(),
    {
        self.duplicate()
    }
}

/// The environment of a service.
#[derive(Debug, PartialEq)]
pub struct EnvMap {
    pub entries: Vec<EnvEntry>,
}

/// The view of [`EnvMap`].
#[verifier::ext_equal]
pub struct EnvMapV {
    pub entries: Seq<EnvEntryV>,
}

impl DeepView for EnvMap {
    type V = EnvMapV;

    open spec fn deep_view(&self) -> EnvMapV {
        EnvMapV {
            entries: self.entries.deep_view(),
        }
    }
}

impl Duplicate for EnvMap {
    fn duplicate(&self) -> (r: Self) {
        EnvMap {
            entries: self.entries.duplicate(),
        }
    }
}

impl Clone for EnvMap {
    fn clone(&self) -> (r: Self)
        ensures
            r.deep_view() == self.deep_view(),
    {
        self.duplicate()
    }
}

/// The value of a label: a single one, or a list that is joined by
/// commas.
#[derive(Debug, PartialEq)]
pub enum LabelValue {
    Scalar(Literal),
    List(Vec<Literal>, Span),
}

/// The view of [`LabelValue`].
#[verifier::ext_equal]
pub enum LabelValueV {
    Scalar(LiteralV),
    List(Seq<LiteralV>, Span),
}

impl DeepView for LabelValue {
    type V = LabelValueV;

    open spec fn deep_view(&self) -> LabelValueV {
        match self {
            LabelValue::Scalar(lit) => LabelValueV::Scalar(lit.deep_view()),
            LabelValue::List(items, span) => LabelValueV::List(items.deep_view(), *span),
        }
    }
}

impl Duplicate for LabelValue {
    fn duplicate(&self) -> (r: Self) {
        match self {
            LabelValue::Scalar(lit) => LabelValue::Scalar(lit.duplicate()),
            LabelValue::List(items, span) => LabelValue::List(items.duplicate(), *span),
        }
    }
}

impl Clone for LabelValue {
    fn clone(&self) -> (r: Self)
        ensures
            r.deep_view() == self.deep_view(),
    {
        self.duplicate()
    }
}

impl LabelValueV {
    /// Where a label value stands.
    pub open spec fn span(self) -> Span {
        match self {
            LabelValueV::Scalar(lit) => lit.span(),
            LabelValueV::List(_, span) => span,
        }
    }

    /// The literals a label value holds, in order.
    pub open spec fn literals(self) -> Seq<LiteralV> {
        match self {
            LabelValueV::Scalar(lit) => seq![lit],
            LabelValueV::List(items, _) => items,
        }
    }

    /// A label value with every literal rendered, joined by commas, or
    /// the first error.
    pub open spec fn joined<E>(self, renders: spec_fn(LiteralV) -> Result<Seq<char>, E>) -> Result<
        Seq<char>,
        E,
    > {
        match rendered_from(self.literals(), 0, renders, Seq::empty()) {
            Ok(parts) => Ok(texts_joined(parts, ","@)),
            Err(error) => Err(error),
        }
    }

    /// The texts of a label value's literals, joined by commas.
    pub open spec fn text(self) -> Seq<char> {
        texts_joined(self.literals().map_values(|lit: LiteralV| lit.text()), ","@)
    }

    /// How a diagnostic names the shape of a label value.
    pub open spec fn shape(self) -> Seq<char> {
        match self {
            LabelValueV::Scalar(_) => "a single value"@,
            LabelValueV::List(_, _) => "a list"@,
        }
    }
}

/// What rendering literals from index `i` on adds to `before`, or the
/// first error.
pub open spec fn rendered_from<E>(
    lits: Seq<LiteralV>,
    i: int,
    renders: spec_fn(LiteralV) -> Result<Seq<char>, E>,
    before: Seq<Seq<char>>,
) -> Result<Seq<Seq<char>>, E>
    decreases lits.len() - i,
{
    if i >= lits.len() {
        Ok(before)
    } else {
        match renders(lits[i]) {
            Ok(text) => rendered_from(lits, i + 1, renders, before.push(text)),
            Err(error) => Err(error),
        }
    }
}

/// Whether `render` renders every literal as the function `renders` says.
pub open spec fn renders_as<E, F: Fn(&Literal) -> Result<String, E>>(
    render: F,
    renders: spec_fn(LiteralV) -> Result<Seq<char>, E>,
) -> bool {
    forall|lit: &Literal, r: Result<String, E>|
        call_ensures(render, (lit,), r) ==> text_outcome(r) == renders(lit.deep_view())
}

/// What rendered literals come to, joined by commas: the error, where the
/// last of them is one.
pub open spec fn rendered_text<E>(parts: Seq<Result<String, E>>) -> Result<Seq<char>, E> {
    if parts.len() > 0 && parts.last() is Err {
        Err(parts.last()->Err_0)
    } else {
        Ok(texts_joined(parts.map_values(|part: Result<String, E>| part->Ok_0@), ","@))
    }
}

/// Whether `render` rendered these literals so: one call for each, in
/// order, up to the first error.
pub open spec fn rendered_by<E, F: Fn(&Literal) -> Result<String, E>>(
    render: F,
    lits: Seq<Literal>,
    parts: Seq<Result<String, E>>,
) -> bool {
    &&& parts.len() <= lits.len()
    &&& forall|k: int|
        0 <= k < parts.len() ==> call_ensures(render, (&lits[k],), #[trigger] parts[k])
    &&& forall|k: int| 0 <= k < parts.len() - 1 ==> #[trigger] parts[k] is Ok
    &&& parts.len() == 0 || parts.last() is Ok ==> parts.len() == lits.len()
}

proof fn lemma_rendered_steps<E>(
    lits: Seq<LiteralV>,
    renders: spec_fn(LiteralV) -> Result<Seq<char>, E>,
    texts: Seq<Seq<char>>,
)
    requires
        texts.len() <= lits.len(),
        forall|k: int|
            0 <= k < texts.len() ==> renders(lits[k]) == Ok::<Seq<char>, E>(#[trigger] texts[k]),
    ensures
        rendered_from(lits, 0, renders, Seq::empty()) == rendered_from(
            lits,
            texts.len() as int,
            renders,
            texts,
        ),
    decreases texts.len(),
{
    if texts.len() > 0 {
        let before = texts.drop_last();
        assert forall|k: int| 0 <= k < before.len() implies renders(lits[k]) == Ok::<Seq<char>, E>(
            #[trigger] before[k],
        ) by {
            assert(before[k] == texts[k]);
        }
        lemma_rendered_steps(lits, renders, before);
        assert(texts[texts.len() - 1] == texts.last());
        assert(before.push(texts.last()) =~= texts);
    } else {
        assert(texts =~= Seq::empty());
    }
}

proof fn lemma_rendered_by_function<E, F: Fn(&Literal) -> Result<String, E>>(
    render: F,
    value: LabelValue,
    parts: Seq<Result<String, E>>,
)
    requires
        rendered_by(render, value.literals_held(), parts),
    ensures
        forall|renders: spec_fn(LiteralV) -> Result<Seq<char>, E>| #[trigger]
            renders_as(render, renders) ==> rendered_text(parts) == value.deep_view().joined(
                renders,
            ),
{
    let lits = value.deep_view().literals();
    assert(lits.len() == value.literals_held().len());
    assert forall|renders: spec_fn(LiteralV) -> Result<Seq<char>, E>| #[trigger]
        renders_as(render, renders) implies rendered_text(parts) == value.deep_view().joined(
        renders,
    ) by {
        assert forall|k: int| 0 <= k < parts.len() implies text_outcome(#[trigger] parts[k])
            == renders(lits[k]) by {
            assert(call_ensures(render, (&value.literals_held()[k],), parts[k]));
            assert(lits[k] == value.literals_held()[k].deep_view());
        }
        let whole = if parts.len() > 0 && parts.last() is Err {
            parts.drop_last()
        } else {
            parts
        };
        let texts = whole.map_values(|part: Result<String, E>| part->Ok_0@);
        assert forall|k: int| 0 <= k < texts.len() implies renders(lits[k]) == Ok::<Seq<char>, E>(
            #[trigger] texts[k],
        ) by {
            assert(whole[k] == parts[k]);
            assert(text_outcome(parts[k]) == renders(lits[k]));
            if k == parts.len() - 1 {
                assert(parts[k] == parts.last());
            }
            assert(parts[k] is Ok);
        }
        lemma_rendered_steps(lits, renders, texts);
        if parts.len() > 0 && parts.last() is Err {
            assert(text_outcome(parts[parts.len() - 1]) == renders(lits[parts.len() - 1]));
        }
    }
}

proof fn lemma_rendered_texts(lits: Seq<LiteralV>, i: int, before: Seq<Seq<char>>)
    requires
        0 <= i <= lits.len(),
    ensures
        rendered_from(lits, i, |lit: LiteralV| Ok::<Seq<char>, ()>(lit.text()), before) == Ok::<
            Seq<Seq<char>>,
            (),
        >(before + lits.skip(i).map_values(|lit: LiteralV| lit.text())),
    decreases lits.len() - i,
{
    let texts = lits.skip(i).map_values(|lit: LiteralV| lit.text());
    if i < lits.len() {
        lemma_rendered_texts(lits, i + 1, before.push(lits[i].text()));
        assert(before.push(lits[i].text()) + lits.skip(i + 1).map_values(
            |lit: LiteralV| lit.text(),
        ) =~= before + texts);
    } else {
        assert(before + texts =~= before);
    }
}

/// Every item of a slice, in order, each to be written through.
fn each_mut<T>(items: &mut [T]) -> (r: Vec<&mut T>)
    ensures
        r@.len() == old(items)@.len(),
        forall|i: int| 0 <= i < r@.len() ==> *(#[trigger] r@[i]) == old(items)@[i],
        final(items)@ =~= r@.map_values(|item: &mut T| *final(item)),
{
    let mut r: Vec<&mut T> = Vec::new();
    let ghost all = items@;
    let ghost after = final(items)@;
    let mut rest: &mut [T] = items;
    while rest.len() > 0
        invariant
            r@.len() + rest@.len() == all.len(),
            forall|i: int| 0 <= i < r@.len() ==> *(#[trigger] r@[i]) == all[i],
            rest@ == all.skip(r@.len() as int),
            after =~= r@.map_values(|item: &mut T| *final(item)) + final(rest)@,
        decreases rest@.len(),
    {
        let (head, tail) = rest.split_at_mut(1);
        match head.first_mut() {
            Some(item) => {
                r.push(item);
            },
            None => {},
        }
        rest = tail;
    }
    r
}

impl LabelValue {
    /// The literals held, in order.
    pub open spec fn literals_held(self) -> Seq<Literal> {
        match self {
            LabelValue::Scalar(lit) => seq![lit],
            LabelValue::List(items, _) => items@,
        }
    }

    /// Where this value stands.
    pub fn span(&self) -> (r: Span)
        ensures
            r == self.deep_view().span(),
    {
        match self {
            LabelValue::Scalar(lit) => lit.span(),
            LabelValue::List(_, span) => *span,
        }
    }

    /// Every literal this value holds, each to be written through.
    pub fn literals_mut(&mut self) -> (r: Vec<&mut Literal>)
        ensures
            r@.len() == old(self).literals_held().len(),
            forall|i: int|
                0 <= i < r@.len() ==> *(#[trigger] r@[i]) == old(self).literals_held()[i],
            final(self).literals_held() =~= r@.map_values(|lit: &mut Literal| *final(lit)),
            match (*old(self), *final(self)) {
                (LabelValue::Scalar(_), LabelValue::Scalar(_)) => true,
                (LabelValue::List(_, before), LabelValue::List(_, after)) => before == after,
                _ => false,
            },
    {
        match self {
            LabelValue::Scalar(lit) => {
                let mut r: Vec<&mut Literal> = Vec::new();
                r.push(lit);
                r
            },
            LabelValue::List(items, _) => each_mut(items.as_mut_slice()),
        }
    }

    /// This value as the one string a label holds, with `render` applied
    /// to each literal on the way: once to each, in order, and not again
    /// after an error. Of a `render` that is a function of the literal the
    /// result is fixed by that function.
    pub fn join<E, F: Fn(&Literal) -> Result<String, E>>(&self, render: F) -> (r: Result<String, E>)
        requires
            forall|lit: &Literal| call_requires(render, (lit,)),
        ensures
            exists|parts: Seq<Result<String, E>>| #[trigger]
                rendered_by(render, self.literals_held(), parts) && text_outcome(r)
                    == rendered_text(parts),
            forall|renders: spec_fn(LiteralV) -> Result<Seq<char>, E>| #[trigger]
                renders_as(render, renders) ==> text_outcome(r) == self.deep_view().joined(renders),
    {
        match self {
            LabelValue::Scalar(lit) => {
                let r = render(lit);
                proof {
                    let parts = seq![r];
                    assert(rendered_by(render, self.literals_held(), parts));
                    assert(parts.map_values(|part: Result<String, E>| part->Ok_0@) =~= seq![
                        r->Ok_0@,
                    ]);
                    lemma_rendered_by_function(render, *self, parts);
                }
                r
            },
            LabelValue::List(items, _) => {
                let mut texts: Vec<String> = no_items();
                let ghost mut parts: Seq<Result<String, E>> = Seq::empty();
                let mut i: usize = 0;
                while i < items.len()
                    invariant
                        i <= items@.len(),
                        forall|lit: &Literal| call_requires(render, (lit,)),
                        self.literals_held() == items@,
                        parts.len() == i,
                        forall|k: int|
                            0 <= k < parts.len() ==> call_ensures(
                                render,
                                (&items@[k],),
                                #[trigger] parts[k],
                            ),
                        forall|k: int| 0 <= k < parts.len() ==> #[trigger] parts[k] is Ok,
                        texts.deep_view() == parts.map_values(
                            |part: Result<String, E>| part->Ok_0@,
                        ),
                    decreases items@.len() - i,
                {
                    let part = render(&items[i]);
                    let ghost all = parts.push(part);
                    match part {
                        Ok(text) => {
                            push_to(&mut texts, text);
                        },
                        Err(error) => {
                            proof {
                                assert forall|k: int| 0 <= k < all.len() - 1 implies
                                    #[trigger] all[k] is Ok by {
                                    assert(all[k] == parts[k]);
                                }
                                assert forall|k: int| 0 <= k < all.len() implies call_ensures(
                                    render,
                                    (&items@[k],),
                                    #[trigger] all[k],
                                ) by {
                                    if k < parts.len() {
                                        assert(all[k] == parts[k]);
                                    }
                                }
                                assert(rendered_by(render, self.literals_held(), all));
                                lemma_rendered_by_function(render, *self, all);
                            }
                            return Err(error);
                        },
                    }
                    assert(texts.deep_view() =~= all.map_values(
                        |part: Result<String, E>| part->Ok_0@,
                    ));
                    proof {
                        parts = all;
                    }
                    i = i + 1;
                }
                proof {
                    if parts.len() > 0 {
                        assert(parts[parts.len() - 1] is Ok);
                    }
                    assert(rendered_by(render, self.literals_held(), parts));
                    lemma_rendered_by_function(render, *self, parts);
                }
                Ok(join_texts(&texts, ","))
            },
        }
    }

    /// This value's own text, joined but not interpolated.
    pub fn text(&self) -> (r: String)
        ensures
            r@ == self.deep_view().text(),
    {
        let own = |lit: &Literal| -> (r: Result<String, ()>)
            ensures
                text_outcome(r) == Ok::<Seq<char>, ()>(lit.deep_view().text()),
            { Ok(lit.text().to_owned()) };
        proof {
            let renders = |lit: LiteralV| Ok::<Seq<char>, ()>(lit.text());
            assert(renders_as(own, renders));
            let lits = self.deep_view().literals();
            lemma_rendered_texts(lits, 0, Seq::empty());
            assert(Seq::<Seq<char>>::empty() + lits.skip(0).map_values(
                |lit: LiteralV| lit.text(),
            ) =~= lits.map_values(|lit: LiteralV| lit.text()));
        }
        match self.join(own) {
            Ok(text) => text,
            Err(_) => String::new(),
        }
    }

    /// How a diagnostic names the shape of this value.
    pub fn shape(&self) -> (r: &'static str)
        ensures
            r@ == self.deep_view().shape(),
    {
        match self {
            LabelValue::Scalar(_) => "a single value",
            LabelValue::List(_, _) => "a list",
        }
    }
}

/// One label.
#[derive(Debug, PartialEq)]
pub struct LabelEntry {
    pub key: Literal,
    pub value: LabelValue,
    pub span: Span,
}

/// The view of [`LabelEntry`].
#[verifier::ext_equal]
pub struct LabelEntryV {
    pub key: LiteralV,
    pub value: LabelValueV,
    pub span: Span,
}

impl DeepView for LabelEntry {
    type V = LabelEntryV;

    open spec fn deep_view(&self) -> LabelEntryV {
        LabelEntryV {
            key: self.key.deep_view(),
            value: self.value.deep_view(),
            span: self.span.deep_view(),
        }
    }
}

impl Duplicate for LabelEntry {
    fn duplicate(&self) -> (r: Self) {
        LabelEntry {
            key: self.key.duplicate(),
            value: self.value.duplicate(),
            span: self.span.duplicate(),
        }
    }
}

impl Clone for LabelEntry {
    fn clone(&self) -> (r: Self)
        ensures
            r.deep_view() == self.deep_view(),
    {
        self.duplicate()
    }
}

/// The labels of a service.
#[derive(Debug, PartialEq)]
pub struct LabelMap {
    pub entries: Vec<LabelEntry>,
}

/// The view of [`LabelMap`].
#[verifier::ext_equal]
pub struct LabelMapV {
    pub entries: Seq<LabelEntryV>,
}

impl DeepView for LabelMap {
    type V = LabelMapV;

    open spec fn deep_view(&self) -> LabelMapV {
        LabelMapV {
            entries: self.entries.deep_view(),
        }
    }
}

impl Duplicate for LabelMap {
    fn duplicate(&self) -> (r: Self) {
        LabelMap {
            entries: self.entries.duplicate(),
        }
    }
}

impl Clone for LabelMap {
    fn clone(&self) -> (r: Self)
        ensures
            r.deep_view() == self.deep_view(),
    {
        self.duplicate()
    }
}

/// A value of no fixed shape, as `raw` and template arguments take it.
#[derive(Debug, PartialEq)]
pub enum RawValue {
    Literal(Literal),
    List(Vec<RawValue>, Span),
    Mapping(Vec<(Literal, RawValue)>, Span),
}

/// The view of [`RawValue`].
#[verifier::ext_equal]
pub enum RawValueV {
    Literal(LiteralV),
    List(Seq<RawValueV>, Span),
    Mapping(Seq<(LiteralV, RawValueV)>, Span),
}

/// The view of a raw value.
pub open spec fn raw_view(value: RawValue) -> RawValueV
    decreases value,
{
    match value {
        RawValue::Literal(lit) => RawValueV::Literal(lit.deep_view()),
        RawValue::List(items, span) => RawValueV::List(
            Seq::new(
                items@.len(),
                |i: int|
                    if 0 <= i < items@.len() {
                        raw_view(items@[i])
                    } else {
                        arbitrary()
                    },
            ),
            span,
        ),
        RawValue::Mapping(entries, span) => RawValueV::Mapping(
            Seq::new(
                entries@.len(),
                |i: int|
                    if 0 <= i < entries@.len() {
                        (entries@[i].0.deep_view(), raw_view(entries@[i].1))
                    } else {
                        arbitrary()
                    },
            ),
            span,
        ),
    }
}

impl DeepView for RawValue {
    type V = RawValueV;

    open spec fn deep_view(&self) -> RawValueV {
        raw_view(*self)
    }
}

/// The view of a list of raw values, and of a map of them, is made of
/// the views of what it holds.
pub proof fn lemma_raw_view(value: RawValue)
    ensures
        value matches RawValue::List(items, span) ==> value.deep_view() == RawValueV::List(
            items.deep_view(),
            span,
        ),
        value matches RawValue::Mapping(entries, span) ==> value.deep_view() == RawValueV::Mapping(
            entries.deep_view(),
            span,
        ),
{
    match value {
        RawValue::List(items, span) => {
            assert(value.deep_view()->List_0 =~= items.deep_view());
        },
        RawValue::Mapping(entries, span) => {
            assert(value.deep_view()->Mapping_0 =~= entries.deep_view());
        },
        _ => {},
    }
}

fn copy_raw(value: &RawValue) -> (r: RawValue)
    ensures
        r.deep_view() == value.deep_view(),
    decreases value,
{
    match value {
        RawValue::Literal(lit) => RawValue::Literal(lit.duplicate()),
        RawValue::List(items, span) => {
            let mut out: Vec<RawValue> = Vec::new();
            let mut i: usize = 0;
            while i < items.len()
                invariant
                    i <= items@.len(),
                    out@.len() == i,
                    decreases_to!(value => items),
                    forall|k: int| 0 <= k < i ==> (#[trigger] out@[k]).deep_view()
                        == items@[k].deep_view(),
                decreases items@.len() - i,
            {
                out.push(copy_raw(&items[i]));
                i = i + 1;
            }
            let r = RawValue::List(out, *span);
            assert(r.deep_view()->List_0 =~= value.deep_view()->List_0);
            r
        },
        RawValue::Mapping(entries, span) => {
            let mut out: Vec<(Literal, RawValue)> = Vec::new();
            let mut i: usize = 0;
            while i < entries.len()
                invariant
                    i <= entries@.len(),
                    out@.len() == i,
                    decreases_to!(value => entries),
                    forall|k: int| 0 <= k < i ==> (#[trigger] out@[k]).deep_view()
                        == entries@[k].deep_view(),
                decreases entries@.len() - i,
            {
                let entry = &entries[i];
                out.push((entry.0.duplicate(), copy_raw(&entry.1)));
                i = i + 1;
            }
            let r = RawValue::Mapping(out, *span);
            proof {
                lemma_raw_view(r);
                lemma_raw_view(*value);
            }
            assert(out.deep_view() =~= entries.deep_view());
            r
        },
    }
}

impl Duplicate for RawValue {
    fn duplicate(&self) -> (r: Self) {
        copy_raw(self)
    }
}

impl Clone for RawValue {
    fn clone(&self) -> (r: Self)
        ensures
            r.deep_view() == self.deep_view(),
    {
        self.duplicate()
    }
}

impl RawValueV {
    /// Where a raw value stands.
    pub open spec fn span(self) -> Span {
        match self {
            RawValueV::Literal(lit) => lit.span(),
            RawValueV::List(_, span) => span,
            RawValueV::Mapping(_, span) => span,
        }
    }
}

impl RawValue {
    /// Where this value stands.
    pub fn span(&self) -> (r: Span)
        ensures
            r == self.deep_view().span(),
    {
        match self {
            RawValue::Literal(lit) => lit.span(),
            RawValue::List(_, span) => *span,
            RawValue::Mapping(_, span) => *span,
        }
    }
}

/// One entry of a `raw` body, or one argument of a template invocation.
#[derive(Debug, PartialEq)]
pub struct RawEntry {
    pub key: Literal,
    pub value: RawValue,
    pub span: Span,
}

/// The view of [`RawEntry`].
#[verifier::ext_equal]
pub struct RawEntryV {
    pub key: LiteralV,
    pub value: RawValueV,
    pub span: Span,
}

impl DeepView for RawEntry {
    type V = RawEntryV;

    open spec fn deep_view(&self) -> RawEntryV {
        RawEntryV {
            key: self.key.deep_view(),
            value: self.value.deep_view(),
            span: self.span.deep_view(),
        }
    }
}

impl Duplicate for RawEntry {
    fn duplicate(&self) -> (r: Self) {
        RawEntry {
            key: self.key.duplicate(),
            value: self.value.duplicate(),
            span: self.span.duplicate(),
        }
    }
}

impl Clone for RawEntry {
    fn clone(&self) -> (r: Self)
        ensures
            r.deep_view() == self.deep_view(),
    {
        self.duplicate()
    }
}

/// The entries of a `raw` body, or the arguments of a template invocation.
#[derive(Debug, PartialEq)]
pub struct RawMap {
    pub entries: Vec<RawEntry>,
}

/// The view of [`RawMap`].
#[verifier::ext_equal]
pub struct RawMapV {
    pub entries: Seq<RawEntryV>,
}

impl DeepView for RawMap {
    type V = RawMapV;

    open spec fn deep_view(&self) -> RawMapV {
        RawMapV {
            entries: self.entries.deep_view(),
        }
    }
}

impl Duplicate for RawMap {
    fn duplicate(&self) -> (r: Self) {
        RawMap {
            entries: self.entries.duplicate(),
        }
    }
}

impl Clone for RawMap {
    fn clone(&self) -> (r: Self)
        ensures
            r.deep_view() == self.deep_view(),
    {
        self.duplicate()
    }
}

/// One template a `with` list names, and its arguments.
#[derive(Debug, PartialEq)]
pub struct TemplateInvocation {
    /// The alias the template is reached through, if any.
    pub qualifier: Option<Ident>,
    pub name: Ident,
    pub args: RawMap,
    pub span: Span,
}

/// The view of [`TemplateInvocation`].
#[verifier::ext_equal]
pub struct TemplateInvocationV {
    pub qualifier: Option<IdentV>,
    pub name: IdentV,
    pub args: RawMapV,
    pub span: Span,
}

impl DeepView for TemplateInvocation {
    type V = TemplateInvocationV;

    open spec fn deep_view(&self) -> TemplateInvocationV {
        TemplateInvocationV {
            qualifier: self.qualifier.deep_view(),
            name: self.name.deep_view(),
            args: self.args.deep_view(),
            span: self.span.deep_view(),
        }
    }
}

impl Duplicate for TemplateInvocation {
    fn duplicate(&self) -> (r: Self) {
        TemplateInvocation {
            qualifier: self.qualifier.duplicate(),
            name: self.name.duplicate(),
            args: self.args.duplicate(),
            span: self.span.duplicate(),
        }
    }
}

impl Clone for TemplateInvocation {
    fn clone(&self) -> (r: Self)
        ensures
            r.deep_view() == self.deep_view(),
    {
        self.duplicate()
    }
}

/// The fields a service or a template sets.
#[derive(Debug, PartialEq)]
pub struct ServiceFields {
    pub image: Option<Image>,
    pub build: Option<Build>,
    pub expose: Option<Expose>,
    pub restart: Option<Restart>,
    pub healthcheck: Option<Healthcheck>,
    pub publish: ArrowMap,
    pub volumes: ArrowMap,
    pub env: EnvMap,
    pub labels: LabelMap,
    pub raw: RawMap,
    pub depends_on: Vec<DependsOnEntry>,
    pub networks: Vec<Literal>,
    pub dns: Vec<Literal>,
    pub env_file: Vec<Literal>,
    /// Where `privileged` was written, if it was.
    pub privileged: Option<Span>,
    pub devices: ArrowMap,
    pub container_name: Option<Literal>,
    pub command: Option<Command>,
    pub entrypoint: Option<Entrypoint>,
    pub with: Vec<TemplateInvocation>,
}

/// The view of [`ServiceFields`].
#[verifier::ext_equal]
pub struct ServiceFieldsV {
    pub image: Option<ImageV>,
    pub build: Option<BuildV>,
    pub expose: Option<ExposeV>,
    pub restart: Option<RestartV>,
    pub healthcheck: Option<HealthcheckV>,
    pub publish: ArrowMapV,
    pub volumes: ArrowMapV,
    pub env: EnvMapV,
    pub labels: LabelMapV,
    pub raw: RawMapV,
    pub depends_on: Seq<DependsOnEntryV>,
    pub networks: Seq<LiteralV>,
    pub dns: Seq<LiteralV>,
    pub env_file: Seq<LiteralV>,
    pub privileged: Option<Span>,
    pub devices: ArrowMapV,
    pub container_name: Option<LiteralV>,
    pub command: Option<ShellOrExecV>,
    pub entrypoint: Option<ShellOrExecV>,
    pub with: Seq<TemplateInvocationV>,
}

impl DeepView for ServiceFields {
    type V = ServiceFieldsV;

    open spec fn deep_view(&self) -> ServiceFieldsV {
        ServiceFieldsV {
            image: self.image.deep_view(),
            build: self.build.deep_view(),
            expose: self.expose.deep_view(),
            restart: self.restart.deep_view(),
            healthcheck: self.healthcheck.deep_view(),
            publish: self.publish.deep_view(),
            volumes: self.volumes.deep_view(),
            env: self.env.deep_view(),
            labels: self.labels.deep_view(),
            raw: self.raw.deep_view(),
            depends_on: self.depends_on.deep_view(),
            networks: self.networks.deep_view(),
            dns: self.dns.deep_view(),
            env_file: self.env_file.deep_view(),
            privileged: self.privileged.deep_view(),
            devices: self.devices.deep_view(),
            container_name: self.container_name.deep_view(),
            command: self.command.deep_view(),
            entrypoint: self.entrypoint.deep_view(),
            with: self.with.deep_view(),
        }
    }
}

impl Duplicate for ServiceFields {
    fn duplicate(&self) -> (r: Self) {
        ServiceFields {
            image: self.image.duplicate(),
            build: self.build.duplicate(),
            expose: self.expose.duplicate(),
            restart: self.restart.duplicate(),
            healthcheck: self.healthcheck.duplicate(),
            publish: self.publish.duplicate(),
            volumes: self.volumes.duplicate(),
            env: self.env.duplicate(),
            labels: self.labels.duplicate(),
            raw: self.raw.duplicate(),
            depends_on: self.depends_on.duplicate(),
            networks: self.networks.duplicate(),
            dns: self.dns.duplicate(),
            env_file: self.env_file.duplicate(),
            privileged: self.privileged.duplicate(),
            devices: self.devices.duplicate(),
            container_name: self.container_name.duplicate(),
            command: self.command.duplicate(),
            entrypoint: self.entrypoint.duplicate(),
            with: self.with.duplicate(),
        }
    }
}

impl Clone for ServiceFields {
    fn clone(&self) -> (r: Self)
        ensures
            r.deep_view() == self.deep_view(),
    {
        self.duplicate()
    }
}

impl Default for ArrowMap {
    fn default() -> (r: Self)
        ensures
            r.deep_view().entries.len() == 0,
    {
        ArrowMap { entries: no_items() }
    }
}

impl Default for EnvMap {
    fn default() -> (r: Self)
        ensures
            r.deep_view().entries.len() == 0,
    {
        EnvMap { entries: no_items() }
    }
}

impl Default for LabelMap {
    fn default() -> (r: Self)
        ensures
            r.deep_view().entries.len() == 0,
    {
        LabelMap { entries: no_items() }
    }
}

impl Default for RawMap {
    fn default() -> (r: Self)
        ensures
            r.deep_view().entries.len() == 0,
    {
        RawMap { entries: no_items() }
    }
}

impl ServiceFieldsV {
    /// No field set.
    pub open spec fn none() -> ServiceFieldsV {
        ServiceFieldsV {
            image: None,
            build: None,
            expose: None,
            restart: None,
            healthcheck: None,
            publish: ArrowMapV { entries: Seq::empty() },
            volumes: ArrowMapV { entries: Seq::empty() },
            env: EnvMapV { entries: Seq::empty() },
            labels: LabelMapV { entries: Seq::empty() },
            raw: RawMapV { entries: Seq::empty() },
            depends_on: Seq::empty(),
            networks: Seq::empty(),
            dns: Seq::empty(),
            env_file: Seq::empty(),
            privileged: None,
            devices: ArrowMapV { entries: Seq::empty() },
            container_name: None,
            command: None,
            entrypoint: None,
            with: Seq::empty(),
        }
    }
}

impl Default for ServiceFields {
    fn default() -> (r: Self)
        ensures
            r.deep_view() == ServiceFieldsV::none(),
    {
        ServiceFields {
            image: None,
            build: None,
            expose: None,
            restart: None,
            healthcheck: None,
            publish: ArrowMap { entries: no_items() },
            volumes: ArrowMap { entries: no_items() },
            env: EnvMap { entries: no_items() },
            labels: LabelMap { entries: no_items() },
            raw: RawMap { entries: no_items() },
            depends_on: no_items(),
            networks: no_items(),
            dns: no_items(),
            env_file: no_items(),
            privileged: None,
            devices: ArrowMap { entries: no_items() },
            container_name: None,
            command: None,
            entrypoint: None,
            with: no_items(),
        }
    }
}

/// A top-level `service` declaration.
#[derive(Debug, PartialEq)]
pub struct Service {
    pub name: Ident,
    pub fields: ServiceFields,
    pub span: Span,
}

/// The view of [`Service`].
#[verifier::ext_equal]
pub struct ServiceV {
    pub name: IdentV,
    pub fields: ServiceFieldsV,
    pub span: Span,
}

impl DeepView for Service {
    type V = ServiceV;

    open spec fn deep_view(&self) -> ServiceV {
        ServiceV {
            name: self.name.deep_view(),
            fields: self.fields.deep_view(),
            span: self.span.deep_view(),
        }
    }
}

impl Duplicate for Service {
    fn duplicate(&self) -> (r: Self) {
        Service {
            name: self.name.duplicate(),
            fields: self.fields.duplicate(),
            span: self.span.duplicate(),
        }
    }
}

impl Clone for Service {
    fn clone(&self) -> (r: Self)
        ensures
            r.deep_view() == self.deep_view(),
    {
        self.duplicate()
    }
}

/// A top-level `template` declaration.
#[derive(Debug, PartialEq)]
pub struct TemplateDecl {
    pub name: Ident,
    pub params: Vec<Param>,
    pub fields: ServiceFields,
    pub span: Span,
}

/// The view of [`TemplateDecl`].
#[verifier::ext_equal]
pub struct TemplateDeclV {
    pub name: IdentV,
    pub params: Seq<ParamV>,
    pub fields: ServiceFieldsV,
    pub span: Span,
}

impl DeepView for TemplateDecl {
    type V = TemplateDeclV;

    open spec fn deep_view(&self) -> TemplateDeclV {
        TemplateDeclV {
            name: self.name.deep_view(),
            params: self.params.deep_view(),
            fields: self.fields.deep_view(),
            span: self.span.deep_view(),
        }
    }
}

impl Duplicate for TemplateDecl {
    fn duplicate(&self) -> (r: Self) {
        TemplateDecl {
            name: self.name.duplicate(),
            params: self.params.duplicate(),
            fields: self.fields.duplicate(),
            span: self.span.duplicate(),
        }
    }
}

impl Clone for TemplateDecl {
    fn clone(&self) -> (r: Self)
        ensures
            r.deep_view() == self.deep_view(),
    {
        self.duplicate()
    }
}

/// A top-level `use` declaration: a file and the alias it is imported under.
#[derive(Debug, PartialEq)]
pub struct UseDecl {
    pub path: Literal,
    pub alias: Ident,
    pub span: Span,
}

/// The view of [`UseDecl`].
#[verifier::ext_equal]
pub struct UseDeclV {
    pub path: LiteralV,
    pub alias: IdentV,
    pub span: Span,
}

impl DeepView for UseDecl {
    type V = UseDeclV;

    open spec fn deep_view(&self) -> UseDeclV {
        UseDeclV {
            path: self.path.deep_view(),
            alias: self.alias.deep_view(),
            span: self.span.deep_view(),
        }
    }
}

impl Duplicate for UseDecl {
    fn duplicate(&self) -> (r: Self) {
        UseDecl {
            path: self.path.duplicate(),
            alias: self.alias.duplicate(),
            span: self.span.duplicate(),
        }
    }
}

impl Clone for UseDecl {
    fn clone(&self) -> (r: Self)
        ensures
            r.deep_view() == self.deep_view(),
    {
        self.duplicate()
    }
}

/// One top-level declaration.
#[derive(Debug, PartialEq)]
pub enum TopDecl {
    Network(Network),
    Volume(Volume),
    Service(Box<Service>),
    Template(Box<TemplateDecl>),
    Use(UseDecl),
}

/// The view of [`TopDecl`].
#[verifier::ext_equal]
pub enum TopDeclV {
    Network(NetworkV),
    Volume(VolumeV),
    Service(ServiceV),
    Template(TemplateDeclV),
    Use(UseDeclV),
}

impl DeepView for TopDecl {
    type V = TopDeclV;

    open spec fn deep_view(&self) -> TopDeclV {
        match self {
            TopDecl::Network(n) => TopDeclV::Network(n.deep_view()),
            TopDecl::Volume(v) => TopDeclV::Volume(v.deep_view()),
            TopDecl::Service(s) => TopDeclV::Service(s.deep_view()),
            TopDecl::Template(t) => TopDeclV::Template(t.deep_view()),
            TopDecl::Use(u) => TopDeclV::Use(u.deep_view()),
        }
    }
}

impl Duplicate for TopDecl {
    fn duplicate(&self) -> (r: Self) {
        match self {
            TopDecl::Network(n) => TopDecl::Network(n.duplicate()),
            TopDecl::Volume(v) => TopDecl::Volume(v.duplicate()),
            TopDecl::Service(s) => TopDecl::Service(Box::new((**s).duplicate())),
            TopDecl::Template(t) => TopDecl::Template(Box::new((**t).duplicate())),
            TopDecl::Use(u) => TopDecl::Use(u.duplicate()),
        }
    }
}

impl Clone for TopDecl {
    fn clone(&self) -> (r: Self)
        ensures
            r.deep_view() == self.deep_view(),
    {
        self.duplicate()
    }
}

/// A parsed file: its declarations, in source order.
#[derive(Debug, PartialEq)]
pub struct Program {
    pub decls: Vec<TopDecl>,
}

/// The view of [`Program`].
#[verifier::ext_equal]
pub struct ProgramV {
    pub decls: Seq<TopDeclV>,
}

impl DeepView for Program {
    type V = ProgramV;

    open spec fn deep_view(&self) -> ProgramV {
        ProgramV {
            decls: self.decls.deep_view(),
        }
    }
}

impl Clone for Program {
    fn clone(&self) -> (r: Self)
        ensures
            r.deep_view() == self.deep_view(),
    {
        Program { decls: self.decls.duplicate() }
    }
}

} // verus!
