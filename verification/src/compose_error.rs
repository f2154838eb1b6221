//! What can go wrong while `template`/`with` composition is resolved.

use vstd::prelude::*;
use vstd::string::*;

use crate::schema::MapSide;
use crate::source::{location, SourceMap, Span};
use crate::text::{debug_quoted, debug_text, decimal, decimal_text, join_texts, texts_joined};

verus! {

/// An error raised while composition is resolved. Resolution stops at
/// the first one.
#[derive(Debug, Clone, PartialEq)]
pub enum ComposeError {
    /// A `with` names a template that nothing declares.
    UnknownTemplate {
        name: String,
        span: Span,
    },
    /// Two templates share a name.
    DuplicateTemplateName {
        name: String,
        first: Span,
        second: Span,
    },
    /// Two services share a name.
    DuplicateServiceName {
        name: String,
        first: Span,
        second: Span,
    },
    /// Two networks share a name.
    DuplicateNetworkName {
        name: String,
        first: Span,
        second: Span,
    },
    /// Two volumes share a name.
    DuplicateVolumeName {
        name: String,
        first: Span,
        second: Span,
    },
    /// A chain of `with` lists comes back to a template it is resolving;
    /// `chain` ends with the name that closes it.
    TemplateCycle {
        chain: Vec<String>,
        span: Span,
    },
    /// A chain of `with` lists is longer than the limit.
    TemplateNestingTooDeep {
        name: String,
        limit: usize,
        span: Span,
    },
    /// An argument the template declares no parameter for.
    UnknownTemplateArgument {
        template: String,
        argument: String,
        span: Span,
    },
    /// A parameter the invocation gives no argument for.
    MissingTemplateArgument {
        template: String,
        param: String,
        span: Span,
    },
    /// One argument given twice in one invocation.
    DuplicateTemplateArgument {
        template: String,
        argument: String,
        first: Span,
        second: Span,
    },
    /// A list or map given for a parameter that fills a single value.
    TemplateArgumentNotScalar {
        template: String,
        param: String,
        span: Span,
    },
    /// A number given for a parameter that stands for a reference.
    ArgumentNotReferenceShaped {
        template: String,
        param: String,
        span: Span,
    },
    /// Something else than a number given for a parameter that stands for
    /// one.
    ArgumentNotNumeric {
        template: String,
        param: String,
        found: &'static str,
        span: Span,
    },
    /// An argument with no text form, interpolated into a string.
    ArgumentNotInterpolable {
        template: String,
        param: String,
        found: &'static str,
        span: Span,
    },
    /// Something else than a number written where a number belongs.
    FieldNotNumeric {
        field: &'static str,
        found: &'static str,
        span: Span,
    },
    /// A field read off a name that nothing declares.
    FieldBaseNotDeclared {
        base: String,
        span: Span,
    },
    /// A field read off something that has none.
    FieldBaseNotDeclaration {
        base: String,
        found: &'static str,
        span: Span,
    },
    /// A field that the kind of declaration does not have.
    UnknownDeclarationField {
        kind: &'static str,
        decl: String,
        field: String,
        readable: Vec<&'static str>,
        span: Span,
    },
    /// A field that the declaration leaves unset.
    DeclarationFieldUnset {
        kind: &'static str,
        decl: String,
        field: String,
        span: Span,
    },
    /// A field that never holds a value.
    DeclarationFieldNotAValue {
        kind: &'static str,
        decl: String,
        field: String,
        what: &'static str,
        span: Span,
    },
    /// A field read off an imported declaration that the file does not
    /// hold.
    UnknownQualifiedDeclaration {
        alias: String,
        name: String,
        span: Span,
    },
    /// A field read off a parameter whose argument names no declaration.
    ArgumentCantCarryField {
        template: String,
        param: String,
        found: &'static str,
        span: Span,
    },
    /// An imported declaration given for a parameter that fills a plain
    /// value.
    QualifiedArgumentNotAValue {
        template: String,
        alias: String,
        name: String,
        span: Span,
    },
    /// An interpolated field access with too many segments.
    InterpolatedFieldAccessTooDeep {
        text: String,
        span: Span,
    },
    /// Two templates of one `with` list set the same single-value field.
    FieldCollision {
        field: &'static str,
        first_template: String,
        second_template: String,
        first: Span,
        second: Span,
    },
    /// One label written as a list in one place and as a single value in
    /// another.
    LabelShapeMismatch {
        key: String,
        first_shape: &'static str,
        second_shape: &'static str,
        first: Span,
        second: Span,
    },
    /// Two templates of one `with` list set the same key of a map field.
    MapKeyCollision(Box<MapKeyCollision>),
    /// An alias that no import is in scope for.
    UnknownAlias {
        alias: String,
        span: Span,
    },
    /// An `alias.name` reference where it has no meaning.
    UnsupportedQualifiedReference {
        field: &'static str,
        alias: String,
        span: Span,
    },
    /// An imported file that holds no network of that name.
    UnknownQualifiedNetwork {
        alias: String,
        name: String,
        span: Span,
    },
    /// An imported network whose name another network has already.
    CollidingImportedNetwork {
        alias: String,
        name: String,
        span: Span,
    },
    /// An imported file that holds no volume of that name.
    UnknownQualifiedVolume {
        alias: String,
        name: String,
        span: Span,
    },
    /// An imported volume whose name another volume has already.
    CollidingImportedVolume {
        alias: String,
        name: String,
        span: Span,
    },
}

/// The particulars of a [`ComposeError::MapKeyCollision`].
#[derive(Debug, Clone, PartialEq)]
pub struct MapKeyCollision {
    pub field: &'static str,
    pub side: MapSide,
    pub key: String,
    pub first_template: String,
    pub second_template: String,
    pub first: Span,
    pub second: Span,
}

/// The view of [`MapKeyCollision`].
#[verifier::ext_equal]
pub struct MapKeyCollisionV {
    pub field: Seq<char>,
    pub side: MapSide,
    pub key: Seq<char>,
    pub first_template: Seq<char>,
    pub second_template: Seq<char>,
    pub first: Span,
    pub second: Span,
}

impl DeepView for MapKeyCollision {
    type V = MapKeyCollisionV;

    open spec fn deep_view(&self) -> MapKeyCollisionV {
        MapKeyCollisionV {
            field: self.field@,
            side: self.side,
            key: self.key@,
            first_template: self.first_template@,
            second_template: self.second_template@,
            first: self.first,
            second: self.second,
        }
    }
}

/// The view of [`ComposeError`].
#[verifier::ext_equal]
pub enum ComposeErrorV {
    UnknownTemplate { name: Seq<char>, span: Span },
    DuplicateTemplateName { name: Seq<char>, first: Span, second: Span },
    DuplicateServiceName { name: Seq<char>, first: Span, second: Span },
    DuplicateNetworkName { name: Seq<char>, first: Span, second: Span },
    DuplicateVolumeName { name: Seq<char>, first: Span, second: Span },
    TemplateCycle { chain: Seq<Seq<char>>, span: Span },
    TemplateNestingTooDeep { name: Seq<char>, limit: usize, span: Span },
    UnknownTemplateArgument { template: Seq<char>, argument: Seq<char>, span: Span },
    MissingTemplateArgument { template: Seq<char>, param: Seq<char>, span: Span },
    DuplicateTemplateArgument {
        template: Seq<char>,
        argument: Seq<char>,
        first: Span,
        second: Span,
    },
    TemplateArgumentNotScalar { template: Seq<char>, param: Seq<char>, span: Span },
    ArgumentNotReferenceShaped { template: Seq<char>, param: Seq<char>, span: Span },
    ArgumentNotNumeric { template: Seq<char>, param: Seq<char>, found: Seq<char>, span: Span },
    ArgumentNotInterpolable { template: Seq<char>, param: Seq<char>, found: Seq<char>, span: Span },
    FieldNotNumeric { field: Seq<char>, found: Seq<char>, span: Span },
    FieldBaseNotDeclared { base: Seq<char>, span: Span },
    FieldBaseNotDeclaration { base: Seq<char>, found: Seq<char>, span: Span },
    UnknownDeclarationField {
        kind: Seq<char>,
        decl: Seq<char>,
        field: Seq<char>,
        readable: Seq<Seq<char>>,
        span: Span,
    },
    DeclarationFieldUnset { kind: Seq<char>, decl: Seq<char>, field: Seq<char>, span: Span },
    DeclarationFieldNotAValue {
        kind: Seq<char>,
        decl: Seq<char>,
        field: Seq<char>,
        what: Seq<char>,
        span: Span,
    },
    UnknownQualifiedDeclaration { alias: Seq<char>, name: Seq<char>, span: Span },
    ArgumentCantCarryField { template: Seq<char>, param: Seq<char>, found: Seq<char>, span: Span },
    QualifiedArgumentNotAValue {
        template: Seq<char>,
        alias: Seq<char>,
        name: Seq<char>,
        span: Span,
    },
    InterpolatedFieldAccessTooDeep { text: Seq<char>, span: Span },
    FieldCollision {
        field: Seq<char>,
        first_template: Seq<char>,
        second_template: Seq<char>,
        first: Span,
        second: Span,
    },
    LabelShapeMismatch {
        key: Seq<char>,
        first_shape: Seq<char>,
        second_shape: Seq<char>,
        first: Span,
        second: Span,
    },
    MapKeyCollision(MapKeyCollisionV),
    UnknownAlias { alias: Seq<char>, span: Span },
    UnsupportedQualifiedReference { field: Seq<char>, alias: Seq<char>, span: Span },
    UnknownQualifiedNetwork { alias: Seq<char>, name: Seq<char>, span: Span },
    CollidingImportedNetwork { alias: Seq<char>, name: Seq<char>, span: Span },
    UnknownQualifiedVolume { alias: Seq<char>, name: Seq<char>, span: Span },
    CollidingImportedVolume { alias: Seq<char>, name: Seq<char>, span: Span },
}

impl DeepView for ComposeError {
    type V = ComposeErrorV;

    open spec fn deep_view(&self) -> ComposeErrorV {
        match self {
            ComposeError::UnknownTemplate { name, span } => ComposeErrorV::UnknownTemplate {
                name: name@,
                span: *span,
            },
            ComposeError::DuplicateTemplateName {
                name,
                first,
                second,
            } => ComposeErrorV::DuplicateTemplateName {
                name: name@,
                first: *first,
                second: *second,
            },
            ComposeError::DuplicateServiceName {
                name,
                first,
                second,
            } => ComposeErrorV::DuplicateServiceName {
                name: name@,
                first: *first,
                second: *second,
            },
            ComposeError::DuplicateNetworkName {
                name,
                first,
                second,
            } => ComposeErrorV::DuplicateNetworkName {
                name: name@,
                first: *first,
                second: *second,
            },
            ComposeError::DuplicateVolumeName {
                name,
                first,
                second,
            } => ComposeErrorV::DuplicateVolumeName {
                name: name@,
                first: *first,
                second: *second,
            },
            ComposeError::TemplateCycle { chain, span } => ComposeErrorV::TemplateCycle {
                chain: chain.deep_view(),
                span: *span,
            },
            ComposeError::TemplateNestingTooDeep {
                name,
                limit,
                span,
            } => ComposeErrorV::TemplateNestingTooDeep {
                name: name@,
                limit: *limit,
                span: *span,
            },
            ComposeError::UnknownTemplateArgument {
                template,
                argument,
                span,
            } => ComposeErrorV::UnknownTemplateArgument {
                template: template@,
                argument: argument@,
                span: *span,
            },
            ComposeError::MissingTemplateArgument {
                template,
                param,
                span,
            } => ComposeErrorV::MissingTemplateArgument {
                template: template@,
                param: param@,
                span: *span,
            },
            ComposeError::DuplicateTemplateArgument {
                template,
                argument,
                first,
                second,
            } => ComposeErrorV::DuplicateTemplateArgument {
                template: template@,
                argument: argument@,
                first: *first,
                second: *second,
            },
            ComposeError::TemplateArgumentNotScalar {
                template,
                param,
                span,
            } => ComposeErrorV::TemplateArgumentNotScalar {
                template: template@,
                param: param@,
                span: *span,
            },
            ComposeError::ArgumentNotReferenceShaped {
                template,
                param,
                span,
            } => ComposeErrorV::ArgumentNotReferenceShaped {
                template: template@,
                param: param@,
                span: *span,
            },
            ComposeError::ArgumentNotNumeric {
                template,
                param,
                found,
                span,
            } => ComposeErrorV::ArgumentNotNumeric {
                template: template@,
                param: param@,
                found: found@,
                span: *span,
            },
            ComposeError::ArgumentNotInterpolable {
                template,
                param,
                found,
                span,
            } => ComposeErrorV::ArgumentNotInterpolable {
                template: template@,
                param: param@,
                found: found@,
                span: *span,
            },
            ComposeError::FieldNotNumeric { field, found, span } => ComposeErrorV::FieldNotNumeric {
                field: field@,
                found: found@,
                span: *span,
            },
            ComposeError::FieldBaseNotDeclared {
                base,
                span,
            } => ComposeErrorV::FieldBaseNotDeclared {
                base: base@,
                span: *span,
            },
            ComposeError::FieldBaseNotDeclaration {
                base,
                found,
                span,
            } => ComposeErrorV::FieldBaseNotDeclaration {
                base: base@,
                found: found@,
                span: *span,
            },
            ComposeError::UnknownDeclarationField {
                kind,
                decl,
                field,
                readable,
                span,
            } => ComposeErrorV::UnknownDeclarationField {
                kind: kind@,
                decl: decl@,
                field: field@,
                readable: readable.deep_view(),
                span: *span,
            },
            ComposeError::DeclarationFieldUnset {
                kind,
                decl,
                field,
                span,
            } => ComposeErrorV::DeclarationFieldUnset {
                kind: kind@,
                decl: decl@,
                field: field@,
                span: *span,
            },
            ComposeError::DeclarationFieldNotAValue {
                kind,
                decl,
                field,
                what,
                span,
            } => ComposeErrorV::DeclarationFieldNotAValue {
                kind: kind@,
                decl: decl@,
                field: field@,
                what: what@,
                span: *span,
            },
            ComposeError::UnknownQualifiedDeclaration {
                alias,
                name,
                span,
            } => ComposeErrorV::UnknownQualifiedDeclaration {
                alias: alias@,
                name: name@,
                span: *span,
            },
            ComposeError::ArgumentCantCarryField {
                template,
                param,
                found,
                span,
            } => ComposeErrorV::ArgumentCantCarryField {
                template: template@,
                param: param@,
                found: found@,
                span: *span,
            },
            ComposeError::QualifiedArgumentNotAValue {
                template,
                alias,
                name,
                span,
            } => ComposeErrorV::QualifiedArgumentNotAValue {
                template: template@,
                alias: alias@,
                name: name@,
                span: *span,
            },
            ComposeError::InterpolatedFieldAccessTooDeep {
                text,
                span,
            } => ComposeErrorV::InterpolatedFieldAccessTooDeep {
                text: text@,
                span: *span,
            },
            ComposeError::FieldCollision {
                field,
                first_template,
                second_template,
                first,
                second,
            } => ComposeErrorV::FieldCollision {
                field: field@,
                first_template: first_template@,
                second_template: second_template@,
                first: *first,
                second: *second,
            },
            ComposeError::LabelShapeMismatch {
                key,
                first_shape,
                second_shape,
                first,
                second,
            } => ComposeErrorV::LabelShapeMismatch {
                key: key@,
                first_shape: first_shape@,
                second_shape: second_shape@,
                first: *first,
                second: *second,
            },
            ComposeError::MapKeyCollision(details) => ComposeErrorV::MapKeyCollision(
                details.deep_view(),
            ),
            ComposeError::UnknownAlias { alias, span } => ComposeErrorV::UnknownAlias {
                alias: alias@,
                span: *span,
            },
            ComposeError::UnsupportedQualifiedReference {
                field,
                alias,
                span,
            } => ComposeErrorV::UnsupportedQualifiedReference {
                field: field@,
                alias: alias@,
                span: *span,
            },
            ComposeError::UnknownQualifiedNetwork {
                alias,
                name,
                span,
            } => ComposeErrorV::UnknownQualifiedNetwork {
                alias: alias@,
                name: name@,
                span: *span,
            },
            ComposeError::CollidingImportedNetwork {
                alias,
                name,
                span,
            } => ComposeErrorV::CollidingImportedNetwork {
                alias: alias@,
                name: name@,
                span: *span,
            },
            ComposeError::UnknownQualifiedVolume {
                alias,
                name,
                span,
            } => ComposeErrorV::UnknownQualifiedVolume {
                alias: alias@,
                name: name@,
                span: *span,
            },
            ComposeError::CollidingImportedVolume {
                alias,
                name,
                span,
            } => ComposeErrorV::CollidingImportedVolume {
                alias: alias@,
                name: name@,
                span: *span,
            },
        }
    }
}

impl ComposeErrorV {
    /// Where an error lies: of two places, the one that offends.
    pub open spec fn span(self) -> Span {
        match self {
            ComposeErrorV::UnknownTemplate { span, .. } => span,
            ComposeErrorV::DuplicateTemplateName { second, .. } => second,
            ComposeErrorV::DuplicateServiceName { second, .. } => second,
            ComposeErrorV::DuplicateNetworkName { second, .. } => second,
            ComposeErrorV::DuplicateVolumeName { second, .. } => second,
            ComposeErrorV::TemplateCycle { span, .. } => span,
            ComposeErrorV::TemplateNestingTooDeep { span, .. } => span,
            ComposeErrorV::UnknownTemplateArgument { span, .. } => span,
            ComposeErrorV::MissingTemplateArgument { span, .. } => span,
            ComposeErrorV::DuplicateTemplateArgument { second, .. } => second,
            ComposeErrorV::TemplateArgumentNotScalar { span, .. } => span,
            ComposeErrorV::ArgumentNotReferenceShaped { span, .. } => span,
            ComposeErrorV::ArgumentNotNumeric { span, .. } => span,
            ComposeErrorV::ArgumentNotInterpolable { span, .. } => span,
            ComposeErrorV::FieldNotNumeric { span, .. } => span,
            ComposeErrorV::FieldBaseNotDeclared { span, .. } => span,
            ComposeErrorV::FieldBaseNotDeclaration { span, .. } => span,
            ComposeErrorV::UnknownDeclarationField { span, .. } => span,
            ComposeErrorV::DeclarationFieldUnset { span, .. } => span,
            ComposeErrorV::DeclarationFieldNotAValue { span, .. } => span,
            ComposeErrorV::UnknownQualifiedDeclaration { span, .. } => span,
            ComposeErrorV::ArgumentCantCarryField { span, .. } => span,
            ComposeErrorV::QualifiedArgumentNotAValue { span, .. } => span,
            ComposeErrorV::InterpolatedFieldAccessTooDeep { span, .. } => span,
            ComposeErrorV::FieldCollision { second, .. } => second,
            ComposeErrorV::LabelShapeMismatch { second, .. } => second,
            ComposeErrorV::MapKeyCollision(details) => details.second,
            ComposeErrorV::UnknownAlias { span, .. } => span,
            ComposeErrorV::UnsupportedQualifiedReference { span, .. } => span,
            ComposeErrorV::UnknownQualifiedNetwork { span, .. } => span,
            ComposeErrorV::CollidingImportedNetwork { span, .. } => span,
            ComposeErrorV::UnknownQualifiedVolume { span, .. } => span,
            ComposeErrorV::CollidingImportedVolume { span, .. } => span,
        }
    }

    /// What a diagnostic prints for an error, each place in it resolved
    /// against `files`.
    pub open spec fn text(self, files: Option<Seq<Seq<char>>>) -> Seq<char> {
        let at = location(self.span(), files);
        match self {
            ComposeErrorV::UnknownTemplate { name, .. } => at
                + ": unknown template `"@
                + name
                + "`"@,
            ComposeErrorV::DuplicateTemplateName { name, first, .. } => at
                + ": duplicate template `"@
                + name
                + "` (first declared at "@
                + location(first, files)
                + ")"@,
            ComposeErrorV::DuplicateServiceName { name, first, .. } => at
                + ": duplicate service `"@
                + name
                + "` (first declared at "@
                + location(first, files)
                + ")"@,
            ComposeErrorV::DuplicateNetworkName { name, first, .. } => at
                + ": duplicate network `"@
                + name
                + "` (first declared at "@
                + location(first, files)
                + ")"@,
            ComposeErrorV::DuplicateVolumeName { name, first, .. } => at
                + ": duplicate volume `"@
                + name
                + "` (first declared at "@
                + location(first, files)
                + ")"@,
            ComposeErrorV::TemplateCycle { chain, .. } => at
                + ": template composition cycle: "@
                + texts_joined(chain, " -> "@),
            ComposeErrorV::TemplateNestingTooDeep { name, limit, .. } => at
                + ": `with` nesting deeper than "@
                + decimal(limit as nat)
                + " levels (reached at template `"@
                + name
                + "`)"@,
            ComposeErrorV::UnknownTemplateArgument { template, argument, .. } => at
                + ": unknown argument `"@
                + argument
                + "` for template `"@
                + template
                + "`"@,
            ComposeErrorV::MissingTemplateArgument { template, param, .. } => at
                + ": missing required argument `"@
                + param
                + "` for template `"@
                + template
                + "`"@,
            ComposeErrorV::DuplicateTemplateArgument { template, argument, first, .. } => at
                + ": duplicate argument `"@
                + argument
                + "` for template `"@
                + template
                + "` (first set at "@
                + location(first, files)
                + ")"@,
            ComposeErrorV::TemplateArgumentNotScalar { template, param, .. } => at
                + ": argument `"@
                + param
                + "` for template `"@
                + template
                + "` must be a scalar value (a list/map can't fill a single-value field)"@,
            ComposeErrorV::ArgumentNotReferenceShaped { template, param, .. } => at
                + ": argument `"@
                + param
                + "` for template `"@
                + template
                + "` must be reference-shaped (a bare identifier, a quoted string, or `alias.name`) — found a number"@,
            ComposeErrorV::ArgumentNotNumeric { template, param, found, .. } => at
                + ": argument `"@
                + param
                + "` for template `"@
                + template
                + "` must be a number (found "@
                + found
                + ")"@,
            ComposeErrorV::ArgumentNotInterpolable { template, param, found, .. } => at
                + ": argument `"@
                + param
                + "` for template `"@
                + template
                + "` can't be interpolated into a string (found "@
                + found
                + ")"@,
            ComposeErrorV::FieldNotNumeric { field, found, .. } => at
                + ": `"@
                + field
                + "` must be a number (found "@
                + found
                + ")"@,
            ComposeErrorV::FieldBaseNotDeclared { base, .. } => at
                + ": `"@
                + base
                + "` names no `network` or `volume` declared in this program, so `"@
                + base
                + ".name` has no name to read — declare one, or write `alias."@
                + base
                + ".name` to read an imported declaration"@,
            ComposeErrorV::FieldBaseNotDeclaration { base, found, .. } => at
                + ": `"@
                + base
                + "` is "@
                + found
                + ", and only a `network` or `volume` declaration carries a name to read — name one of those instead"@,
            ComposeErrorV::UnknownDeclarationField { kind, decl, field, readable, .. } => at
                + ": `"@
                + kind
                + " "@
                + decl
                + "` has no field `"@
                + field
                + "` — a "@
                + kind
                + " exposes "@
                + readable_text(readable),
            ComposeErrorV::DeclarationFieldUnset { kind, decl, field, .. } => at
                + ": `"@
                + kind
                + " "@
                + decl
                + "` sets no `"@
                + field
                + "`, so there is no value to read — set one on the declaration, or write the value here directly"@,
            ComposeErrorV::DeclarationFieldNotAValue { kind, decl, field, what, .. } => at
                + ": `"@
                + kind
                + " "@
                + decl
                + "`'s `"@
                + field
                + "` is "@
                + what
                + ", so it can't fill a value here"@,
            ComposeErrorV::UnknownQualifiedDeclaration { alias, name, .. } => at
                + ": no network or volume `"@
                + name
                + "` in `"@
                + alias
                + "`"@,
            ComposeErrorV::ArgumentCantCarryField { template, param, found, .. } => at
                + ": argument `"@
                + param
                + "` for template `"@
                + template
                + "` must name a `network` or `volume` declaration to read a field off it (found "@
                + found
                + ")"@,
            ComposeErrorV::QualifiedArgumentNotAValue { template, alias, name, .. } => at
                + ": `"@
                + alias
                + "."@
                + name
                + "` names a declaration in `"@
                + alias
                + "`, and template `"@
                + template
                + "` uses it where a plain value belongs — a declaration reference can only be attached by `networks`, or read from (`{{param.name}}`), so pass the field itself (`"@
                + alias
                + "."@
                + name
                + ".name`) instead"@,
            ComposeErrorV::InterpolatedFieldAccessTooDeep { text, .. } => at
                + ": `{{"@
                + text
                + "}}` has too many parts to be a field access — write `{{declaration.name}}`, or `{{alias.declaration.name}}` for an imported declaration"@,
            ComposeErrorV::FieldCollision {
                field,
                first_template,
                second_template,
                first,
                ..
            } => at
                + ": field `"@
                + field
                + "` set by both template `"@
                + first_template
                + "` (at "@
                + location(first, files)
                + ") and template `"@
                + second_template
                + "`—explicit templates must not conflict"@,
            ComposeErrorV::LabelShapeMismatch { key, first_shape, second_shape, first, .. } => at
                + ": `labels` key "@
                + debug_quoted(key)
                + " is "@
                + second_shape
                + " here but "@
                + first_shape
                + " at "@
                + location(first, files)
                + " — a list composes across templates and a single value doesn't, so the two say different things about what this key holds"@,
            ComposeErrorV::MapKeyCollision(details) => at
                + ": `"@
                + details.field
                + "` "@
                + side_text(details.side)
                + " "@
                + debug_quoted(details.key)
                + " set by both template `"@
                + details.first_template
                + "` (at "@
                + location(details.first, files)
                + ") and template `"@
                + details.second_template
                + "`—explicit templates must not conflict"@,
            ComposeErrorV::UnknownAlias { alias, .. } => at
                + ": unknown alias `"@
                + alias
                + "`"@,
            ComposeErrorV::UnsupportedQualifiedReference { field, alias, .. } => at
                + ": `"@
                + field
                + "` doesn't support a qualified reference yet (`"@
                + alias
                + ".` ...)"@,
            ComposeErrorV::UnknownQualifiedNetwork { alias, name, .. } => at
                + ": no network `"@
                + name
                + "` in `"@
                + alias
                + "`"@,
            ComposeErrorV::CollidingImportedNetwork { alias, name, .. } => at
                + ": `"@
                + alias
                + "."@
                + name
                + "` collides with another network named `"@
                + name
                + "` already in scope — networks are resolved by their bare name, so the two can't be told apart; rename one of them"@,
            ComposeErrorV::UnknownQualifiedVolume { alias, name, .. } => at
                + ": no volume `"@
                + name
                + "` in `"@
                + alias
                + "`"@,
            ComposeErrorV::CollidingImportedVolume { alias, name, .. } => at
                + ": `"@
                + alias
                + "."@
                + name
                + "` collides with another volume named `"@
                + name
                + "` already in scope — volumes are resolved by their bare name, so the two can't be told apart; rename one of them"@,
        }
    }
}

/// How a diagnostic names one side of a map entry.
pub open spec fn side_text(side: MapSide) -> Seq<char> {
    match side {
        MapSide::Key => "key"@,
        MapSide::Value => "value"@,
    }
}

/// How a diagnostic names one side of a map entry.
pub(crate) fn side_name(side: MapSide) -> (r: &'static str)
    ensures
        r@ == side_text(side),
{
    match side {
        MapSide::Key => "key",
        MapSide::Value => "value",
    }
}

/// Names, each in backticks.
pub open spec fn backticked(names: Seq<Seq<char>>) -> Seq<Seq<char>> {
    names.map_values(|name: Seq<char>| "`"@ + name + "`"@)
}

/// A kind's readable fields as a sentence lists them: each in backticks,
/// the last behind `and`, the others with commas between them.
pub open spec fn readable_text(fields: Seq<Seq<char>>) -> Seq<char> {
    let quoted = backticked(fields);
    if fields.len() == 0 {
        "no fields"@
    } else if fields.len() == 1 {
        quoted[0]
    } else {
        texts_joined(quoted.drop_last(), ", "@) + " and "@ + quoted.last()
    }
}

/// Lists a kind's readable fields the way a sentence wants them.
pub fn readable_field_list(fields: &Vec<&'static str>) -> (r: String)
    ensures
        r@ == readable_text(fields.deep_view()),
{
    let mut quoted: Vec<String> = Vec::new();
    let ghost wanted = backticked(fields.deep_view());
    let mut i: usize = 0;
    while i < fields.len()
        invariant
            i <= fields@.len(),
            wanted == backticked(fields.deep_view()),
            quoted.deep_view() == wanted.take(i as int),
        decreases fields@.len() - i,
    {
        let mut name = "`".to_owned();
        name.append(fields[i]);
        name.append("`");
        crate::deep::push_to(&mut quoted, name);
        assert(quoted.deep_view() =~= wanted.take(i + 1));
        i = i + 1;
    }
    assert(quoted.deep_view() =~= wanted);
    match quoted.pop() {
        None => "no fields".to_owned(),
        Some(last) => {
            assert(quoted.deep_view() =~= wanted.drop_last());
            assert(last@ == wanted.last());
            if quoted.len() == 0 {
                last
            } else {
                let mut out = join_texts(&quoted, ", ");
                out.append(" and ");
                out.append(last.as_str());
                out
            }
        },
    }
}

impl ComposeError {
    /// Where the error lies: of two places, the one that offends.
    pub fn span(&self) -> (r: Span)
        ensures
            r == self.deep_view().span(),
    {
        match self {
            ComposeError::UnknownTemplate { span, .. } => *span,
            ComposeError::DuplicateTemplateName { second, .. } => *second,
            ComposeError::DuplicateServiceName { second, .. } => *second,
            ComposeError::DuplicateNetworkName { second, .. } => *second,
            ComposeError::DuplicateVolumeName { second, .. } => *second,
            ComposeError::TemplateCycle { span, .. } => *span,
            ComposeError::TemplateNestingTooDeep { span, .. } => *span,
            ComposeError::UnknownTemplateArgument { span, .. } => *span,
            ComposeError::MissingTemplateArgument { span, .. } => *span,
            ComposeError::DuplicateTemplateArgument { second, .. } => *second,
            ComposeError::TemplateArgumentNotScalar { span, .. } => *span,
            ComposeError::ArgumentNotReferenceShaped { span, .. } => *span,
            ComposeError::ArgumentNotNumeric { span, .. } => *span,
            ComposeError::ArgumentNotInterpolable { span, .. } => *span,
            ComposeError::FieldNotNumeric { span, .. } => *span,
            ComposeError::FieldBaseNotDeclared { span, .. } => *span,
            ComposeError::FieldBaseNotDeclaration { span, .. } => *span,
            ComposeError::UnknownDeclarationField { span, .. } => *span,
            ComposeError::DeclarationFieldUnset { span, .. } => *span,
            ComposeError::DeclarationFieldNotAValue { span, .. } => *span,
            ComposeError::UnknownQualifiedDeclaration { span, .. } => *span,
            ComposeError::ArgumentCantCarryField { span, .. } => *span,
            ComposeError::QualifiedArgumentNotAValue { span, .. } => *span,
            ComposeError::InterpolatedFieldAccessTooDeep { span, .. } => *span,
            ComposeError::FieldCollision { second, .. } => *second,
            ComposeError::LabelShapeMismatch { second, .. } => *second,
            ComposeError::MapKeyCollision(details) => details.second,
            ComposeError::UnknownAlias { span, .. } => *span,
            ComposeError::UnsupportedQualifiedReference { span, .. } => *span,
            ComposeError::UnknownQualifiedNetwork { span, .. } => *span,
            ComposeError::CollidingImportedNetwork { span, .. } => *span,
            ComposeError::UnknownQualifiedVolume { span, .. } => *span,
            ComposeError::CollidingImportedVolume { span, .. } => *span,
        }
    }

    /// What a diagnostic prints for this error, with the file of each
    /// place in it named where `files` knows it.
    pub fn display(&self, files: &SourceMap) -> (r: String)
        ensures
            r@ == self.deep_view().text(Some(files.deep_view())),
    {
        self.write(Some(files))
    }

    /// What a diagnostic prints for this error when it comes from a
    /// single file: every place by line and column alone.
    pub fn message(&self) -> (r: String)
        ensures
            r@ == self.deep_view().text(None),
    {
        self.write(None)
    }

    fn write(&self, files: Option<&SourceMap>) -> (r: String)
        ensures
            r@ == self.deep_view().text(files.deep_view()),
    {
        let mut out = self.span().locate(files);
        match self {
            ComposeError::UnknownTemplate { name, .. } => {
                out.append(": unknown template `");
                out.append(name.as_str());
                out.append("`");
            },
            ComposeError::DuplicateTemplateName { name, first, .. } => {
                out.append(": duplicate template `");
                out.append(name.as_str());
                out.append("` (first declared at ");
                out.append(first.locate(files).as_str());
                out.append(")");
            },
            ComposeError::DuplicateServiceName { name, first, .. } => {
                out.append(": duplicate service `");
                out.append(name.as_str());
                out.append("` (first declared at ");
                out.append(first.locate(files).as_str());
                out.append(")");
            },
            ComposeError::DuplicateNetworkName { name, first, .. } => {
                out.append(": duplicate network `");
                out.append(name.as_str());
                out.append("` (first declared at ");
                out.append(first.locate(files).as_str());
                out.append(")");
            },
            ComposeError::DuplicateVolumeName { name, first, .. } => {
                out.append(": duplicate volume `");
                out.append(name.as_str());
                out.append("` (first declared at ");
                out.append(first.locate(files).as_str());
                out.append(")");
            },
            ComposeError::TemplateCycle { chain, .. } => {
                out.append(": template composition cycle: ");
                out.append(join_texts(chain, " -> ").as_str());
            },
            ComposeError::TemplateNestingTooDeep { name, limit, .. } => {
                out.append(": `with` nesting deeper than ");
                out.append(decimal_text(*limit as u64).as_str());
                out.append(" levels (reached at template `");
                out.append(name.as_str());
                out.append("`)");
            },
            ComposeError::UnknownTemplateArgument { template, argument, .. } => {
                out.append(": unknown argument `");
                out.append(argument.as_str());
                out.append("` for template `");
                out.append(template.as_str());
                out.append("`");
            },
            ComposeError::MissingTemplateArgument { template, param, .. } => {
                out.append(": missing required argument `");
                out.append(param.as_str());
                out.append("` for template `");
                out.append(template.as_str());
                out.append("`");
            },
            ComposeError::DuplicateTemplateArgument { template, argument, first, .. } => {
                out.append(": duplicate argument `");
                out.append(argument.as_str());
                out.append("` for template `");
                out.append(template.as_str());
                out.append("` (first set at ");
                out.append(first.locate(files).as_str());
                out.append(")");
            },
            ComposeError::TemplateArgumentNotScalar { template, param, .. } => {
                out.append(": argument `");
                out.append(param.as_str());
                out.append("` for template `");
                out.append(template.as_str());
                out.append("` must be a scalar value (a list/map can't fill a single-value field)");
            },
            ComposeError::ArgumentNotReferenceShaped { template, param, .. } => {
                out.append(": argument `");
                out.append(param.as_str());
                out.append("` for template `");
                out.append(template.as_str());
                out.append(
                    "` must be reference-shaped (a bare identifier, a quoted string, or `alias.name`) — found a number",
                );
            },
            ComposeError::ArgumentNotNumeric { template, param, found, .. } => {
                out.append(": argument `");
                out.append(param.as_str());
                out.append("` for template `");
                out.append(template.as_str());
                out.append("` must be a number (found ");
                out.append(found);
                out.append(")");
            },
            ComposeError::ArgumentNotInterpolable { template, param, found, .. } => {
                out.append(": argument `");
                out.append(param.as_str());
                out.append("` for template `");
                out.append(template.as_str());
                out.append("` can't be interpolated into a string (found ");
                out.append(found);
                out.append(")");
            },
            ComposeError::FieldNotNumeric { field, found, .. } => {
                out.append(": `");
                out.append(field);
                out.append("` must be a number (found ");
                out.append(found);
                out.append(")");
            },
            ComposeError::FieldBaseNotDeclared { base, .. } => {
                out.append(": `");
                out.append(base.as_str());
                out.append("` names no `network` or `volume` declared in this program, so `");
                out.append(base.as_str());
                out.append(".name` has no name to read — declare one, or write `alias.");
                out.append(base.as_str());
                out.append(".name` to read an imported declaration");
            },
            ComposeError::FieldBaseNotDeclaration { base, found, .. } => {
                out.append(": `");
                out.append(base.as_str());
                out.append("` is ");
                out.append(found);
                out.append(
                    ", and only a `network` or `volume` declaration carries a name to read — name one of those instead",
                );
            },
            ComposeError::UnknownDeclarationField { kind, decl, field, readable, .. } => {
                out.append(": `");
                out.append(kind);
                out.append(" ");
                out.append(decl.as_str());
                out.append("` has no field `");
                out.append(field.as_str());
                out.append("` — a ");
                out.append(kind);
                out.append(" exposes ");
                out.append(readable_field_list(readable).as_str());
            },
            ComposeError::DeclarationFieldUnset { kind, decl, field, .. } => {
                out.append(": `");
                out.append(kind);
                out.append(" ");
                out.append(decl.as_str());
                out.append("` sets no `");
                out.append(field.as_str());
                out.append(
                    "`, so there is no value to read — set one on the declaration, or write the value here directly",
                );
            },
            ComposeError::DeclarationFieldNotAValue { kind, decl, field, what, .. } => {
                out.append(": `");
                out.append(kind);
                out.append(" ");
                out.append(decl.as_str());
                out.append("`'s `");
                out.append(field.as_str());
                out.append("` is ");
                out.append(what);
                out.append(", so it can't fill a value here");
            },
            ComposeError::UnknownQualifiedDeclaration { alias, name, .. } => {
                out.append(": no network or volume `");
                out.append(name.as_str());
                out.append("` in `");
                out.append(alias.as_str());
                out.append("`");
            },
            ComposeError::ArgumentCantCarryField { template, param, found, .. } => {
                out.append(": argument `");
                out.append(param.as_str());
                out.append("` for template `");
                out.append(template.as_str());
                out.append(
                    "` must name a `network` or `volume` declaration to read a field off it (found ",
                );
                out.append(found);
                out.append(")");
            },
            ComposeError::QualifiedArgumentNotAValue { template, alias, name, .. } => {
                out.append(": `");
                out.append(alias.as_str());
                out.append(".");
                out.append(name.as_str());
                out.append("` names a declaration in `");
                out.append(alias.as_str());
                out.append("`, and template `");
                out.append(template.as_str());
                out.append(
                    "` uses it where a plain value belongs — a declaration reference can only be attached by `networks`, or read from (`{{param.name}}`), so pass the field itself (`",
                );
                out.append(alias.as_str());
                out.append(".");
                out.append(name.as_str());
                out.append(".name`) instead");
            },
            ComposeError::InterpolatedFieldAccessTooDeep { text, .. } => {
                out.append(": `{{");
                out.append(text.as_str());
                out.append(
                    "}}` has too many parts to be a field access — write `{{declaration.name}}`, or `{{alias.declaration.name}}` for an imported declaration",
                );
            },
            ComposeError::FieldCollision { field, first_template, second_template, first, .. } => {
                out.append(": field `");
                out.append(field);
                out.append("` set by both template `");
                out.append(first_template.as_str());
                out.append("` (at ");
                out.append(first.locate(files).as_str());
                out.append(") and template `");
                out.append(second_template.as_str());
                out.append("`—explicit templates must not conflict");
            },
            ComposeError::LabelShapeMismatch { key, first_shape, second_shape, first, .. } => {
                out.append(": `labels` key ");
                out.append(debug_text(key.as_str()).as_str());
                out.append(" is ");
                out.append(second_shape);
                out.append(" here but ");
                out.append(first_shape);
                out.append(" at ");
                out.append(first.locate(files).as_str());
                out.append(
                    " — a list composes across templates and a single value doesn't, so the two say different things about what this key holds",
                );
            },
            ComposeError::MapKeyCollision(details) => {
                out.append(": `");
                out.append(details.field);
                out.append("` ");
                out.append(side_name(details.side));
                out.append(" ");
                out.append(debug_text(details.key.as_str()).as_str());
                out.append(" set by both template `");
                out.append(details.first_template.as_str());
                out.append("` (at ");
                out.append(details.first.locate(files).as_str());
                out.append(") and template `");
                out.append(details.second_template.as_str());
                out.append("`—explicit templates must not conflict");
            },
            ComposeError::UnknownAlias { alias, .. } => {
                out.append(": unknown alias `");
                out.append(alias.as_str());
                out.append("`");
            },
            ComposeError::UnsupportedQualifiedReference { field, alias, .. } => {
                out.append(": `");
                out.append(field);
                out.append("` doesn't support a qualified reference yet (`");
                out.append(alias.as_str());
                out.append(".` ...)");
            },
            ComposeError::UnknownQualifiedNetwork { alias, name, .. } => {
                out.append(": no network `");
                out.append(name.as_str());
                out.append("` in `");
                out.append(alias.as_str());
                out.append("`");
            },
            ComposeError::CollidingImportedNetwork { alias, name, .. } => {
                out.append(": `");
                out.append(alias.as_str());
                out.append(".");
                out.append(name.as_str());
                out.append("` collides with another network named `");
                out.append(name.as_str());
                out.append(
                    "` already in scope — networks are resolved by their bare name, so the two can't be told apart; rename one of them",
                );
            },
            ComposeError::UnknownQualifiedVolume { alias, name, .. } => {
                out.append(": no volume `");
                out.append(name.as_str());
                out.append("` in `");
                out.append(alias.as_str());
                out.append("`");
            },
            ComposeError::CollidingImportedVolume { alias, name, .. } => {
                out.append(": `");
                out.append(alias.as_str());
                out.append(".");
                out.append(name.as_str());
                out.append("` collides with another volume named `");
                out.append(name.as_str());
                out.append(
                    "` already in scope — volumes are resolved by their bare name, so the two can't be told apart; rename one of them",
                );
            },
        }
        out
    }
}

/// An error about two places points at the second, the one that offends.
pub proof fn law_errors_point_at_the_later_place(error: ComposeErrorV)
    ensures
        error matches ComposeErrorV::DuplicateTemplateName { first, second, .. } ==> error.span() == second,
        error matches ComposeErrorV::DuplicateServiceName { first, second, .. } ==> error.span() == second,
        error matches ComposeErrorV::DuplicateNetworkName { first, second, .. } ==> error.span() == second,
        error matches ComposeErrorV::DuplicateVolumeName { first, second, .. } ==> error.span() == second,
        error matches ComposeErrorV::DuplicateTemplateArgument { first, second, .. } ==> error.span() == second,
        error matches ComposeErrorV::FieldCollision { first, second, .. } ==> error.span() == second,
        error matches ComposeErrorV::LabelShapeMismatch { first, second, .. } ==> error.span() == second,
        error matches ComposeErrorV::MapKeyCollision(details) ==> error.span() == details.second,
{
}

} // verus!
