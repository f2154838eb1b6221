//! Which file a source is parsed as changes the file of every place, and
//! nothing else.

use vstd::prelude::*;
use vstd::string::*;

use crate::ast::{
    ArrowMap, ArrowMapEntry, ArrowMapEntryV, ArrowMapHost, ArrowMapHostV, ArrowMapV, Build, BuildV,
    Command, DependsOnCondition, DependsOnEntry, DependsOnEntryV, EnvEntry, EnvEntryV, EnvMap,
    EnvMapV, Expose, ExposeV, FieldAccessV, Healthcheck, HealthcheckV, Ident, IdentV, Image, ImageV,
    LabelEntry, LabelEntryV, LabelMap, LabelMapV, LabelValue, LabelValueV, Literal, LiteralV,
    Network, NetworkV, Param, ParamV, Program, ProgramV, QualifiedRefV, RawEntry, RawEntryV, RawMap,
    RawMapV, RawValue, RawValueV, Restart, RestartV, Service, ServiceFields, ServiceFieldsV,
    ServiceV, ShellOrExecV, TemplateDecl, TemplateDeclV, TemplateInvocation, TemplateInvocationV,
    TopDecl, TopDeclV, UseDecl, UseDeclV, Volume, VolumeDriverOpt, VolumeDriverOptV, VolumeV,
};
use crate::compose::engine::declares_param;
use crate::error::{ExpectedV, ParseErrorV};
use crate::grammar::{
    as_driver_opts, as_mounts, comma_starts_field, command_of, continues_with_field, ends_with_eof,
    entry_index, entry_text, error_in, expected, flag_of, held_dependencies, held_entries,
    held_invocations, held_labels, held_mounts, held_raw, held_references, label_index, lexed_in,
    lowered_decl, lowered_healthcheck, lowered_service_fields, mount_index, mount_text, moved_to,
    pair_index, param_index, past_colon, past_separator, qualified_name, raw_index, read_access,
    read_bare, read_bracketed, read_condition, read_condition_block, read_decl, read_decls,
    read_dependency, read_entries, read_field_value, read_host, read_invocation,
    read_invocation_shorthand, read_items, read_key, read_list, read_list_field, read_literal,
    read_literal_shorthand, read_map, read_map_body, read_map_field, read_nested, read_param,
    read_param_list, read_params, read_program, read_raw_entry, read_raw_items, read_raw_pairs,
    read_raw_value, read_reference, read_scalar_or_list, read_secondary, read_shorthand,
    read_statement, read_statements, read_struct_body, read_template, read_template_name, read_use,
    scalar_of, set_index, set_value, side_of, single_at, single_place, string_literal, struct_of,
    token_in, unexpected, with_entries, with_labels, with_mounts, with_raw_entries, with_value,
    Dependencies, EntrySpec, FieldValueV, FieldsV, Invocations, ItemSpec, LabelEntries,
    LiteralEntries, Literals, MountEntries, Parsed, RawEntries, References, MAX_RAW_VALUE_DEPTH,
};
use crate::place_laws::{
    body_in, fields_located, inside, lemma_bare_in, lemma_bracketed_in, lemma_decl_in,
    lemma_entries_in, lemma_expected_in, lemma_here, lemma_items_in, lemma_key_in, lemma_literal_in,
    lemma_map_body_in, lemma_pair_index, lemma_param_in, lemma_param_list_in, lemma_params_in,
    lemma_past_colon, lemma_place_in, lemma_raw_items_in, lemma_raw_pairs_in, lemma_raw_value_in,
    lemma_reference_in, lemma_secondary_in, lemma_shorthand_in, lemma_statement_in,
    lemma_statements_in, lemma_struct_body_in, EntryLocated, ItemLocated,
};
use crate::schema::{
    field_from, resolution, schema_of, top_level_built_in, BuiltIn, FieldKind, FieldResolutionV,
    MapSide, SchemaKind, TypeSchemaV,
};
use crate::source::{joined, FileId, LexErrorV, Span, Token, TokenKind, TokenV};

verus! {

/// What holds places, and can be moved to another file.
pub trait Movable: DeepView {
    /// The same, with every place in `file`.
    spec fn moved(v: Self::V, file: FileId) -> Self::V;
}

impl Movable for Span {
    open spec fn moved(v: Span, file: FileId) -> Span {
        moved_to(v, file)
    }
}

impl Movable for Token {
    open spec fn moved(v: TokenV, file: FileId) -> TokenV {
        token_in(v, file)
    }
}

impl Movable for DependsOnCondition {
    open spec fn moved(v: DependsOnCondition, file: FileId) -> DependsOnCondition {
        v
    }
}

impl<T: Movable> Movable for Option<T> {
    open spec fn moved(v: Option<T::V>, file: FileId) -> Option<T::V> {
        match v {
            Some(inner) => Some(T::moved(inner, file)),
            None => None,
        }
    }
}

impl<T: Movable> Movable for Vec<T> {
    open spec fn moved(v: Seq<T::V>, file: FileId) -> Seq<T::V> {
        v.map_values(|item: T::V| T::moved(item, file))
    }
}

impl<A: Movable, B: Movable> Movable for (A, B) {
    open spec fn moved(v: (A::V, B::V), file: FileId) -> (A::V, B::V) {
        (A::moved(v.0, file), B::moved(v.1, file))
    }
}

/// A literal, with every place in `file`.
pub open spec fn literal_moved(lit: LiteralV, file: FileId) -> LiteralV
    decreases lit,
{
    match lit {
        LiteralV::Str(text, span) => LiteralV::Str(text, moved_to(span, file)),
        LiteralV::Number { text, value, span } => LiteralV::Number {
            text,
            value,
            span: moved_to(span, file),
        },
        LiteralV::Ident(name, span) => LiteralV::Ident(name, moved_to(span, file)),
        LiteralV::Qualified(q) => LiteralV::Qualified(
            QualifiedRefV {
                qualifier: IdentV { span: moved_to(q.qualifier.span, file), ..q.qualifier },
                name_span: moved_to(q.name_span, file),
                span: moved_to(q.span, file),
                ..q
            },
        ),
        LiteralV::Field(access) => LiteralV::Field(
            Box::new(
                FieldAccessV {
                    base: literal_moved(access.base, file),
                    field: IdentV { span: moved_to(access.field.span, file), ..access.field },
                    span: moved_to(access.span, file),
                },
            ),
        ),
        LiteralV::Param(name, span) => LiteralV::Param(name, moved_to(span, file)),
    }
}

impl Movable for Literal {
    open spec fn moved(v: LiteralV, file: FileId) -> LiteralV {
        literal_moved(v, file)
    }
}

impl Movable for Command {
    open spec fn moved(v: ShellOrExecV, file: FileId) -> ShellOrExecV {
        match v {
            ShellOrExecV::Shell(lit) => ShellOrExecV::Shell(literal_moved(lit, file)),
            ShellOrExecV::Exec(items, span) => ShellOrExecV::Exec(
                Vec::<Literal>::moved(items, file),
                moved_to(span, file),
            ),
        }
    }
}

impl Movable for ArrowMapHost {
    open spec fn moved(v: ArrowMapHostV, file: FileId) -> ArrowMapHostV {
        match v {
            ArrowMapHostV::BindMount(lit) => ArrowMapHostV::BindMount(literal_moved(lit, file)),
            ArrowMapHostV::Named(lit) => ArrowMapHostV::Named(literal_moved(lit, file)),
        }
    }
}

impl Movable for LabelValue {
    open spec fn moved(v: LabelValueV, file: FileId) -> LabelValueV {
        match v {
            LabelValueV::Scalar(lit) => LabelValueV::Scalar(literal_moved(lit, file)),
            LabelValueV::List(items, span) => LabelValueV::List(
                Vec::<Literal>::moved(items, file),
                moved_to(span, file),
            ),
        }
    }
}

/// A raw value, with every place in `file`.
pub open spec fn raw_moved(value: RawValueV, file: FileId) -> RawValueV
    decreases value,
{
    match value {
        RawValueV::Literal(lit) => RawValueV::Literal(literal_moved(lit, file)),
        RawValueV::List(items, span) => RawValueV::List(
            Seq::new(
                items.len(),
                |i: int|
                    if 0 <= i < items.len() {
                        raw_moved(items[i], file)
                    } else {
                        arbitrary()
                    },
            ),
            moved_to(span, file),
        ),
        RawValueV::Mapping(entries, span) => RawValueV::Mapping(
            Seq::new(
                entries.len(),
                |i: int|
                    if 0 <= i < entries.len() {
                        (literal_moved(entries[i].0, file), raw_moved(entries[i].1, file))
                    } else {
                        arbitrary()
                    },
            ),
            moved_to(span, file),
        ),
    }
}

impl Movable for RawValue {
    open spec fn moved(v: RawValueV, file: FileId) -> RawValueV {
        raw_moved(v, file)
    }
}

impl Movable for Ident {
    open spec fn moved(v: IdentV, file: FileId) -> IdentV {
        IdentV {
            span: moved_to(v.span, file),
            ..v
        }
    }
}

impl Movable for Param {
    open spec fn moved(v: ParamV, file: FileId) -> ParamV {
        ParamV {
            name: Ident::moved(v.name, file),
        }
    }
}

impl Movable for DependsOnEntry {
    open spec fn moved(v: DependsOnEntryV, file: FileId) -> DependsOnEntryV {
        DependsOnEntryV {
            reference: Literal::moved(v.reference, file),
            condition: Option::<(DependsOnCondition, Span)>::moved(v.condition, file),
            span: moved_to(v.span, file),
        }
    }
}

impl Movable for Network {
    open spec fn moved(v: NetworkV, file: FileId) -> NetworkV {
        NetworkV {
            name: Ident::moved(v.name, file),
            external: Option::<Span>::moved(v.external, file),
            real_name: Option::<Literal>::moved(v.real_name, file),
            span: moved_to(v.span, file),
        }
    }
}

impl Movable for VolumeDriverOpt {
    open spec fn moved(v: VolumeDriverOptV, file: FileId) -> VolumeDriverOptV {
        VolumeDriverOptV {
            key: Literal::moved(v.key, file),
            value: Literal::moved(v.value, file),
            span: moved_to(v.span, file),
        }
    }
}

impl Movable for Volume {
    open spec fn moved(v: VolumeV, file: FileId) -> VolumeV {
        VolumeV {
            name: Ident::moved(v.name, file),
            external: Option::<Span>::moved(v.external, file),
            real_name: Option::<Literal>::moved(v.real_name, file),
            driver: Option::<Literal>::moved(v.driver, file),
            driver_opts: Vec::<VolumeDriverOpt>::moved(v.driver_opts, file),
            span: moved_to(v.span, file),
        }
    }
}

impl Movable for Image {
    open spec fn moved(v: ImageV, file: FileId) -> ImageV {
        ImageV {
            reference: Option::<Literal>::moved(v.reference, file),
            span: moved_to(v.span, file),
        }
    }
}

impl Movable for Build {
    open spec fn moved(v: BuildV, file: FileId) -> BuildV {
        BuildV {
            context: Option::<Literal>::moved(v.context, file),
            dockerfile: Option::<Literal>::moved(v.dockerfile, file),
            span: moved_to(v.span, file),
        }
    }
}

impl Movable for Expose {
    open spec fn moved(v: ExposeV, file: FileId) -> ExposeV {
        ExposeV {
            port: Option::<Literal>::moved(v.port, file),
            span: moved_to(v.span, file),
        }
    }
}

impl Movable for Restart {
    open spec fn moved(v: RestartV, file: FileId) -> RestartV {
        RestartV {
            policy: Option::<Literal>::moved(v.policy, file),
            span: moved_to(v.span, file),
        }
    }
}

impl Movable for Healthcheck {
    open spec fn moved(v: HealthcheckV, file: FileId) -> HealthcheckV {
        HealthcheckV {
            test: Option::<Command>::moved(v.test, file),
            interval: Option::<Literal>::moved(v.interval, file),
            timeout: Option::<Literal>::moved(v.timeout, file),
            retries: Option::<Literal>::moved(v.retries, file),
            start_period: Option::<Literal>::moved(v.start_period, file),
            start_interval: Option::<Literal>::moved(v.start_interval, file),
            disable: Option::<Span>::moved(v.disable, file),
            span: moved_to(v.span, file),
        }
    }
}

impl Movable for ArrowMapEntry {
    open spec fn moved(v: ArrowMapEntryV, file: FileId) -> ArrowMapEntryV {
        ArrowMapEntryV {
            host: ArrowMapHost::moved(v.host, file),
            container: Literal::moved(v.container, file),
            span: moved_to(v.span, file),
            ..v
        }
    }
}

impl Movable for ArrowMap {
    open spec fn moved(v: ArrowMapV, file: FileId) -> ArrowMapV {
        ArrowMapV {
            entries: Vec::<ArrowMapEntry>::moved(v.entries, file),
        }
    }
}

impl Movable for EnvEntry {
    open spec fn moved(v: EnvEntryV, file: FileId) -> EnvEntryV {
        EnvEntryV {
            key: Literal::moved(v.key, file),
            value: Literal::moved(v.value, file),
            span: moved_to(v.span, file),
        }
    }
}

impl Movable for EnvMap {
    open spec fn moved(v: EnvMapV, file: FileId) -> EnvMapV {
        EnvMapV {
            entries: Vec::<EnvEntry>::moved(v.entries, file),
        }
    }
}

impl Movable for LabelEntry {
    open spec fn moved(v: LabelEntryV, file: FileId) -> LabelEntryV {
        LabelEntryV {
            key: Literal::moved(v.key, file),
            value: LabelValue::moved(v.value, file),
            span: moved_to(v.span, file),
        }
    }
}

impl Movable for LabelMap {
    open spec fn moved(v: LabelMapV, file: FileId) -> LabelMapV {
        LabelMapV {
            entries: Vec::<LabelEntry>::moved(v.entries, file),
        }
    }
}

impl Movable for RawEntry {
    open spec fn moved(v: RawEntryV, file: FileId) -> RawEntryV {
        RawEntryV {
            key: Literal::moved(v.key, file),
            value: RawValue::moved(v.value, file),
            span: moved_to(v.span, file),
        }
    }
}

impl Movable for RawMap {
    open spec fn moved(v: RawMapV, file: FileId) -> RawMapV {
        RawMapV {
            entries: Vec::<RawEntry>::moved(v.entries, file),
        }
    }
}

impl Movable for TemplateInvocation {
    open spec fn moved(v: TemplateInvocationV, file: FileId) -> TemplateInvocationV {
        TemplateInvocationV {
            qualifier: Option::<Ident>::moved(v.qualifier, file),
            name: Ident::moved(v.name, file),
            args: RawMap::moved(v.args, file),
            span: moved_to(v.span, file),
        }
    }
}

impl Movable for ServiceFields {
    open spec fn moved(v: ServiceFieldsV, file: FileId) -> ServiceFieldsV {
        ServiceFieldsV {
            image: Option::<Image>::moved(v.image, file),
            build: Option::<Build>::moved(v.build, file),
            expose: Option::<Expose>::moved(v.expose, file),
            restart: Option::<Restart>::moved(v.restart, file),
            healthcheck: Option::<Healthcheck>::moved(v.healthcheck, file),
            publish: ArrowMap::moved(v.publish, file),
            volumes: ArrowMap::moved(v.volumes, file),
            env: EnvMap::moved(v.env, file),
            labels: LabelMap::moved(v.labels, file),
            raw: RawMap::moved(v.raw, file),
            depends_on: Vec::<DependsOnEntry>::moved(v.depends_on, file),
            networks: Vec::<Literal>::moved(v.networks, file),
            dns: Vec::<Literal>::moved(v.dns, file),
            env_file: Vec::<Literal>::moved(v.env_file, file),
            privileged: Option::<Span>::moved(v.privileged, file),
            devices: ArrowMap::moved(v.devices, file),
            container_name: Option::<Literal>::moved(v.container_name, file),
            command: Option::<Command>::moved(v.command, file),
            entrypoint: Option::<Command>::moved(v.entrypoint, file),
            with: Vec::<TemplateInvocation>::moved(v.with, file),
        }
    }
}

impl Movable for Service {
    open spec fn moved(v: ServiceV, file: FileId) -> ServiceV {
        ServiceV {
            name: Ident::moved(v.name, file),
            fields: ServiceFields::moved(v.fields, file),
            span: moved_to(v.span, file),
        }
    }
}

impl Movable for TemplateDecl {
    open spec fn moved(v: TemplateDeclV, file: FileId) -> TemplateDeclV {
        TemplateDeclV {
            name: Ident::moved(v.name, file),
            params: Vec::<Param>::moved(v.params, file),
            fields: ServiceFields::moved(v.fields, file),
            span: moved_to(v.span, file),
        }
    }
}

impl Movable for UseDecl {
    open spec fn moved(v: UseDeclV, file: FileId) -> UseDeclV {
        UseDeclV {
            path: Literal::moved(v.path, file),
            alias: Ident::moved(v.alias, file),
            span: moved_to(v.span, file),
        }
    }
}

impl Movable for Program {
    open spec fn moved(v: ProgramV, file: FileId) -> ProgramV {
        ProgramV {
            decls: Vec::<TopDecl>::moved(v.decls, file),
        }
    }
}

impl Movable for TopDecl {
    open spec fn moved(v: TopDeclV, file: FileId) -> TopDeclV {
        match v {
            TopDeclV::Network(n) => TopDeclV::Network(Network::moved(n, file)),
            TopDeclV::Volume(d) => TopDeclV::Volume(Volume::moved(d, file)),
            TopDeclV::Service(s) => TopDeclV::Service(Service::moved(s, file)),
            TopDeclV::Template(t) => TopDeclV::Template(TemplateDecl::moved(t, file)),
            TopDeclV::Use(u) => TopDeclV::Use(UseDecl::moved(u, file)),
        }
    }
}

/// An error, with every place in `file`.
pub open spec fn error_moved(error: ParseErrorV, file: FileId) -> ParseErrorV {
    match error {
        ParseErrorV::Lex(errors) => ParseErrorV::Lex(
            errors.map_values(|error: LexErrorV| error_in(error, file)),
        ),
        ParseErrorV::UnexpectedToken {
            expected,
            found_kind,
            found_lexeme,
            span,
        } => ParseErrorV::UnexpectedToken {
            expected,
            found_kind,
            found_lexeme,
            span: moved_to(span, file),
        },
        ParseErrorV::UnknownTopLevelType { name, span } => ParseErrorV::UnknownTopLevelType {
            name,
            span: moved_to(span, file),
        },
        ParseErrorV::UnknownField {
            on_type,
            field,
            raw_escape_hatch,
            span,
        } => ParseErrorV::UnknownField {
            on_type,
            field,
            raw_escape_hatch,
            span: moved_to(span, file),
        },
        ParseErrorV::MovedField { on_type, field, guidance, span } => ParseErrorV::MovedField {
            on_type,
            field,
            guidance,
            span: moved_to(span, file),
        },
        ParseErrorV::RemovedExposeAsSugar { span } => ParseErrorV::RemovedExposeAsSugar {
            span: moved_to(span, file),
        },
        ParseErrorV::DuplicateField {
            on_type,
            field,
            first,
            second,
        } => ParseErrorV::DuplicateField {
            on_type,
            field,
            first: moved_to(first, file),
            second: moved_to(second, file),
        },
        ParseErrorV::DuplicateMapKey {
            on_type,
            side,
            value,
            first,
            second,
        } => ParseErrorV::DuplicateMapKey {
            on_type,
            side,
            value,
            first: moved_to(first, file),
            second: moved_to(second, file),
        },
        ParseErrorV::NumberOutOfRange { text, span } => ParseErrorV::NumberOutOfRange {
            text,
            span: moved_to(span, file),
        },
        ParseErrorV::DuplicateTemplateParam {
            param,
            first,
            second,
        } => ParseErrorV::DuplicateTemplateParam {
            param,
            first: moved_to(first, file),
            second: moved_to(second, file),
        },
        ParseErrorV::UnknownParamType { name, span } => ParseErrorV::UnknownParamType {
            name,
            span: moved_to(span, file),
        },
        ParseErrorV::ParamReferenceOutsideTemplate {
            name,
            span,
        } => ParseErrorV::ParamReferenceOutsideTemplate {
            name,
            span: moved_to(span, file),
        },
        ParseErrorV::UnknownTemplateParam { name, span } => ParseErrorV::UnknownTemplateParam {
            name,
            span: moved_to(span, file),
        },
        ParseErrorV::RawValueTooDeep { limit, span } => ParseErrorV::RawValueTooDeep {
            limit,
            span: moved_to(span, file),
        },
        ParseErrorV::AliasSugarCannotContinue {
            on_type,
            keyword,
            primary_field,
            alias_field,
            span,
        } => ParseErrorV::AliasSugarCannotContinue {
            on_type,
            keyword,
            primary_field,
            alias_field,
            span: moved_to(span, file),
        },
        ParseErrorV::MapEntryMissingSeparator {
            on_type,
            separator,
            span,
        } => ParseErrorV::MapEntryMissingSeparator {
            on_type,
            separator,
            span: moved_to(span, file),
        },
        ParseErrorV::InvalidDependsOnCondition {
            found,
            span,
        } => ParseErrorV::InvalidDependsOnCondition {
            found,
            span: moved_to(span, file),
        },
        ParseErrorV::MatchExprTooDeep { limit, span } => ParseErrorV::MatchExprTooDeep {
            limit,
            span: moved_to(span, file),
        },
        ParseErrorV::UnknownMatcher { name, span } => ParseErrorV::UnknownMatcher {
            name,
            span: moved_to(span, file),
        },
        ParseErrorV::MatcherArity { name, expected, found, span } => ParseErrorV::MatcherArity {
            name,
            expected,
            found,
            span: moved_to(span, file),
        },
    }
}

/// What was read, with every place in `file`.
pub open spec fn moved_read<T: Movable>(r: Parsed<T::V>, file: FileId) -> Parsed<T::V> {
    match r {
        Ok((v, next)) => Ok((T::moved(v, file), next)),
        Err(error) => Err(error_moved(error, file)),
    }
}

/// Tokens, with every place in `file`.
pub open spec fn moved_tokens(ts: Seq<TokenV>, file: FileId) -> Seq<TokenV> {
    Vec::<Token>::moved(ts, file)
}

/// The parameters in scope, with every place in `file`.
pub open spec fn moved_params(params: Option<Seq<ParamV>>, file: FileId) -> Option<Seq<ParamV>> {
    Option::<Vec<Param>>::moved(params, file)
}

proof fn lemma_moved_push<T: Movable>(v: Seq<T::V>, item: T::V, file: FileId)
    ensures
        Vec::<T>::moved(v.push(item), file) == Vec::<T>::moved(v, file).push(T::moved(item, file)),
{
    assert(Vec::<T>::moved(v.push(item), file) =~= Vec::<T>::moved(v, file).push(
        T::moved(item, file),
    ));
}

proof fn lemma_moved_empty<T: Movable>(file: FileId)
    ensures
        Vec::<T>::moved(Seq::empty(), file) == Seq::<T::V>::empty(),
{
    assert(Vec::<T>::moved(Seq::empty(), file) =~= Seq::<T::V>::empty());
}

proof fn lemma_moved_join<T: Movable>(a: Seq<T::V>, b: Seq<T::V>, file: FileId)
    ensures
        Vec::<T>::moved(a + b, file) == Vec::<T>::moved(a, file) + Vec::<T>::moved(b, file),
{
    assert(Vec::<T>::moved(a + b, file) =~= Vec::<T>::moved(a, file) + Vec::<T>::moved(b, file));
}

proof fn lemma_literal_moved(lit: LiteralV, file: FileId)
    ensures
        literal_moved(lit, file).span() == moved_to(lit.span(), file),
        literal_moved(lit, file).text() == lit.text(),
        (literal_moved(lit, file) is Ident) == (lit is Ident),
    decreases lit,
{
    if let LiteralV::Field(access) = lit {
        lemma_literal_moved(access.base, file);
    }
}

proof fn lemma_raw_moved(value: RawValueV, file: FileId)
    ensures
        raw_moved(value, file).span() == moved_to(value.span(), file),
        value matches RawValueV::List(items, span) ==> raw_moved(value, file) == RawValueV::List(
            Vec::<RawValue>::moved(items, file),
            moved_to(span, file),
        ),
{
    match value {
        RawValueV::Literal(lit) => {
            lemma_literal_moved(lit, file);
        },
        RawValueV::List(items, span) => {
            assert(raw_moved(value, file)->List_0 =~= Vec::<RawValue>::moved(items, file));
        },
        _ => {},
    }
}

proof fn lemma_token_moves(ts: Seq<TokenV>, p: int, home: FileId, file: FileId)
    requires
        inside(ts, p, home),
    ensures
        moved_tokens(ts, file).len() == ts.len(),
        moved_tokens(ts, file)[p] == token_in(ts[p], file),
        ts[p].kind != TokenKind::Eof ==> p + 1 < ts.len() && moved_tokens(ts, file)[p + 1]
            == token_in(ts[p + 1], file),
        p > 0 ==> moved_tokens(ts, file)[p - 1] == token_in(ts[p - 1], file),
        forall|wanted: ExpectedV| #[trigger]
            unexpected(moved_tokens(ts, file), p, wanted) == error_moved(
                unexpected(ts, p, wanted),
                file,
            ),
{
    lemma_here(ts, p, home);
}

proof fn lemma_expected_moves(
    ts: Seq<TokenV>,
    p: int,
    kind: TokenKind,
    home: FileId,
    file: FileId,
)
    requires
        inside(ts, p, home),
        kind != TokenKind::Eof,
    ensures
        expected(moved_tokens(ts, file), p, kind) == moved_read::<Token>(
            expected(ts, p, kind),
            file,
        ),
        expected(ts, p, kind) matches Ok((tok, next)) ==> tok == ts[p] && next == p + 1 && next
            < ts.len(),
{
    lemma_expected_in(ts, p, kind, home);
    lemma_token_moves(ts, p, home, file);
}

proof fn lemma_string_moves(tok: TokenV, file: FileId)
    ensures
        string_literal(token_in(tok, file)) == match string_literal(tok) {
            Ok(lit) => Ok(literal_moved(lit, file)),
            Err(error) => Err(error_moved(error, file)),
        },
{
    if let Err(error) = tok.content {
        assert(seq![error_in(error, file)] =~= seq![error].map_values(
            |error: LexErrorV| error_in(error, file),
        ));
    }
}

proof fn lemma_declares_moves(params: Seq<ParamV>, name: Seq<char>, i: int, file: FileId)
    requires
        0 <= i,
    ensures
        declares_param(Vec::<Param>::moved(params, file), name, i) == declares_param(
            params,
            name,
            i,
        ),
    decreases params.len() - i,
{
    if i < params.len() {
        lemma_declares_moves(params, name, i + 1, file);
    }
}

proof fn lemma_param_moves(
    ts: Seq<TokenV>,
    p: int,
    params: Option<Seq<ParamV>>,
    home: FileId,
    file: FileId,
)
    requires
        inside(ts, p, home),
        ts[p].kind == TokenKind::Dollar,
    ensures
        read_param(moved_tokens(ts, file), p, moved_params(params, file)) == moved_read::<Literal>(
            read_param(ts, p, params),
            file,
        ),
{
    lemma_token_moves(ts, p, home, file);
    lemma_expected_moves(ts, p + 1, TokenKind::Ident, home, file);
    if let Some(declared) = params {
        lemma_declares_moves(declared, ts[p + 1].lexeme, 0, file);
    }
}

proof fn lemma_access_moves(
    ts: Seq<TokenV>,
    p: int,
    base: LiteralV,
    home: FileId,
    file: FileId,
)
    requires
        inside(ts, p, home),
        ts[p].kind == TokenKind::Dot,
    ensures
        read_access(moved_tokens(ts, file), p, literal_moved(base, file)) == moved_read::<Literal>(
            read_access(ts, p, base),
            file,
        ),
{
    lemma_token_moves(ts, p, home, file);
    lemma_expected_moves(ts, p + 1, TokenKind::Ident, home, file);
    lemma_literal_moved(base, file);
}

proof fn lemma_literal_moves(
    ts: Seq<TokenV>,
    p: int,
    params: Option<Seq<ParamV>>,
    home: FileId,
    file: FileId,
)
    requires
        inside(ts, p, home),
    ensures
        read_literal(moved_tokens(ts, file), p, moved_params(params, file)) == moved_read::<
            Literal,
        >(read_literal(ts, p, params), file),
{
    let mt = moved_tokens(ts, file);
    lemma_token_moves(ts, p, home, file);
    lemma_string_moves(ts[p], file);
    if ts[p].kind == TokenKind::Dollar {
        lemma_param_in(ts, p, params, home);
        lemma_param_moves(ts, p, params, home, file);
        if let Ok((param, next)) = read_param(ts, p, params) {
            lemma_token_moves(ts, next, home, file);
            if ts[next].kind == TokenKind::Dot {
                lemma_access_moves(ts, next, param, home, file);
            }
        }
    }
    if ts[p].kind == TokenKind::Ident {
        lemma_token_moves(ts, p + 1, home, file);
        if ts[p + 1].kind == TokenKind::Dot {
            lemma_expected_moves(ts, p + 2, TokenKind::Ident, home, file);
            let bare = LiteralV::Ident(ts[p].lexeme, ts[p].span);
            lemma_access_moves(ts, p + 1, bare, home, file);
            if let Ok((second, next)) = expected(ts, p + 2, TokenKind::Ident) {
                lemma_token_moves(ts, next, home, file);
                if ts[next].kind == TokenKind::Dot {
                    let base = qualified_name(ts[p], second);
                    lemma_access_moves(ts, next, base, home, file);
                    assert(literal_moved(base, file) == qualified_name(
                        token_in(ts[p], file),
                        token_in(second, file),
                    ));
                }
            }
        }
    }
}

proof fn lemma_key_moves(ts: Seq<TokenV>, p: int, home: FileId, file: FileId)
    requires
        inside(ts, p, home),
    ensures
        read_key(moved_tokens(ts, file), p) == moved_read::<Literal>(read_key(ts, p), file),
{
    lemma_token_moves(ts, p, home, file);
    lemma_string_moves(ts[p], file);
}

proof fn lemma_reference_moves(
    ts: Seq<TokenV>,
    p: int,
    params: Option<Seq<ParamV>>,
    home: FileId,
    file: FileId,
)
    requires
        inside(ts, p, home),
    ensures
        read_reference(moved_tokens(ts, file), p, moved_params(params, file)) == moved_read::<
            Literal,
        >(read_reference(ts, p, params), file),
{
    lemma_token_moves(ts, p, home, file);
    lemma_key_in(ts, p, home);
    lemma_key_moves(ts, p, home, file);
    if ts[p].kind == TokenKind::Dollar {
        lemma_param_moves(ts, p, params, home, file);
    } else if let Ok((key, next)) = read_key(ts, p) {
        lemma_literal_moved(key, file);
        lemma_token_moves(ts, next, home, file);
        if ts[next].kind == TokenKind::Dot {
            lemma_expected_moves(ts, next + 1, TokenKind::Ident, home, file);
        }
    }
}

proof fn lemma_comma_moves(ts: Seq<TokenV>, p: int, home: FileId, file: FileId)
    requires
        inside(ts, p, home),
        ts[p].kind == TokenKind::Comma,
    ensures
        comma_starts_field(moved_tokens(ts, file), p) == comma_starts_field(ts, p),
{
    lemma_token_moves(ts, p, home, file);
    lemma_token_moves(ts, p + 1, home, file);
}

/// Items that move with their tokens.
pub trait ItemMoves: ItemLocated {
    type Moving: Movable<V = <Self as ItemSpec>::V>;

    /// An item read in another file is the item, moved.
    proof fn lemma_item_moves(
        ts: Seq<TokenV>,
        p: int,
        params: Option<Seq<ParamV>>,
        home: FileId,
        file: FileId,
    )
        requires
            inside(ts, p, home),
        ensures
            Self::item(moved_tokens(ts, file), p, moved_params(params, file)) == moved_read::<
                Self::Moving,
            >(Self::item(ts, p, params), file),
    ;
}

impl ItemMoves for References {
    type Moving = Literal;

    proof fn lemma_item_moves(
        ts: Seq<TokenV>,
        p: int,
        params: Option<Seq<ParamV>>,
        home: FileId,
        file: FileId,
    ) {
        lemma_reference_moves(ts, p, params, home, file);
    }
}

impl ItemMoves for Literals {
    type Moving = Literal;

    proof fn lemma_item_moves(
        ts: Seq<TokenV>,
        p: int,
        params: Option<Seq<ParamV>>,
        home: FileId,
        file: FileId,
    ) {
        lemma_literal_moves(ts, p, params, home, file);
    }
}

impl ItemMoves for Dependencies {
    type Moving = DependsOnEntry;

    proof fn lemma_item_moves(
        ts: Seq<TokenV>,
        p: int,
        params: Option<Seq<ParamV>>,
        home: FileId,
        file: FileId,
    ) {
        lemma_dependency_moves(ts, p, params, home, file);
    }
}

impl ItemMoves for Invocations {
    type Moving = TemplateInvocation;

    proof fn lemma_item_moves(
        ts: Seq<TokenV>,
        p: int,
        params: Option<Seq<ParamV>>,
        home: FileId,
        file: FileId,
    ) {
        lemma_invocation_moves(ts, p, params, home, file);
    }
}

proof fn lemma_items_moves<K: ItemMoves>(
    ts: Seq<TokenV>,
    p: int,
    params: Option<Seq<ParamV>>,
    before: Seq<<K as ItemSpec>::V>,
    home: FileId,
    file: FileId,
)
    requires
        inside(ts, p, home),
    ensures
        read_items::<K>(
            moved_tokens(ts, file),
            p,
            moved_params(params, file),
            Vec::<K::Moving>::moved(before, file),
        ) == moved_read::<Vec<K::Moving>>(read_items::<K>(ts, p, params, before), file),
    decreases ts.len() - p,
{
    K::lemma_item_in(ts, p, params, home);
    K::lemma_item_moves(ts, p, params, home, file);
    if let Ok((item, next)) = K::item(ts, p, params) {
        lemma_moved_push::<K::Moving>(before, item, file);
        lemma_token_moves(ts, next, home, file);
        if ts[next].kind == TokenKind::Comma {
            lemma_items_moves::<K>(ts, next + 1, params, before.push(item), home, file);
        }
    }
}

proof fn lemma_bracketed_moves<K: ItemMoves>(
    ts: Seq<TokenV>,
    p: int,
    params: Option<Seq<ParamV>>,
    home: FileId,
    file: FileId,
)
    requires
        inside(ts, p, home),
    ensures
        read_bracketed::<K>(moved_tokens(ts, file), p, moved_params(params, file)) == moved_read::<
            (Vec<K::Moving>, Span),
        >(read_bracketed::<K>(ts, p, params), file),
{
    lemma_moved_empty::<K::Moving>(file);
    lemma_expected_moves(ts, p, TokenKind::LBracket, home, file);
    if let Ok((_, first)) = expected(ts, p, TokenKind::LBracket) {
        lemma_token_moves(ts, first, home, file);
        lemma_items_in::<K>(ts, first, params, Seq::empty(), home);
        lemma_items_moves::<K>(ts, first, params, Seq::empty(), home, file);
        if ts[first].kind == TokenKind::RBracket {
            lemma_expected_moves(ts, first, TokenKind::RBracket, home, file);
        } else if let Ok((_, last)) = read_items::<K>(ts, first, params, Seq::empty()) {
            lemma_expected_moves(ts, last, TokenKind::RBracket, home, file);
        }
    }
}

proof fn lemma_bare_moves<K: ItemMoves>(
    ts: Seq<TokenV>,
    p: int,
    params: Option<Seq<ParamV>>,
    before: Seq<<K as ItemSpec>::V>,
    home: FileId,
    file: FileId,
)
    requires
        inside(ts, p, home),
    ensures
        read_bare::<K>(
            moved_tokens(ts, file),
            p,
            moved_params(params, file),
            Vec::<K::Moving>::moved(before, file),
        ) == moved_read::<Vec<K::Moving>>(read_bare::<K>(ts, p, params, before), file),
    decreases ts.len() - p,
{
    K::lemma_item_in(ts, p, params, home);
    K::lemma_item_moves(ts, p, params, home, file);
    if let Ok((item, next)) = K::item(ts, p, params) {
        lemma_moved_push::<K::Moving>(before, item, file);
        lemma_token_moves(ts, next, home, file);
        if ts[next].kind == TokenKind::Comma {
            lemma_comma_moves(ts, next, home, file);
            lemma_bare_moves::<K>(ts, next + 1, params, before.push(item), home, file);
        }
    }
}

proof fn lemma_list_moves<K: ItemMoves>(
    ts: Seq<TokenV>,
    p: int,
    params: Option<Seq<ParamV>>,
    home: FileId,
    file: FileId,
)
    requires
        inside(ts, p, home),
    ensures
        read_list::<K>(moved_tokens(ts, file), p, moved_params(params, file)) == moved_read::<
            Vec<K::Moving>,
        >(read_list::<K>(ts, p, params), file),
{
    lemma_moved_empty::<K::Moving>(file);
    lemma_past_colon(ts, p, home);
    let start = past_colon(ts, p);
    lemma_token_moves(ts, p, home, file);
    lemma_token_moves(ts, start, home, file);
    lemma_bracketed_moves::<K>(ts, start, params, home, file);
    lemma_bare_moves::<K>(ts, start, params, Seq::empty(), home, file);
}

proof fn lemma_command_moves(
    ts: Seq<TokenV>,
    p: int,
    params: Option<Seq<ParamV>>,
    home: FileId,
    file: FileId,
)
    requires
        inside(ts, p, home),
    ensures
        read_scalar_or_list(moved_tokens(ts, file), p, moved_params(params, file)) == moved_read::<
            Command,
        >(read_scalar_or_list(ts, p, params), file),
{
    lemma_past_colon(ts, p, home);
    let start = past_colon(ts, p);
    lemma_token_moves(ts, p, home, file);
    lemma_token_moves(ts, start, home, file);
    lemma_bracketed_moves::<Literals>(ts, start, params, home, file);
    lemma_literal_moves(ts, start, params, home, file);
}

proof fn lemma_condition_block_moves(ts: Seq<TokenV>, p: int, home: FileId, file: FileId)
    requires
        inside(ts, p, home),
    ensures
        read_condition_block(moved_tokens(ts, file), p) == moved_read::<
            ((DependsOnCondition, Span), Span),
        >(read_condition_block(ts, p), file),
{
    lemma_expected_moves(ts, p, TokenKind::Ident, home, file);
    if let Ok((key, after_key)) = expected(ts, p, TokenKind::Ident) {
        lemma_expected_moves(ts, after_key, TokenKind::Colon, home, file);
        if let Ok((_, after_colon)) = expected(ts, after_key, TokenKind::Colon) {
            lemma_token_moves(ts, after_colon, home, file);
            if let Ok((_, after)) = read_condition(ts, after_colon) {
                lemma_expected_moves(ts, after, TokenKind::RBrace, home, file);
            }
        }
    }
}

proof fn lemma_dependency_moves(
    ts: Seq<TokenV>,
    p: int,
    params: Option<Seq<ParamV>>,
    home: FileId,
    file: FileId,
)
    requires
        inside(ts, p, home),
    ensures
        read_dependency(moved_tokens(ts, file), p, moved_params(params, file)) == moved_read::<
            DependsOnEntry,
        >(read_dependency(ts, p, params), file),
{
    lemma_reference_in(ts, p, params, home);
    lemma_reference_moves(ts, p, params, home, file);
    if let Ok((reference, next)) = read_reference(ts, p, params) {
        lemma_literal_moved(reference, file);
        lemma_token_moves(ts, next, home, file);
        if ts[next].kind == TokenKind::LBrace {
            lemma_condition_block_moves(ts, next + 1, home, file);
        }
    }
}

/// Pairs, with every place in `file`.
pub open spec fn moved_pairs(pairs: Seq<(LiteralV, RawValueV)>, file: FileId) -> Seq<
    (LiteralV, RawValueV),
> {
    Seq::new(
        pairs.len(),
        |i: int|
            if 0 <= i < pairs.len() {
                (literal_moved(pairs[i].0, file), raw_moved(pairs[i].1, file))
            } else {
                arbitrary()
            },
    )
}

proof fn lemma_pair_index_moves(
    pairs: Seq<(LiteralV, RawValueV)>,
    key: Seq<char>,
    i: int,
    file: FileId,
)
    requires
        0 <= i <= pairs.len(),
    ensures
        pair_index(moved_pairs(pairs, file), key, i) == pair_index(pairs, key, i),
    decreases pairs.len() - i,
{
    if i < pairs.len() {
        lemma_literal_moved(pairs[i].0, file);
        lemma_pair_index_moves(pairs, key, i + 1, file);
    }
}

proof fn lemma_raw_value_moves(
    ts: Seq<TokenV>,
    p: int,
    params: Option<Seq<ParamV>>,
    depth: int,
    home: FileId,
    file: FileId,
)
    requires
        inside(ts, p, home),
    ensures
        read_raw_value(moved_tokens(ts, file), p, moved_params(params, file), depth)
            == moved_read::<RawValue>(read_raw_value(ts, p, params, depth), file),
    decreases ts.len() - p, 0int,
{
    lemma_token_moves(ts, p, home, file);
    lemma_literal_moves(ts, p, params, home, file);
    lemma_moved_empty::<RawValue>(file);
    if !(depth + 1 > MAX_RAW_VALUE_DEPTH) && p + 1 < ts.len() {
        if ts[p].kind == TokenKind::LBracket {
            lemma_raw_items_in(ts, p + 1, params, depth + 1, Seq::empty(), home);
            lemma_raw_items_moves(ts, p + 1, params, depth + 1, Seq::empty(), home, file);
            if ts[p + 1].kind == TokenKind::RBracket {
                lemma_expected_moves(ts, p + 1, TokenKind::RBracket, home, file);
            } else if let Ok((_, last)) = read_raw_items(
                ts,
                p + 1,
                params,
                depth + 1,
                Seq::empty(),
            ) {
                lemma_expected_moves(ts, last, TokenKind::RBracket, home, file);
            }
            if let Ok((value, _)) = read_raw_value(ts, p, params, depth) {
                lemma_raw_moved(value, file);
            }
        } else if ts[p].kind == TokenKind::LBrace {
            assert(moved_pairs(Seq::empty(), file) =~= Seq::empty());
            lemma_raw_pairs_in(ts, p + 1, params, depth + 1, Seq::empty(), home);
            lemma_raw_pairs_moves(ts, p + 1, params, depth + 1, Seq::empty(), home, file);
            if let Ok((_, last)) = read_raw_pairs(ts, p + 1, params, depth + 1, Seq::empty()) {
                lemma_expected_moves(ts, last, TokenKind::RBrace, home, file);
            }
            if let Ok((RawValueV::Mapping(pairs, span), _)) = read_raw_value(ts, p, params, depth) {
                assert(raw_moved(RawValueV::Mapping(pairs, span), file)->Mapping_0 =~= moved_pairs(
                    pairs,
                    file,
                ));
            }
        }
    }
}

proof fn lemma_raw_items_moves(
    ts: Seq<TokenV>,
    p: int,
    params: Option<Seq<ParamV>>,
    depth: int,
    before: Seq<RawValueV>,
    home: FileId,
    file: FileId,
)
    requires
        inside(ts, p, home),
    ensures
        read_raw_items(
            moved_tokens(ts, file),
            p,
            moved_params(params, file),
            depth,
            Vec::<RawValue>::moved(before, file),
        ) == moved_read::<Vec<RawValue>>(read_raw_items(ts, p, params, depth, before), file),
    decreases ts.len() - p, 1int,
{
    lemma_raw_value_in(ts, p, params, depth, home);
    lemma_raw_value_moves(ts, p, params, depth, home, file);
    if let Ok((item, next)) = read_raw_value(ts, p, params, depth) {
        lemma_moved_push::<RawValue>(before, item, file);
        lemma_token_moves(ts, next, home, file);
        if ts[next].kind == TokenKind::Comma {
            lemma_raw_items_moves(ts, next + 1, params, depth, before.push(item), home, file);
        }
    }
}

proof fn lemma_raw_pairs_moves(
    ts: Seq<TokenV>,
    p: int,
    params: Option<Seq<ParamV>>,
    depth: int,
    before: Seq<(LiteralV, RawValueV)>,
    home: FileId,
    file: FileId,
)
    requires
        inside(ts, p, home),
    ensures
        read_raw_pairs(
            moved_tokens(ts, file),
            p,
            moved_params(params, file),
            depth,
            moved_pairs(before, file),
        ) == match read_raw_pairs(ts, p, params, depth, before) {
            Ok((pairs, next)) => Ok((moved_pairs(pairs, file), next)),
            Err(error) => Err(error_moved(error, file)),
        },
    decreases ts.len() - p, 1int,
{
    lemma_token_moves(ts, p, home, file);
    if ts[p].kind != TokenKind::RBrace {
        lemma_key_in(ts, p, home);
        lemma_key_moves(ts, p, home, file);
        if let Ok((key, after_key)) = read_key(ts, p) {
            lemma_literal_moved(key, file);
            lemma_expected_moves(ts, after_key, TokenKind::Colon, home, file);
            if let Ok((_, after_colon)) = expected(ts, after_key, TokenKind::Colon) {
                lemma_raw_value_in(ts, after_colon, params, depth, home);
                lemma_raw_value_moves(ts, after_colon, params, depth, home, file);
                if let Ok((value, after)) = read_raw_value(ts, after_colon, params, depth) {
                    lemma_token_moves(ts, after, home, file);
                    lemma_pair_index(before, key.text(), 0);
                    lemma_pair_index_moves(before, key.text(), 0, file);
                    let at = pair_index(before, key.text(), 0);
                    if at < before.len() {
                        lemma_literal_moved(before[at].0, file);
                    }
                    let next = if ts[after].kind == TokenKind::Comma {
                        after + 1
                    } else {
                        after
                    };
                    let all = before.push((key, value));
                    assert(moved_pairs(all, file) =~= moved_pairs(before, file).push(
                        (literal_moved(key, file), raw_moved(value, file)),
                    ));
                    lemma_raw_pairs_moves(ts, next, params, depth, all, home, file);
                }
            }
        }
    }
}

proof fn lemma_raw_entry_moves(
    ts: Seq<TokenV>,
    p: int,
    params: Option<Seq<ParamV>>,
    home: FileId,
    file: FileId,
)
    requires
        inside(ts, p, home),
    ensures
        read_raw_entry(moved_tokens(ts, file), p, moved_params(params, file)) == moved_read::<
            RawEntry,
        >(read_raw_entry(ts, p, params), file),
{
    lemma_key_in(ts, p, home);
    lemma_key_moves(ts, p, home, file);
    if let Ok((key, after_key)) = read_key(ts, p) {
        lemma_literal_moved(key, file);
        lemma_expected_moves(ts, after_key, TokenKind::Colon, home, file);
        if let Ok((_, after_colon)) = expected(ts, after_key, TokenKind::Colon) {
            lemma_raw_value_moves(ts, after_colon, params, 0, home, file);
            if let Ok((value, _)) = read_raw_value(ts, after_colon, params, 0) {
                lemma_raw_moved(value, file);
            }
        }
    }
}

/// Entries that move with their tokens.
pub trait EntryMoves: EntryLocated {
    type Moving: Movable<V = <Self as EntrySpec>::V>;

    /// An entry read in another file is the entry, moved.
    proof fn lemma_entry_moves(
        ts: Seq<TokenV>,
        p: int,
        params: Option<Seq<ParamV>>,
        schema: TypeSchemaV,
        home: FileId,
        file: FileId,
    )
        requires
            inside(ts, p, home),
        ensures
            Self::entry(moved_tokens(ts, file), p, moved_params(params, file), schema)
                == moved_read::<Self::Moving>(Self::entry(ts, p, params, schema), file),
    ;
}

proof fn lemma_separator_moves(
    ts: Seq<TokenV>,
    p: int,
    schema: TypeSchemaV,
    key_span: Span,
    home: FileId,
    file: FileId,
)
    requires
        inside(ts, p, home),
    ensures
        past_separator(moved_tokens(ts, file), p, schema, moved_to(key_span, file))
            == match past_separator(ts, p, schema, key_span) {
            Ok(next) => Ok(next),
            Err(error) => Err(error_moved(error, file)),
        },
        past_separator(ts, p, schema, key_span) matches Ok(next) ==> p <= next < ts.len(),
{
    lemma_token_moves(ts, p, home, file);
}

impl EntryMoves for RawEntries {
    type Moving = RawEntry;

    proof fn lemma_entry_moves(
        ts: Seq<TokenV>,
        p: int,
        params: Option<Seq<ParamV>>,
        schema: TypeSchemaV,
        home: FileId,
        file: FileId,
    ) {
        lemma_raw_entry_moves(ts, p, params, home, file);
    }
}

impl EntryMoves for LiteralEntries {
    type Moving = EnvEntry;

    proof fn lemma_entry_moves(
        ts: Seq<TokenV>,
        p: int,
        params: Option<Seq<ParamV>>,
        schema: TypeSchemaV,
        home: FileId,
        file: FileId,
    ) {
        lemma_literal_in(ts, p, params, home);
        lemma_literal_moves(ts, p, params, home, file);
        if let Ok((key, after_key)) = read_literal(ts, p, params) {
            lemma_literal_moved(key, file);
            lemma_separator_moves(ts, after_key, schema, key.span(), home, file);
            if let Ok(after) = past_separator(ts, after_key, schema, key.span()) {
                lemma_literal_moves(ts, after, params, home, file);
                if let Ok((value, _)) = read_literal(ts, after, params) {
                    lemma_literal_moved(value, file);
                }
            }
        }
    }
}

impl EntryMoves for LabelEntries {
    type Moving = LabelEntry;

    proof fn lemma_entry_moves(
        ts: Seq<TokenV>,
        p: int,
        params: Option<Seq<ParamV>>,
        schema: TypeSchemaV,
        home: FileId,
        file: FileId,
    ) {
        lemma_literal_in(ts, p, params, home);
        lemma_literal_moves(ts, p, params, home, file);
        if let Ok((key, after_key)) = read_literal(ts, p, params) {
            lemma_literal_moved(key, file);
            lemma_separator_moves(ts, after_key, schema, key.span(), home, file);
            if let Ok(after) = past_separator(ts, after_key, schema, key.span()) {
                lemma_token_moves(ts, after, home, file);
                lemma_literal_moves(ts, after, params, home, file);
                if let Ok((value, _)) = read_literal(ts, after, params) {
                    lemma_literal_moved(value, file);
                }
                lemma_bracketed_moves::<Literals>(ts, after, params, home, file);
            }
        }
    }
}

impl EntryMoves for MountEntries {
    type Moving = ArrowMapEntry;

    proof fn lemma_entry_moves(
        ts: Seq<TokenV>,
        p: int,
        params: Option<Seq<ParamV>>,
        schema: TypeSchemaV,
        home: FileId,
        file: FileId,
    ) {
        lemma_token_moves(ts, p, home, file);
        lemma_literal_in(ts, p, params, home);
        lemma_literal_moves(ts, p, params, home, file);
        lemma_reference_in(ts, p, params, home);
        lemma_reference_moves(ts, p, params, home, file);
        if let Ok((host, after_host)) = read_host(ts, p, params) {
            let start = host.literal().span();
            lemma_literal_moved(host.literal(), file);
            lemma_separator_moves(ts, after_host, schema, start, home, file);
            if let Ok(after) = past_separator(ts, after_host, schema, start) {
                lemma_literal_in(ts, after, params, home);
                lemma_literal_moves(ts, after, params, home, file);
                if let Ok((container, next)) = read_literal(ts, after, params) {
                    lemma_literal_moved(container, file);
                    lemma_token_moves(ts, next, home, file);
                    if ts[next].kind == TokenKind::LBrace {
                        lemma_expected_moves(ts, next + 1, TokenKind::Ident, home, file);
                        if let Ok((_, after_key)) = expected(ts, next + 1, TokenKind::Ident) {
                            lemma_expected_moves(ts, after_key, TokenKind::RBrace, home, file);
                        }
                    }
                }
            }
        }
    }
}

proof fn lemma_entries_moves<E: EntryMoves>(
    ts: Seq<TokenV>,
    p: int,
    params: Option<Seq<ParamV>>,
    schema: TypeSchemaV,
    before: Seq<<E as EntrySpec>::V>,
    home: FileId,
    file: FileId,
)
    requires
        inside(ts, p, home),
    ensures
        read_entries::<E>(
            moved_tokens(ts, file),
            p,
            moved_params(params, file),
            schema,
            Vec::<E::Moving>::moved(before, file),
        ) == moved_read::<Vec<E::Moving>>(read_entries::<E>(ts, p, params, schema, before), file),
    decreases ts.len() - p,
{
    lemma_token_moves(ts, p, home, file);
    if ts[p].kind != TokenKind::RBrace {
        E::lemma_entry_in(ts, p, params, schema, home);
        E::lemma_entry_moves(ts, p, params, schema, home, file);
        if let Ok((entry, after)) = E::entry(ts, p, params, schema) {
            lemma_moved_push::<E::Moving>(before, entry, file);
            lemma_token_moves(ts, after, home, file);
            let next = if ts[after].kind == TokenKind::Comma {
                after + 1
            } else {
                after
            };
            lemma_entries_moves::<E>(ts, next, params, schema, before.push(entry), home, file);
        }
    }
}

proof fn lemma_map_body_moves<E: EntryMoves>(
    ts: Seq<TokenV>,
    p: int,
    params: Option<Seq<ParamV>>,
    schema: TypeSchemaV,
    home: FileId,
    file: FileId,
)
    requires
        inside(ts, p, home),
    ensures
        read_map_body::<E>(moved_tokens(ts, file), p, moved_params(params, file), schema)
            == moved_read::<Vec<E::Moving>>(read_map_body::<E>(ts, p, params, schema), file),
{
    lemma_moved_empty::<E::Moving>(file);
    lemma_expected_moves(ts, p, TokenKind::LBrace, home, file);
    if let Ok((_, first)) = expected(ts, p, TokenKind::LBrace) {
        lemma_entries_in::<E>(ts, first, params, schema, Seq::empty(), home);
        lemma_entries_moves::<E>(ts, first, params, schema, Seq::empty(), home, file);
        if let Ok((_, last)) = read_entries::<E>(ts, first, params, schema, Seq::empty()) {
            lemma_expected_moves(ts, last, TokenKind::RBrace, home, file);
        }
    }
}

proof fn lemma_map_moves<E: EntryMoves>(
    ts: Seq<TokenV>,
    p: int,
    params: Option<Seq<ParamV>>,
    schema: TypeSchemaV,
    home: FileId,
    file: FileId,
)
    requires
        inside(ts, p, home),
    ensures
        read_map::<E>(moved_tokens(ts, file), p, moved_params(params, file), schema)
            == moved_read::<Vec<E::Moving>>(read_map::<E>(ts, p, params, schema), file),
{
    lemma_token_moves(ts, p, home, file);
    lemma_map_body_moves::<E>(ts, p, params, schema, home, file);
    E::lemma_entry_moves(ts, p, params, schema, home, file);
    if let Ok((entry, _)) = E::entry(ts, p, params, schema) {
        assert(Vec::<E::Moving>::moved(seq![entry], file) =~= seq![
            E::Moving::moved(entry, file),
        ]);
    }
}

proof fn lemma_invocation_moves(
    ts: Seq<TokenV>,
    p: int,
    params: Option<Seq<ParamV>>,
    home: FileId,
    file: FileId,
)
    requires
        inside(ts, p, home),
    ensures
        read_invocation(moved_tokens(ts, file), p, moved_params(params, file)) == moved_read::<
            TemplateInvocation,
        >(read_invocation(ts, p, params), file),
{
    lemma_moved_empty::<RawEntry>(file);
    lemma_expected_moves(ts, p, TokenKind::Ident, home, file);
    if let Ok((_, next)) = expected(ts, p, TokenKind::Ident) {
        lemma_token_moves(ts, next, home, file);
        if ts[next].kind == TokenKind::Dot {
            lemma_expected_moves(ts, next + 1, TokenKind::Ident, home, file);
        }
    }
    if let Ok((_, next)) = read_template_name(ts, p) {
        let schema = schema_of(BuiltIn::Raw);
        lemma_token_moves(ts, next, home, file);
        lemma_map_body_in::<RawEntries>(ts, next, params, schema, home);
        lemma_map_body_moves::<RawEntries>(ts, next, params, schema, home, file);
        if let Ok((_, end)) = read_map_body::<RawEntries>(ts, next, params, schema) {
            lemma_token_moves(ts, end, home, file);
        }
    }
}

/// A field's value, with every place in `file`.
pub open spec fn value_moved(value: FieldValueV, file: FileId) -> FieldValueV
    decreases value,
{
    match value {
        FieldValueV::Scalar(lit) => FieldValueV::Scalar(literal_moved(lit, file)),
        FieldValueV::Flag(span) => FieldValueV::Flag(moved_to(span, file)),
        FieldValueV::Struct(inner, span) => FieldValueV::Struct(
            Seq::new(
                inner.len(),
                |i: int|
                    if 0 <= i < inner.len() {
                        (inner[i].0, value_moved(inner[i].1, file))
                    } else {
                        arbitrary()
                    },
            ),
            moved_to(span, file),
        ),
        FieldValueV::LiteralMap(entries) => FieldValueV::LiteralMap(
            Vec::<EnvEntry>::moved(entries, file),
        ),
        FieldValueV::LabelMap(entries) => FieldValueV::LabelMap(
            Vec::<LabelEntry>::moved(entries, file),
        ),
        FieldValueV::MountMap(entries) => FieldValueV::MountMap(
            Vec::<ArrowMapEntry>::moved(entries, file),
        ),
        FieldValueV::Raw(entries) => FieldValueV::Raw(Vec::<RawEntry>::moved(entries, file)),
        FieldValueV::References(refs) => FieldValueV::References(
            Vec::<Literal>::moved(refs, file),
        ),
        FieldValueV::Invocations(items) => FieldValueV::Invocations(
            Vec::<TemplateInvocation>::moved(items, file),
        ),
        FieldValueV::ScalarOrList(command) => FieldValueV::ScalarOrList(
            Command::moved(command, file),
        ),
        FieldValueV::Dependencies(entries) => FieldValueV::Dependencies(
            Vec::<DependsOnEntry>::moved(entries, file),
        ),
    }
}

/// A body's fields, with every place in `file`.
pub open spec fn moved_fields(fields: FieldsV, file: FileId) -> FieldsV {
    Seq::new(
        fields.len(),
        |i: int|
            if 0 <= i < fields.len() {
                (fields[i].0, value_moved(fields[i].1, file))
            } else {
                arbitrary()
            },
    )
}

/// As [`moved_read`], of a body's fields.
pub open spec fn moved_fields_read(r: Parsed<FieldsV>, file: FileId) -> Parsed<FieldsV> {
    match r {
        Ok((fields, next)) => Ok((moved_fields(fields, file), next)),
        Err(error) => Err(error_moved(error, file)),
    }
}

/// As [`moved_read`], of a body's fields and the place they stand in.
pub open spec fn moved_body_read(r: Parsed<(FieldsV, Span)>, file: FileId) -> Parsed<
    (FieldsV, Span),
> {
    match r {
        Ok(((fields, span), next)) => Ok(
            ((moved_fields(fields, file), moved_to(span, file)), next),
        ),
        Err(error) => Err(error_moved(error, file)),
    }
}

proof fn lemma_struct_moved(inner: FieldsV, span: Span, file: FileId)
    ensures
        value_moved(FieldValueV::Struct(inner, span), file) == FieldValueV::Struct(
            moved_fields(inner, file),
            moved_to(span, file),
        ),
{
    assert(value_moved(FieldValueV::Struct(inner, span), file)->Struct_0 =~= moved_fields(
        inner,
        file,
    ));
}

proof fn lemma_set_index_moves(fields: FieldsV, name: Seq<char>, i: int, file: FileId)
    requires
        0 <= i <= fields.len(),
    ensures
        set_index(moved_fields(fields, file), name, i) == set_index(fields, name, i),
        i <= set_index(fields, name, i) <= fields.len(),
    decreases fields.len() - i,
{
    if i < fields.len() {
        lemma_set_index_moves(fields, name, i + 1, file);
    }
}

proof fn lemma_set_value_moves(fields: FieldsV, name: Seq<char>, file: FileId)
    ensures
        set_value(moved_fields(fields, file), name) == match set_value(fields, name) {
            Some(value) => Some(value_moved(value, file)),
            None => None,
        },
{
    lemma_set_index_moves(fields, name, 0, file);
}

proof fn lemma_with_value_moves(
    fields: FieldsV,
    name: Seq<char>,
    value: FieldValueV,
    file: FileId,
)
    ensures
        moved_fields(with_value(fields, name, value), file) == with_value(
            moved_fields(fields, file),
            name,
            value_moved(value, file),
        ),
        moved_fields(fields.push((name, value)), file) == moved_fields(fields, file).push(
            (name, value_moved(value, file)),
        ),
{
    lemma_set_index_moves(fields, name, 0, file);
    assert(moved_fields(with_value(fields, name, value), file) =~= with_value(
        moved_fields(fields, file),
        name,
        value_moved(value, file),
    ));
    assert(moved_fields(fields.push((name, value)), file) =~= moved_fields(fields, file).push(
        (name, value_moved(value, file)),
    ));
}

proof fn lemma_single_place_moves(value: FieldValueV, file: FileId)
    ensures
        single_place(value_moved(value, file)) == match single_place(value) {
            Some(span) => Some(moved_to(span, file)),
            None => None,
        },
{
    match value {
        FieldValueV::Scalar(lit) => {
            lemma_literal_moved(lit, file);
        },
        FieldValueV::ScalarOrList(ShellOrExecV::Shell(lit)) => {
            lemma_literal_moved(lit, file);
        },
        _ => {},
    }
}

proof fn lemma_single_moves(
    schema: TypeSchemaV,
    fields: FieldsV,
    name: Seq<char>,
    value: FieldValueV,
    end: int,
    file: FileId,
)
    ensures
        single_at(schema, moved_fields(fields, file), name, value_moved(value, file), end)
            == moved_fields_read(single_at(schema, fields, name, value, end), file),
{
    lemma_with_value_moves(fields, name, value, file);
    lemma_set_value_moves(fields, name, file);
    lemma_single_place_moves(value, file);
    if let Some(existing) = set_value(fields, name) {
        lemma_single_place_moves(existing, file);
    }
}

proof fn lemma_entry_index_moves(
    entries: Seq<EnvEntryV>,
    side: MapSide,
    text: Seq<char>,
    i: int,
    file: FileId,
)
    requires
        0 <= i <= entries.len(),
    ensures
        entry_index(Vec::<EnvEntry>::moved(entries, file), side, text, i) == entry_index(
            entries,
            side,
            text,
            i,
        ),
        i <= entry_index(entries, side, text, i) <= entries.len(),
    decreases entries.len() - i,
{
    if i < entries.len() {
        lemma_literal_moved(entries[i].key, file);
        lemma_literal_moved(entries[i].value, file);
        lemma_entry_index_moves(entries, side, text, i + 1, file);
    }
}

proof fn lemma_mount_index_moves(
    entries: Seq<ArrowMapEntryV>,
    side: MapSide,
    text: Seq<char>,
    i: int,
    file: FileId,
)
    requires
        0 <= i <= entries.len(),
    ensures
        mount_index(Vec::<ArrowMapEntry>::moved(entries, file), side, text, i) == mount_index(
            entries,
            side,
            text,
            i,
        ),
        i <= mount_index(entries, side, text, i) <= entries.len(),
    decreases entries.len() - i,
{
    if i < entries.len() {
        lemma_literal_moved(entries[i].host.literal(), file);
        lemma_literal_moved(entries[i].container, file);
        lemma_mount_index_moves(entries, side, text, i + 1, file);
    }
}

proof fn lemma_label_index_moves(
    entries: Seq<LabelEntryV>,
    key: Seq<char>,
    i: int,
    file: FileId,
)
    requires
        0 <= i <= entries.len(),
    ensures
        label_index(Vec::<LabelEntry>::moved(entries, file), key, i) == label_index(
            entries,
            key,
            i,
        ),
        i <= label_index(entries, key, i) <= entries.len(),
    decreases entries.len() - i,
{
    if i < entries.len() {
        lemma_literal_moved(entries[i].key, file);
        lemma_label_index_moves(entries, key, i + 1, file);
    }
}

proof fn lemma_raw_index_moves(entries: Seq<RawEntryV>, key: Seq<char>, i: int, file: FileId)
    requires
        0 <= i <= entries.len(),
    ensures
        raw_index(Vec::<RawEntry>::moved(entries, file), key, i) == raw_index(entries, key, i),
        i <= raw_index(entries, key, i) <= entries.len(),
    decreases entries.len() - i,
{
    if i < entries.len() {
        lemma_literal_moved(entries[i].key, file);
        lemma_raw_index_moves(entries, key, i + 1, file);
    }
}

proof fn lemma_with_entries_moves(
    held: Seq<EnvEntryV>,
    more: Seq<EnvEntryV>,
    i: int,
    schema: TypeSchemaV,
    file: FileId,
)
    requires
        0 <= i,
    ensures
        with_entries(
            Vec::<EnvEntry>::moved(held, file),
            Vec::<EnvEntry>::moved(more, file),
            i,
            schema,
        ) == match with_entries(held, more, i, schema) {
            Ok(all) => Ok(Vec::<EnvEntry>::moved(all, file)),
            Err(error) => Err(error_moved(error, file)),
        },
    decreases more.len() - i,
{
    if i < more.len() {
        let text = entry_text(more[i], side_of(schema));
        lemma_literal_moved(more[i].key, file);
        lemma_literal_moved(more[i].value, file);
        lemma_entry_index_moves(held, side_of(schema), text, 0, file);
        lemma_moved_push::<EnvEntry>(held, more[i], file);
        if !(entry_index(held, side_of(schema), text, 0) < held.len()) {
            lemma_with_entries_moves(held.push(more[i]), more, i + 1, schema, file);
        }
    }
}

proof fn lemma_with_mounts_moves(
    held: Seq<ArrowMapEntryV>,
    more: Seq<ArrowMapEntryV>,
    i: int,
    schema: TypeSchemaV,
    file: FileId,
)
    requires
        0 <= i,
    ensures
        with_mounts(
            Vec::<ArrowMapEntry>::moved(held, file),
            Vec::<ArrowMapEntry>::moved(more, file),
            i,
            schema,
        ) == match with_mounts(held, more, i, schema) {
            Ok(all) => Ok(Vec::<ArrowMapEntry>::moved(all, file)),
            Err(error) => Err(error_moved(error, file)),
        },
    decreases more.len() - i,
{
    if i < more.len() {
        let text = mount_text(more[i], side_of(schema));
        lemma_literal_moved(more[i].host.literal(), file);
        lemma_literal_moved(more[i].container, file);
        lemma_mount_index_moves(held, side_of(schema), text, 0, file);
        lemma_moved_push::<ArrowMapEntry>(held, more[i], file);
        if !(mount_index(held, side_of(schema), text, 0) < held.len()) {
            lemma_with_mounts_moves(held.push(more[i]), more, i + 1, schema, file);
        }
    }
}

proof fn lemma_with_labels_moves(
    held: Seq<LabelEntryV>,
    more: Seq<LabelEntryV>,
    i: int,
    schema: TypeSchemaV,
    file: FileId,
)
    requires
        0 <= i,
    ensures
        with_labels(
            Vec::<LabelEntry>::moved(held, file),
            Vec::<LabelEntry>::moved(more, file),
            i,
            schema,
        ) == match with_labels(held, more, i, schema) {
            Ok(all) => Ok(Vec::<LabelEntry>::moved(all, file)),
            Err(error) => Err(error_moved(error, file)),
        },
    decreases more.len() - i,
{
    if i < more.len() {
        let key = more[i].key.text();
        lemma_literal_moved(more[i].key, file);
        lemma_label_index_moves(held, key, 0, file);
        lemma_moved_push::<LabelEntry>(held, more[i], file);
        if !(label_index(held, key, 0) < held.len()) {
            lemma_with_labels_moves(held.push(more[i]), more, i + 1, schema, file);
        }
    }
}

proof fn lemma_with_raw_moves(
    held: Seq<RawEntryV>,
    more: Seq<RawEntryV>,
    i: int,
    file: FileId,
)
    requires
        0 <= i,
    ensures
        with_raw_entries(
            Vec::<RawEntry>::moved(held, file),
            Vec::<RawEntry>::moved(more, file),
            i,
        ) == match with_raw_entries(held, more, i) {
            Ok(all) => Ok(Vec::<RawEntry>::moved(all, file)),
            Err(error) => Err(error_moved(error, file)),
        },
    decreases more.len() - i,
{
    if i < more.len() {
        let key = more[i].key.text();
        lemma_literal_moved(more[i].key, file);
        lemma_raw_index_moves(held, key, 0, file);
        lemma_moved_push::<RawEntry>(held, more[i], file);
        if !(raw_index(held, key, 0) < held.len()) {
            lemma_with_raw_moves(held.push(more[i]), more, i + 1, file);
        }
    }
}

proof fn lemma_held_moves(fields: FieldsV, name: Seq<char>, file: FileId)
    ensures
        held_references(moved_fields(fields, file), name) == Vec::<Literal>::moved(
            held_references(fields, name),
            file,
        ),
        held_invocations(moved_fields(fields, file), name) == Vec::<TemplateInvocation>::moved(
            held_invocations(fields, name),
            file,
        ),
        held_dependencies(moved_fields(fields, file), name) == Vec::<DependsOnEntry>::moved(
            held_dependencies(fields, name),
            file,
        ),
        held_entries(moved_fields(fields, file), name) == Vec::<EnvEntry>::moved(
            held_entries(fields, name),
            file,
        ),
        held_labels(moved_fields(fields, file), name) == Vec::<LabelEntry>::moved(
            held_labels(fields, name),
            file,
        ),
        held_mounts(moved_fields(fields, file), name) == Vec::<ArrowMapEntry>::moved(
            held_mounts(fields, name),
            file,
        ),
        held_raw(moved_fields(fields, file), name) == Vec::<RawEntry>::moved(
            held_raw(fields, name),
            file,
        ),
        scalar_of(moved_fields(fields, file), name) == Option::<Literal>::moved(
            scalar_of(fields, name),
            file,
        ),
        flag_of(moved_fields(fields, file), name) == Option::<Span>::moved(
            flag_of(fields, name),
            file,
        ),
        command_of(moved_fields(fields, file), name) == Option::<Command>::moved(
            command_of(fields, name),
            file,
        ),
        struct_of(moved_fields(fields, file), name) == match struct_of(fields, name) {
            Some((inner, span)) => Some((moved_fields(inner, file), moved_to(span, file))),
            None => None,
        },
{
    lemma_set_value_moves(fields, name, file);
    lemma_moved_empty::<Literal>(file);
    lemma_moved_empty::<TemplateInvocation>(file);
    lemma_moved_empty::<DependsOnEntry>(file);
    lemma_moved_empty::<EnvEntry>(file);
    lemma_moved_empty::<LabelEntry>(file);
    lemma_moved_empty::<ArrowMapEntry>(file);
    lemma_moved_empty::<RawEntry>(file);
    if let Some(FieldValueV::Struct(inner, span)) = set_value(fields, name) {
        lemma_struct_moved(inner, span, file);
    }
}

proof fn lemma_map_field_moves(
    ts: Seq<TokenV>,
    p: int,
    params: Option<Seq<ParamV>>,
    name: Seq<char>,
    nested: TypeSchemaV,
    fields: FieldsV,
    home: FileId,
    file: FileId,
)
    requires
        inside(ts, p, home),
    ensures
        read_map_field(
            moved_tokens(ts, file),
            p,
            moved_params(params, file),
            name,
            nested,
            moved_fields(fields, file),
        ) == moved_fields_read(read_map_field(ts, p, params, name, nested, fields), file),
{
    lemma_held_moves(fields, name, file);
    if nested.schema_free {
        lemma_map_moves::<RawEntries>(ts, p, params, nested, home, file);
        if let Ok((entries, _)) = read_map::<RawEntries>(ts, p, params, nested) {
            lemma_with_raw_moves(held_raw(fields, name), entries, 0, file);
            if let Ok(all) = with_raw_entries(held_raw(fields, name), entries, 0) {
                lemma_with_value_moves(fields, name, FieldValueV::Raw(all), file);
            }
        }
    } else if nested.key_may_be_reference {
        lemma_map_moves::<MountEntries>(ts, p, params, nested, home, file);
        if let Ok((entries, _)) = read_map::<MountEntries>(ts, p, params, nested) {
            lemma_with_mounts_moves(held_mounts(fields, name), entries, 0, nested, file);
            if let Ok(all) = with_mounts(held_mounts(fields, name), entries, 0, nested) {
                lemma_with_value_moves(fields, name, FieldValueV::MountMap(all), file);
            }
        }
    } else if nested.built_in == BuiltIn::Labels {
        lemma_map_moves::<LabelEntries>(ts, p, params, nested, home, file);
        if let Ok((entries, _)) = read_map::<LabelEntries>(ts, p, params, nested) {
            lemma_with_labels_moves(held_labels(fields, name), entries, 0, nested, file);
            if let Ok(all) = with_labels(held_labels(fields, name), entries, 0, nested) {
                lemma_with_value_moves(fields, name, FieldValueV::LabelMap(all), file);
            }
        }
    } else {
        lemma_map_moves::<LiteralEntries>(ts, p, params, nested, home, file);
        if let Ok((entries, _)) = read_map::<LiteralEntries>(ts, p, params, nested) {
            lemma_with_entries_moves(held_entries(fields, name), entries, 0, nested, file);
            if let Ok(all) = with_entries(held_entries(fields, name), entries, 0, nested) {
                lemma_with_value_moves(fields, name, FieldValueV::LiteralMap(all), file);
            }
        }
    }
}

proof fn lemma_list_field_moves(
    ts: Seq<TokenV>,
    p: int,
    params: Option<Seq<ParamV>>,
    name: Seq<char>,
    kind: FieldKind,
    fields: FieldsV,
    home: FileId,
    file: FileId,
)
    requires
        inside(ts, p, home),
    ensures
        read_list_field(
            moved_tokens(ts, file),
            p,
            moved_params(params, file),
            name,
            kind,
            moved_fields(fields, file),
        ) == moved_fields_read(read_list_field(ts, p, params, name, kind, fields), file),
{
    lemma_held_moves(fields, name, file);
    match kind {
        FieldKind::TemplateInvocationList => {
            lemma_list_moves::<Invocations>(ts, p, params, home, file);
            if let Ok((more, _)) = read_list::<Invocations>(ts, p, params) {
                let held = held_invocations(fields, name);
                lemma_moved_join::<TemplateInvocation>(held, more, file);
                lemma_with_value_moves(fields, name, FieldValueV::Invocations(held + more), file);
            }
        },
        FieldKind::DependsOnList => {
            lemma_list_moves::<Dependencies>(ts, p, params, home, file);
            if let Ok((more, _)) = read_list::<Dependencies>(ts, p, params) {
                let held = held_dependencies(fields, name);
                lemma_moved_join::<DependsOnEntry>(held, more, file);
                lemma_with_value_moves(fields, name, FieldValueV::Dependencies(held + more), file);
            }
        },
        _ => {
            lemma_list_moves::<References>(ts, p, params, home, file);
            if let Ok((more, _)) = read_list::<References>(ts, p, params) {
                let held = held_references(fields, name);
                lemma_moved_join::<Literal>(held, more, file);
                lemma_with_value_moves(fields, name, FieldValueV::References(held + more), file);
            }
        },
    }
}

proof fn lemma_statement_moves(
    ts: Seq<TokenV>,
    p: int,
    params: Option<Seq<ParamV>>,
    schema: TypeSchemaV,
    fields: FieldsV,
    home: FileId,
    file: FileId,
)
    requires
        inside(ts, p, home),
        fields_located(fields, home),
    ensures
        read_statement(
            moved_tokens(ts, file),
            p,
            moved_params(params, file),
            schema,
            moved_fields(fields, file),
        ) == moved_fields_read(read_statement(ts, p, params, schema, fields), file),
    decreases ts.len() - p, 0int,
{
    lemma_key_in(ts, p, home);
    lemma_key_moves(ts, p, home, file);
    if let Ok((key, next)) = read_key(ts, p) {
        lemma_literal_moved(key, file);
        lemma_token_moves(ts, next, home, file);
        if let FieldResolutionV::Field(field) = resolution(schema, key.text()) {
            match field.kind {
                FieldKind::Scalar => {
                    lemma_literal_moves(ts, next, params, home, file);
                    if ts[next].kind == TokenKind::Colon {
                        lemma_literal_moves(ts, next + 1, params, home, file);
                    }
                    if let Ok((lit, end)) = read_field_value(ts, next, params) {
                        let value = FieldValueV::Scalar(lit);
                        lemma_single_moves(schema, fields, field.name, value, end, file);
                    }
                },
                FieldKind::BoolFlag => {
                    let value = FieldValueV::Flag(key.span());
                    lemma_single_moves(schema, fields, field.name, value, next, file);
                },
                FieldKind::ScalarOrList => {
                    lemma_command_moves(ts, next, params, home, file);
                    if let Ok((command, end)) = read_scalar_or_list(ts, next, params) {
                        let value = FieldValueV::ScalarOrList(command);
                        lemma_single_moves(schema, fields, field.name, value, end, file);
                    }
                },
                FieldKind::Nested(nested) => {
                    lemma_nested_moves(
                        ts,
                        next,
                        params,
                        schema,
                        field.name,
                        schema_of(nested),
                        fields,
                        home,
                        file,
                    );
                },
                kind => {
                    lemma_list_field_moves(ts, next, params, field.name, kind, fields, home, file);
                },
            }
        }
    }
}

proof fn lemma_nested_moves(
    ts: Seq<TokenV>,
    p: int,
    params: Option<Seq<ParamV>>,
    schema: TypeSchemaV,
    name: Seq<char>,
    nested: TypeSchemaV,
    fields: FieldsV,
    home: FileId,
    file: FileId,
)
    requires
        inside(ts, p, home),
        fields_located(fields, home),
    ensures
        read_nested(
            moved_tokens(ts, file),
            p,
            moved_params(params, file),
            schema,
            name,
            nested,
            moved_fields(fields, file),
        ) == moved_fields_read(read_nested(ts, p, params, schema, name, nested, fields), file),
    decreases ts.len() - p, 3int,
{
    lemma_past_colon(ts, p, home);
    let start = past_colon(ts, p);
    lemma_token_moves(ts, p, home, file);
    lemma_token_moves(ts, start, home, file);
    if nested.kind == SchemaKind::Mapping {
        lemma_map_field_moves(ts, start, params, name, nested, fields, home, file);
    } else {
        lemma_struct_body_in(ts, start, params, nested, home);
        lemma_struct_body_moves(ts, start, params, nested, home, file);
        lemma_shorthand_in(ts, start, params, nested, home);
        lemma_shorthand_moves(ts, start, params, nested, home, file);
        let body = if ts[start].kind == TokenKind::LBrace {
            read_struct_body(ts, start, params, nested)
        } else {
            read_shorthand(ts, start, params, nested)
        };
        if let Ok(((inner, span), end)) = body {
            lemma_token_moves(ts, end, home, file);
            lemma_struct_moved(inner, span, file);
            let value = FieldValueV::Struct(inner, span);
            lemma_single_moves(schema, fields, name, value, end, file);
        }
    }
}

proof fn lemma_shorthand_moves(
    ts: Seq<TokenV>,
    p: int,
    params: Option<Seq<ParamV>>,
    nested: TypeSchemaV,
    home: FileId,
    file: FileId,
)
    requires
        inside(ts, p, home),
    ensures
        read_shorthand(moved_tokens(ts, file), p, moved_params(params, file), nested)
            == moved_body_read(read_shorthand(ts, p, params, nested), file),
    decreases ts.len() - p, 2int,
{
    let primary = nested.primary_field->Some_0;
    lemma_token_moves(ts, p, home, file);
    lemma_moved_empty::<TemplateInvocation>(file);
    lemma_bracketed_in::<Invocations>(ts, p, params, home);
    lemma_bracketed_moves::<Invocations>(ts, p, params, home, file);
    lemma_bare_in::<Invocations>(ts, p, params, Seq::empty(), home);
    lemma_bare_moves::<Invocations>(ts, p, params, Seq::empty(), home, file);
    lemma_literal_in(ts, p, params, home);
    lemma_literal_moves(ts, p, params, home, file);
    if let Ok((lit, _)) = read_literal(ts, p, params) {
        lemma_place_in(lit, home);
        lemma_literal_moved(lit, file);
    }
    let invokes = field_from(nested.fields, primary, 0) matches Some(field) && field.kind
        == FieldKind::TemplateInvocationList;
    let first = if invokes {
        read_invocation_shorthand(ts, p, params, primary)
    } else {
        read_literal_shorthand(ts, p, params, primary)
    };
    let moved_first = if invokes {
        read_invocation_shorthand(moved_tokens(ts, file), p, moved_params(params, file), primary)
    } else {
        read_literal_shorthand(moved_tokens(ts, file), p, moved_params(params, file), primary)
    };
    if let Ok(((fields, start), next)) = first {
        assert(fields.len() == 1);
        assert(moved_fields(fields, file) =~= seq![
            (primary, value_moved(fields[0].1, file)),
        ]);
    }
    assert(moved_first == moved_body_read(first, file));
    assert(body_in(first, p + 1, ts, home));
    if let Ok(((fields, start), next)) = first {
        lemma_secondary_in(ts, next, params, nested, fields, home);
        lemma_secondary_moves(ts, next, params, nested, fields, home, file);
        if let Ok((_, end)) = read_secondary(ts, next, params, nested, fields) {
            lemma_token_moves(ts, end, home, file);
        }
    }
}

proof fn lemma_secondary_moves(
    ts: Seq<TokenV>,
    p: int,
    params: Option<Seq<ParamV>>,
    nested: TypeSchemaV,
    fields: FieldsV,
    home: FileId,
    file: FileId,
)
    requires
        inside(ts, p, home),
        fields_located(fields, home),
    ensures
        read_secondary(
            moved_tokens(ts, file),
            p,
            moved_params(params, file),
            nested,
            moved_fields(fields, file),
        ) == moved_fields_read(read_secondary(ts, p, params, nested, fields), file),
    decreases ts.len() - p, 1int,
{
    lemma_token_moves(ts, p, home, file);
    if continues_with_field(ts, p, nested) {
        lemma_statement_in(ts, p + 1, params, nested, fields, home);
        lemma_statement_moves(ts, p + 1, params, nested, fields, home, file);
        if let Ok((more, next)) = read_statement(ts, p + 1, params, nested, fields) {
            lemma_secondary_moves(ts, next, params, nested, more, home, file);
        }
    }
}

proof fn lemma_struct_body_moves(
    ts: Seq<TokenV>,
    p: int,
    params: Option<Seq<ParamV>>,
    schema: TypeSchemaV,
    home: FileId,
    file: FileId,
)
    requires
        inside(ts, p, home),
    ensures
        read_struct_body(moved_tokens(ts, file), p, moved_params(params, file), schema)
            == moved_body_read(read_struct_body(ts, p, params, schema), file),
    decreases ts.len() - p, 2int,
{
    lemma_expected_moves(ts, p, TokenKind::LBrace, home, file);
    if let Ok((_, first)) = expected(ts, p, TokenKind::LBrace) {
        assert(moved_fields(Seq::empty(), file) =~= Seq::empty());
        lemma_statements_in(ts, first, params, schema, Seq::empty(), true, home);
        lemma_statements_moves(ts, first, params, schema, Seq::empty(), true, home, file);
        if let Ok((_, last)) = read_statements(ts, first, params, schema, Seq::empty(), true) {
            lemma_expected_moves(ts, last, TokenKind::RBrace, home, file);
        }
    }
}

proof fn lemma_statements_moves(
    ts: Seq<TokenV>,
    p: int,
    params: Option<Seq<ParamV>>,
    schema: TypeSchemaV,
    fields: FieldsV,
    first: bool,
    home: FileId,
    file: FileId,
)
    requires
        inside(ts, p, home),
        fields_located(fields, home),
        !first ==> p > 0,
    ensures
        read_statements(
            moved_tokens(ts, file),
            p,
            moved_params(params, file),
            schema,
            moved_fields(fields, file),
            first,
        ) == moved_fields_read(read_statements(ts, p, params, schema, fields, first), file),
    decreases ts.len() - p, 4int,
{
    lemma_token_moves(ts, p, home, file);
    lemma_statement_in(ts, p, params, schema, fields, home);
    lemma_statement_moves(ts, p, params, schema, fields, home, file);
    if let Ok((more, next)) = read_statement(ts, p, params, schema, fields) {
        lemma_statements_moves(ts, next, params, schema, more, false, home, file);
    }
}

proof fn lemma_mounts_moves(entries: Seq<EnvEntryV>, file: FileId)
    ensures
        as_mounts(Vec::<EnvEntry>::moved(entries, file)) == Vec::<ArrowMapEntry>::moved(
            as_mounts(entries),
            file,
        ),
        as_driver_opts(Vec::<EnvEntry>::moved(entries, file)) == Vec::<VolumeDriverOpt>::moved(
            as_driver_opts(entries),
            file,
        ),
{
    assert(as_mounts(Vec::<EnvEntry>::moved(entries, file)) =~= Vec::<ArrowMapEntry>::moved(
        as_mounts(entries),
        file,
    ));
    assert(as_driver_opts(Vec::<EnvEntry>::moved(entries, file)) =~= Vec::<
        VolumeDriverOpt,
    >::moved(as_driver_opts(entries), file));
}

proof fn lemma_healthcheck_moves(fields: FieldsV, span: Span, file: FileId)
    ensures
        lowered_healthcheck(moved_fields(fields, file), moved_to(span, file))
            == Healthcheck::moved(lowered_healthcheck(fields, span), file),
{
    lemma_held_moves(fields, "test"@, file);
    lemma_held_moves(fields, "interval"@, file);
    lemma_held_moves(fields, "timeout"@, file);
    lemma_held_moves(fields, "retries"@, file);
    lemma_held_moves(fields, "start_period"@, file);
    lemma_held_moves(fields, "start_interval"@, file);
    lemma_held_moves(fields, "disable"@, file);
}

proof fn lemma_nested_fields_moves(fields: FieldsV, file: FileId)
    ensures
        ({
            let there = lowered_service_fields(moved_fields(fields, file));
            let here = lowered_service_fields(fields);
            &&& there.image == Option::<Image>::moved(here.image, file)
            &&& there.build == Option::<Build>::moved(here.build, file)
            &&& there.expose == Option::<Expose>::moved(here.expose, file)
            &&& there.restart == Option::<Restart>::moved(here.restart, file)
            &&& there.healthcheck == Option::<Healthcheck>::moved(here.healthcheck, file)
            &&& there.with == Vec::<TemplateInvocation>::moved(here.with, file)
        }),
{
    lemma_held_moves(fields, "image"@, file);
    if let Some((inner, _)) = struct_of(fields, "image"@) {
        lemma_held_moves(inner, "ref"@, file);
    }
    lemma_held_moves(fields, "build"@, file);
    if let Some((inner, _)) = struct_of(fields, "build"@) {
        lemma_held_moves(inner, "context"@, file);
        lemma_held_moves(inner, "dockerfile"@, file);
    }
    lemma_held_moves(fields, "expose"@, file);
    if let Some((inner, _)) = struct_of(fields, "expose"@) {
        lemma_held_moves(inner, "port"@, file);
    }
    lemma_held_moves(fields, "restart"@, file);
    if let Some((inner, _)) = struct_of(fields, "restart"@) {
        lemma_held_moves(inner, "policy"@, file);
    }
    lemma_held_moves(fields, "healthcheck"@, file);
    if let Some((inner, span)) = struct_of(fields, "healthcheck"@) {
        lemma_healthcheck_moves(inner, span, file);
    }
    lemma_moved_empty::<TemplateInvocation>(file);
    lemma_held_moves(fields, "with"@, file);
    if let Some((inner, _)) = struct_of(fields, "with"@) {
        lemma_held_moves(inner, "templates"@, file);
    }
}

proof fn lemma_lowered_moves(fields: FieldsV, file: FileId)
    ensures
        lowered_service_fields(moved_fields(fields, file)) == ServiceFields::moved(
            lowered_service_fields(fields),
            file,
        ),
{
    lemma_nested_fields_moves(fields, file);
    lemma_held_moves(fields, "publish"@, file);
    lemma_held_moves(fields, "volume"@, file);
    lemma_held_moves(fields, "env"@, file);
    lemma_held_moves(fields, "labels"@, file);
    lemma_held_moves(fields, "raw"@, file);
    lemma_held_moves(fields, "depends_on"@, file);
    lemma_held_moves(fields, "networks"@, file);
    lemma_held_moves(fields, "dns"@, file);
    lemma_held_moves(fields, "env_file"@, file);
    lemma_held_moves(fields, "privileged"@, file);
    lemma_held_moves(fields, "devices"@, file);
    lemma_held_moves(fields, "container_name"@, file);
    lemma_held_moves(fields, "command"@, file);
    lemma_held_moves(fields, "entrypoint"@, file);
    lemma_mounts_moves(held_entries(fields, "publish"@), file);
    lemma_mounts_moves(held_entries(fields, "devices"@), file);
}

proof fn lemma_lowered_decl_moves(
    built_in: BuiltIn,
    name: IdentV,
    fields: FieldsV,
    span: Span,
    file: FileId,
)
    ensures
        lowered_decl(
            built_in,
            Ident::moved(name, file),
            moved_fields(fields, file),
            moved_to(span, file),
        ) == TopDecl::moved(lowered_decl(built_in, name, fields, span), file),
{
    lemma_lowered_moves(fields, file);
    lemma_held_moves(fields, "external"@, file);
    lemma_held_moves(fields, "name"@, file);
    lemma_held_moves(fields, "driver"@, file);
    lemma_held_moves(fields, "driver_opts"@, file);
    lemma_mounts_moves(held_entries(fields, "driver_opts"@), file);
}

proof fn lemma_param_index_moves(params: Seq<ParamV>, name: Seq<char>, i: int, file: FileId)
    requires
        0 <= i <= params.len(),
    ensures
        param_index(Vec::<Param>::moved(params, file), name, i) == param_index(params, name, i),
        i <= param_index(params, name, i) <= params.len(),
    decreases params.len() - i,
{
    if i < params.len() {
        lemma_param_index_moves(params, name, i + 1, file);
    }
}

proof fn lemma_params_moves(
    ts: Seq<TokenV>,
    p: int,
    before: Seq<ParamV>,
    home: FileId,
    file: FileId,
)
    requires
        inside(ts, p, home),
    ensures
        read_params(moved_tokens(ts, file), p, Vec::<Param>::moved(before, file)) == moved_read::<
            Vec<Param>,
        >(read_params(ts, p, before), file),
    decreases ts.len() - p,
{
    lemma_expected_moves(ts, p, TokenKind::Ident, home, file);
    if let Ok((tok, next)) = expected(ts, p, TokenKind::Ident) {
        lemma_param_index_moves(before, tok.lexeme, 0, file);
        let param = ParamV { name: IdentV { name: tok.lexeme, span: tok.span } };
        lemma_moved_push::<Param>(before, param, file);
        lemma_token_moves(ts, next, home, file);
        if !(param_index(before, tok.lexeme, 0) < before.len()) && ts[next].kind
            == TokenKind::Comma {
            lemma_params_moves(ts, next + 1, before.push(param), home, file);
        }
    }
}

proof fn lemma_param_list_moves(ts: Seq<TokenV>, p: int, home: FileId, file: FileId)
    requires
        inside(ts, p, home),
    ensures
        read_param_list(moved_tokens(ts, file), p) == moved_read::<Vec<Param>>(
            read_param_list(ts, p),
            file,
        ),
{
    lemma_moved_empty::<Param>(file);
    lemma_expected_moves(ts, p, TokenKind::LParen, home, file);
    if let Ok((_, first)) = expected(ts, p, TokenKind::LParen) {
        lemma_token_moves(ts, first, home, file);
        lemma_params_in(ts, first, Seq::empty(), home);
        lemma_params_moves(ts, first, Seq::empty(), home, file);
        if ts[first].kind == TokenKind::RParen {
            lemma_expected_moves(ts, first, TokenKind::RParen, home, file);
        } else if let Ok((_, last)) = read_params(ts, first, Seq::empty()) {
            lemma_expected_moves(ts, last, TokenKind::RParen, home, file);
        }
    }
}

proof fn lemma_template_moves(ts: Seq<TokenV>, p: int, home: FileId, file: FileId)
    requires
        inside(ts, p, home),
    ensures
        read_template(moved_tokens(ts, file), p) == moved_read::<TemplateDecl>(
            read_template(ts, p),
            file,
        ),
{
    lemma_moved_empty::<Param>(file);
    lemma_expected_moves(ts, p, TokenKind::Template, home, file);
    if let Ok((_, after_keyword)) = expected(ts, p, TokenKind::Template) {
        lemma_expected_moves(ts, after_keyword, TokenKind::Ident, home, file);
        if let Ok((_, after_name)) = expected(ts, after_keyword, TokenKind::Ident) {
            lemma_token_moves(ts, after_name, home, file);
            lemma_param_list_in(ts, after_name, home);
            lemma_param_list_moves(ts, after_name, home, file);
            let params = if ts[after_name].kind == TokenKind::LParen {
                read_param_list(ts, after_name)
            } else {
                Ok((Seq::empty(), after_name))
            };
            if let Ok((list, next)) = params {
                let schema = schema_of(BuiltIn::Template);
                lemma_token_moves(ts, next, home, file);
                lemma_struct_body_moves(ts, next, Some(list), schema, home, file);
                if let Ok(((fields, _), _)) = read_struct_body(ts, next, Some(list), schema) {
                    lemma_lowered_moves(fields, file);
                }
            }
        }
    }
}

proof fn lemma_use_moves(ts: Seq<TokenV>, p: int, home: FileId, file: FileId)
    requires
        inside(ts, p, home),
    ensures
        read_use(moved_tokens(ts, file), p) == moved_read::<UseDecl>(read_use(ts, p), file),
{
    lemma_expected_moves(ts, p, TokenKind::Ident, home, file);
    if let Ok((_, after_keyword)) = expected(ts, p, TokenKind::Ident) {
        lemma_expected_moves(ts, after_keyword, TokenKind::Str, home, file);
        if let Ok((path, after_path)) = expected(ts, after_keyword, TokenKind::Str) {
            lemma_string_moves(path, file);
            lemma_token_moves(ts, after_path, home, file);
            if ts[after_path].kind == TokenKind::Ident {
                lemma_expected_moves(ts, after_path + 1, TokenKind::Ident, home, file);
            }
        }
    }
}

proof fn lemma_decl_moves(ts: Seq<TokenV>, p: int, home: FileId, file: FileId)
    requires
        inside(ts, p, home),
    ensures
        read_decl(moved_tokens(ts, file), p) == moved_read::<TopDecl>(read_decl(ts, p), file),
{
    lemma_token_moves(ts, p, home, file);
    lemma_template_moves(ts, p, home, file);
    lemma_use_moves(ts, p, home, file);
    lemma_expected_moves(ts, p, TokenKind::Ident, home, file);
    if let Ok((keyword, after_keyword)) = expected(ts, p, TokenKind::Ident) {
        lemma_expected_moves(ts, after_keyword, TokenKind::Ident, home, file);
        if let Ok((name, after_name)) = expected(ts, after_keyword, TokenKind::Ident) {
            if let Some(built_in) = top_level_built_in(keyword.lexeme) {
                let schema = schema_of(built_in);
                lemma_struct_body_moves(ts, after_name, None, schema, home, file);
                if let Ok(((fields, body), _)) = read_struct_body(ts, after_name, None, schema) {
                    lemma_lowered_decl_moves(
                        built_in,
                        IdentV { name: name.lexeme, span: name.span },
                        fields,
                        joined(keyword.span, body),
                        file,
                    );
                }
            }
        }
    }
}

proof fn lemma_decls_moves(
    ts: Seq<TokenV>,
    p: int,
    before: Seq<TopDeclV>,
    home: FileId,
    file: FileId,
)
    requires
        inside(ts, p, home),
    ensures
        read_decls(moved_tokens(ts, file), p, Vec::<TopDecl>::moved(before, file))
            == match read_decls(ts, p, before) {
            Ok(decls) => Ok(Vec::<TopDecl>::moved(decls, file)),
            Err(error) => Err(error_moved(error, file)),
        },
    decreases ts.len() - p,
{
    lemma_token_moves(ts, p, home, file);
    if ts[p].kind != TokenKind::Eof {
        lemma_decl_in(ts, p, home);
        lemma_decl_moves(ts, p, home, file);
        if let Ok((decl, next)) = read_decl(ts, p) {
            lemma_moved_push::<TopDecl>(before, decl, file);
            lemma_decls_moves(ts, next, before.push(decl), home, file);
        }
    }
}

/// A program read or an error, with every place in `file`.
pub open spec fn outcome_moved(r: Result<ProgramV, ParseErrorV>, file: FileId) -> Result<
    ProgramV,
    ParseErrorV,
> {
    match r {
        Ok(program) => Ok(Program::moved(program, file)),
        Err(error) => Err(error_moved(error, file)),
    }
}

/// A source parsed as a file of a program is the same source parsed on its
/// own, with `file` in every place: it parses as that file if and only if
/// it does so on its own, and but for the file of each place the programs
/// are equal, and so are the errors.
pub proof fn law_parsing_in_a_file_changes_places_only(
    lexed: Result<Seq<TokenV>, Seq<LexErrorV>>,
    file: FileId,
)
    requires
        lexed matches Ok(ts) ==> ends_with_eof(ts),
    ensures
        read_program(lexed_in(lexed, file)) == outcome_moved(
            read_program(lexed_in(lexed, FileId::Anonymous)),
            file,
        ),
{
    let home = FileId::Anonymous;
    match lexed {
        Ok(ts) => {
            let own = ts.map_values(|tok: TokenV| token_in(tok, home));
            let there = ts.map_values(|tok: TokenV| token_in(tok, file));
            assert(own.last() == token_in(ts.last(), home));
            assert(there =~= moved_tokens(own, file));
            lemma_moved_empty::<TopDecl>(file);
            lemma_decls_moves(own, 0, Seq::empty(), home, file);
        },
        Err(errors) => {
            let own = errors.map_values(|error: LexErrorV| error_in(error, home));
            let there = errors.map_values(|error: LexErrorV| error_in(error, file));
            assert(there =~= own.map_values(|error: LexErrorV| error_in(error, file)));
        },
    }
}

} // verus!
