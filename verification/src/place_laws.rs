//! Every place that a parse hands back lies in the file that was parsed.

use vstd::prelude::*;
use vstd::string::*;

use crate::ast::{
    ArrowMap, ArrowMapEntry, ArrowMapEntryV, ArrowMapHost, ArrowMapHostV, ArrowMapV, Build, BuildV,
    Command, DependsOnCondition, DependsOnEntry, DependsOnEntryV, EnvEntry, EnvEntryV, EnvMap,
    EnvMapV, Expose, ExposeV, Healthcheck, HealthcheckV, Ident, IdentV, Image, ImageV, LabelEntry,
    LabelEntryV, LabelMap, LabelMapV, LabelValue, LabelValueV, Literal, LiteralV, Network, NetworkV,
    Param, ParamV, Program, ProgramV, RawEntry, RawEntryV, RawMap, RawMapV, RawValue, RawValueV,
    Restart, RestartV, Service, ServiceFields, ServiceFieldsV, ServiceV, ShellOrExecV, TemplateDecl,
    TemplateDeclV, TemplateInvocation, TemplateInvocationV, TopDecl, TopDeclV, UseDecl, UseDeclV,
    Volume, VolumeDriverOpt, VolumeDriverOptV, VolumeV,
};
use crate::error::ParseErrorV;
use crate::grammar::{
    as_driver_opts, as_mounts, command_of, continues_with_field, ends_with_eof, entry_index,
    entry_text, expected, flag_of, held_dependencies, held_entries, held_invocations, held_labels,
    held_mounts, held_raw, held_references, label_index, lexed_in, lowered_decl,
    lowered_healthcheck, lowered_service_fields, lowered_with, mount_index, mount_text, pair_index,
    param_index, past_colon, past_separator, qualified_name, raw_index, read_access, read_bare,
    read_bracketed, read_condition, read_condition_block, read_decl, read_decls, read_dependency,
    read_entries, read_field_value, read_host, read_invocation, read_invocation_shorthand,
    read_items, read_key, read_list, read_list_field, read_literal, read_literal_shorthand,
    read_map, read_map_body, read_map_field, read_nested, read_param, read_param_list, read_params,
    read_program, read_raw_entry, read_raw_items, read_raw_pairs, read_raw_value, read_reference,
    read_scalar_or_list, read_secondary, read_shorthand, read_statement, read_statements,
    read_struct_body, read_template, read_template_name, read_use, scalar_of, set_index, set_value,
    side_of, single_at, single_place, string_literal, struct_of, token_in, unexpected, with_entries,
    with_labels, with_mounts, with_raw_entries, with_value, Dependencies, EntrySpec, FieldValueV,
    FieldsV, Invocations, ItemSpec, LabelEntries, LiteralEntries, Literals, MountEntries, Parsed,
    RawEntries, References, MAX_RAW_VALUE_DEPTH,
};
use crate::schema::{
    field_from, resolution, schema_of, top_level_built_in, BuiltIn, FieldKind, FieldResolutionV,
    MapSide, SchemaKind, TypeSchemaV,
};
use crate::source::{FileId, LexErrorV, Span, Token, TokenKind, TokenV};

verus! {

/// What holds places.
pub trait Located: DeepView {
    /// Whether every place it holds lies in `file`.
    spec fn located(v: Self::V, file: FileId) -> bool;
}

impl Located for Span {
    open spec fn located(v: Span, file: FileId) -> bool {
        v.file == file
    }
}

impl Located for Token {
    open spec fn located(v: TokenV, file: FileId) -> bool {
        &&& v.span.file == file
        &&& v.content matches Err(error) ==> error.span.file == file
    }
}

impl Located for DependsOnCondition {
    open spec fn located(v: DependsOnCondition, file: FileId) -> bool {
        true
    }
}

impl<T: Located> Located for Option<T> {
    open spec fn located(v: Option<T::V>, file: FileId) -> bool {
        v matches Some(inner) ==> T::located(inner, file)
    }
}

impl<T: Located> Located for Vec<T> {
    open spec fn located(v: Seq<T::V>, file: FileId) -> bool {
        forall|i: int| 0 <= i < v.len() ==> T::located(#[trigger] v[i], file)
    }
}

impl<A: Located, B: Located> Located for (A, B) {
    open spec fn located(v: (A::V, B::V), file: FileId) -> bool {
        A::located(v.0, file) && B::located(v.1, file)
    }
}

/// Whether every place a literal holds lies in `file`.
pub open spec fn literal_located(lit: LiteralV, file: FileId) -> bool
    decreases lit,
{
    match lit {
        LiteralV::Str(_, span) => span.file == file,
        LiteralV::Number { span, .. } => span.file == file,
        LiteralV::Ident(_, span) => span.file == file,
        LiteralV::Qualified(q) => {
            &&& q.qualifier.span.file == file
            &&& q.name_span.file == file
            &&& q.span.file == file
        },
        LiteralV::Field(access) => {
            &&& literal_located(access.base, file)
            &&& access.field.span.file == file
            &&& access.span.file == file
        },
        LiteralV::Param(_, span) => span.file == file,
    }
}

impl Located for Literal {
    open spec fn located(v: LiteralV, file: FileId) -> bool {
        literal_located(v, file)
    }
}

/// Whether every place a command holds lies in `file`.
pub open spec fn command_located(v: ShellOrExecV, file: FileId) -> bool {
    match v {
        ShellOrExecV::Shell(lit) => literal_located(lit, file),
        ShellOrExecV::Exec(items, span) => Vec::<Literal>::located(items, file) && span.file
            == file,
    }
}

impl Located for Command {
    open spec fn located(v: ShellOrExecV, file: FileId) -> bool {
        command_located(v, file)
    }
}

impl Located for ArrowMapHost {
    open spec fn located(v: ArrowMapHostV, file: FileId) -> bool {
        literal_located(v.literal(), file)
    }
}

impl Located for LabelValue {
    open spec fn located(v: LabelValueV, file: FileId) -> bool {
        match v {
            LabelValueV::Scalar(lit) => literal_located(lit, file),
            LabelValueV::List(items, span) => Vec::<Literal>::located(items, file) && span.file
                == file,
        }
    }
}

/// Whether every place a raw value holds lies in `file`.
pub open spec fn raw_located(value: RawValueV, file: FileId) -> bool
    decreases value,
{
    match value {
        RawValueV::Literal(lit) => literal_located(lit, file),
        RawValueV::List(items, span) => {
            &&& span.file == file
            &&& forall|i: int| 0 <= i < items.len() ==> raw_located(#[trigger] items[i], file)
        },
        RawValueV::Mapping(entries, span) => {
            &&& span.file == file
            &&& forall|i: int|
                0 <= i < entries.len() ==> literal_located((#[trigger] entries[i]).0, file)
                    && raw_located(entries[i].1, file)
        },
    }
}

impl Located for RawValue {
    open spec fn located(v: RawValueV, file: FileId) -> bool {
        raw_located(v, file)
    }
}

impl Located for Ident {
    open spec fn located(v: IdentV, file: FileId) -> bool {
        &&& v.span.file == file
    }
}

impl Located for Param {
    open spec fn located(v: ParamV, file: FileId) -> bool {
        &&& Ident::located(v.name, file)
    }
}

impl Located for DependsOnEntry {
    open spec fn located(v: DependsOnEntryV, file: FileId) -> bool {
        &&& Literal::located(v.reference, file)
        &&& Option::<(DependsOnCondition, Span)>::located(v.condition, file)
        &&& v.span.file == file
    }
}

impl Located for Network {
    open spec fn located(v: NetworkV, file: FileId) -> bool {
        &&& Ident::located(v.name, file)
        &&& Option::<Span>::located(v.external, file)
        &&& Option::<Literal>::located(v.real_name, file)
        &&& v.span.file == file
    }
}

impl Located for VolumeDriverOpt {
    open spec fn located(v: VolumeDriverOptV, file: FileId) -> bool {
        &&& Literal::located(v.key, file)
        &&& Literal::located(v.value, file)
        &&& v.span.file == file
    }
}

impl Located for Volume {
    open spec fn located(v: VolumeV, file: FileId) -> bool {
        &&& Ident::located(v.name, file)
        &&& Option::<Span>::located(v.external, file)
        &&& Option::<Literal>::located(v.real_name, file)
        &&& Option::<Literal>::located(v.driver, file)
        &&& Vec::<VolumeDriverOpt>::located(v.driver_opts, file)
        &&& v.span.file == file
    }
}

impl Located for Image {
    open spec fn located(v: ImageV, file: FileId) -> bool {
        &&& Option::<Literal>::located(v.reference, file)
        &&& v.span.file == file
    }
}

impl Located for Build {
    open spec fn located(v: BuildV, file: FileId) -> bool {
        &&& Option::<Literal>::located(v.context, file)
        &&& Option::<Literal>::located(v.dockerfile, file)
        &&& v.span.file == file
    }
}

impl Located for Expose {
    open spec fn located(v: ExposeV, file: FileId) -> bool {
        &&& Option::<Literal>::located(v.port, file)
        &&& v.span.file == file
    }
}

impl Located for Restart {
    open spec fn located(v: RestartV, file: FileId) -> bool {
        &&& Option::<Literal>::located(v.policy, file)
        &&& v.span.file == file
    }
}

impl Located for Healthcheck {
    open spec fn located(v: HealthcheckV, file: FileId) -> bool {
        &&& Option::<Command>::located(v.test, file)
        &&& Option::<Literal>::located(v.interval, file)
        &&& Option::<Literal>::located(v.timeout, file)
        &&& Option::<Literal>::located(v.retries, file)
        &&& Option::<Literal>::located(v.start_period, file)
        &&& Option::<Literal>::located(v.start_interval, file)
        &&& Option::<Span>::located(v.disable, file)
        &&& v.span.file == file
    }
}

impl Located for ArrowMapEntry {
    open spec fn located(v: ArrowMapEntryV, file: FileId) -> bool {
        &&& ArrowMapHost::located(v.host, file)
        &&& Literal::located(v.container, file)
        &&& v.span.file == file
    }
}

impl Located for ArrowMap {
    open spec fn located(v: ArrowMapV, file: FileId) -> bool {
        &&& Vec::<ArrowMapEntry>::located(v.entries, file)
    }
}

impl Located for EnvEntry {
    open spec fn located(v: EnvEntryV, file: FileId) -> bool {
        &&& Literal::located(v.key, file)
        &&& Literal::located(v.value, file)
        &&& v.span.file == file
    }
}

impl Located for EnvMap {
    open spec fn located(v: EnvMapV, file: FileId) -> bool {
        &&& Vec::<EnvEntry>::located(v.entries, file)
    }
}

impl Located for LabelEntry {
    open spec fn located(v: LabelEntryV, file: FileId) -> bool {
        &&& Literal::located(v.key, file)
        &&& LabelValue::located(v.value, file)
        &&& v.span.file == file
    }
}

impl Located for LabelMap {
    open spec fn located(v: LabelMapV, file: FileId) -> bool {
        &&& Vec::<LabelEntry>::located(v.entries, file)
    }
}

impl Located for RawEntry {
    open spec fn located(v: RawEntryV, file: FileId) -> bool {
        &&& Literal::located(v.key, file)
        &&& RawValue::located(v.value, file)
        &&& v.span.file == file
    }
}

impl Located for RawMap {
    open spec fn located(v: RawMapV, file: FileId) -> bool {
        &&& Vec::<RawEntry>::located(v.entries, file)
    }
}

impl Located for TemplateInvocation {
    open spec fn located(v: TemplateInvocationV, file: FileId) -> bool {
        &&& Option::<Ident>::located(v.qualifier, file)
        &&& Ident::located(v.name, file)
        &&& RawMap::located(v.args, file)
        &&& v.span.file == file
    }
}

impl Located for ServiceFields {
    open spec fn located(v: ServiceFieldsV, file: FileId) -> bool {
        &&& Option::<Image>::located(v.image, file)
        &&& Option::<Build>::located(v.build, file)
        &&& Option::<Expose>::located(v.expose, file)
        &&& Option::<Restart>::located(v.restart, file)
        &&& Option::<Healthcheck>::located(v.healthcheck, file)
        &&& ArrowMap::located(v.publish, file)
        &&& ArrowMap::located(v.volumes, file)
        &&& EnvMap::located(v.env, file)
        &&& LabelMap::located(v.labels, file)
        &&& RawMap::located(v.raw, file)
        &&& Vec::<DependsOnEntry>::located(v.depends_on, file)
        &&& Vec::<Literal>::located(v.networks, file)
        &&& Vec::<Literal>::located(v.dns, file)
        &&& Vec::<Literal>::located(v.env_file, file)
        &&& Option::<Span>::located(v.privileged, file)
        &&& ArrowMap::located(v.devices, file)
        &&& Option::<Literal>::located(v.container_name, file)
        &&& Option::<Command>::located(v.command, file)
        &&& Option::<Command>::located(v.entrypoint, file)
        &&& Vec::<TemplateInvocation>::located(v.with, file)
    }
}

impl Located for Service {
    open spec fn located(v: ServiceV, file: FileId) -> bool {
        &&& Ident::located(v.name, file)
        &&& ServiceFields::located(v.fields, file)
        &&& v.span.file == file
    }
}

impl Located for TemplateDecl {
    open spec fn located(v: TemplateDeclV, file: FileId) -> bool {
        &&& Ident::located(v.name, file)
        &&& Vec::<Param>::located(v.params, file)
        &&& ServiceFields::located(v.fields, file)
        &&& v.span.file == file
    }
}

impl Located for UseDecl {
    open spec fn located(v: UseDeclV, file: FileId) -> bool {
        &&& Literal::located(v.path, file)
        &&& Ident::located(v.alias, file)
        &&& v.span.file == file
    }
}

impl Located for Program {
    open spec fn located(v: ProgramV, file: FileId) -> bool {
        &&& Vec::<TopDecl>::located(v.decls, file)
    }
}

impl Located for TopDecl {
    open spec fn located(v: TopDeclV, file: FileId) -> bool {
        match v {
            TopDeclV::Network(n) => Network::located(n, file),
            TopDeclV::Volume(d) => Volume::located(d, file),
            TopDeclV::Service(s) => Service::located(s, file),
            TopDeclV::Template(t) => TemplateDecl::located(t, file),
            TopDeclV::Use(u) => UseDecl::located(u, file),
        }
    }
}

/// Whether every place an error holds lies in `file`.
pub open spec fn error_located(error: ParseErrorV, file: FileId) -> bool {
    match error {
        ParseErrorV::Lex(errors) => forall|i: int|
            0 <= i < errors.len() ==> (#[trigger] errors[i]).span.file == file,
        ParseErrorV::UnexpectedToken { span, .. } => span.file == file,
        ParseErrorV::UnknownTopLevelType { span, .. } => span.file == file,
        ParseErrorV::UnknownField { span, .. } => span.file == file,
        ParseErrorV::MovedField { span, .. } => span.file == file,
        ParseErrorV::RemovedExposeAsSugar { span } => span.file == file,
        ParseErrorV::DuplicateField {
            first,
            second,
            ..
        } => first.file == file && second.file == file,
        ParseErrorV::DuplicateMapKey {
            first,
            second,
            ..
        } => first.file == file && second.file == file,
        ParseErrorV::NumberOutOfRange { span, .. } => span.file == file,
        ParseErrorV::DuplicateTemplateParam {
            first,
            second,
            ..
        } => first.file == file && second.file == file,
        ParseErrorV::UnknownParamType { span, .. } => span.file == file,
        ParseErrorV::ParamReferenceOutsideTemplate { span, .. } => span.file == file,
        ParseErrorV::UnknownTemplateParam { span, .. } => span.file == file,
        ParseErrorV::RawValueTooDeep { span, .. } => span.file == file,
        ParseErrorV::AliasSugarCannotContinue { span, .. } => span.file == file,
        ParseErrorV::MapEntryMissingSeparator { span, .. } => span.file == file,
        ParseErrorV::InvalidDependsOnCondition { span, .. } => span.file == file,
        ParseErrorV::MatchExprTooDeep { span, .. } => span.file == file,
        ParseErrorV::UnknownMatcher { span, .. } => span.file == file,
        ParseErrorV::MatcherArity { span, .. } => span.file == file,
    }
}

/// Whether every place that was read lies in `file`, and what was read
/// ends among the tokens, at `low` or behind it; or every place of the
/// error lies in `file`.
pub open spec fn read_in<T: Located>(
    r: Parsed<T::V>,
    low: int,
    ts: Seq<TokenV>,
    file: FileId,
) -> bool {
    match r {
        Ok((v, next)) => T::located(v, file) && low <= next && next < ts.len(),
        Err(error) => error_located(error, file),
    }
}

/// Whether a position lies among tokens of one file.
pub open spec fn inside(ts: Seq<TokenV>, p: int, file: FileId) -> bool {
    &&& ends_with_eof(ts)
    &&& 0 <= p < ts.len()
    &&& Vec::<Token>::located(ts, file)
}

pub(crate) proof fn lemma_here(ts: Seq<TokenV>, p: int, file: FileId)
    requires
        inside(ts, p, file),
    ensures
        Token::located(ts[p], file),
        ts[p].kind != TokenKind::Eof ==> p + 1 < ts.len(),
        forall|wanted: crate::error::ExpectedV| error_located(
            #[trigger] unexpected(ts, p, wanted),
            file,
        ),
{
    assert(p + 1 == ts.len() ==> ts.last() == ts[p]);
}

pub(crate) proof fn lemma_expected_in(ts: Seq<TokenV>, p: int, kind: TokenKind, file: FileId)
    requires
        inside(ts, p, file),
        kind != TokenKind::Eof,
    ensures
        read_in::<Token>(expected(ts, p, kind), p + 1, ts, file),
        expected(ts, p, kind) matches Ok((tok, next)) ==> tok == ts[p] && next == p + 1,
{
    lemma_here(ts, p, file);
}

pub(crate) proof fn lemma_string_in(tok: TokenV, file: FileId)
    requires
        Token::located(tok, file),
    ensures
        match string_literal(tok) {
            Ok(lit) => literal_located(lit, file),
            Err(error) => error_located(error, file),
        },
{
}

pub(crate) proof fn lemma_param_in(
    ts: Seq<TokenV>,
    p: int,
    params: Option<Seq<ParamV>>,
    file: FileId,
)
    requires
        inside(ts, p, file),
        ts[p].kind == TokenKind::Dollar,
    ensures
        read_in::<Literal>(read_param(ts, p, params), p + 1, ts, file),
{
    lemma_here(ts, p, file);
    lemma_expected_in(ts, p + 1, TokenKind::Ident, file);
}

pub(crate) proof fn lemma_access_in(ts: Seq<TokenV>, p: int, base: LiteralV, file: FileId)
    requires
        inside(ts, p, file),
        ts[p].kind == TokenKind::Dot,
        literal_located(base, file),
    ensures
        read_in::<Literal>(read_access(ts, p, base), p + 1, ts, file),
{
    lemma_here(ts, p, file);
    lemma_expected_in(ts, p + 1, TokenKind::Ident, file);
}

pub(crate) proof fn lemma_literal_in(
    ts: Seq<TokenV>,
    p: int,
    params: Option<Seq<ParamV>>,
    file: FileId,
)
    requires
        inside(ts, p, file),
    ensures
        read_in::<Literal>(read_literal(ts, p, params), p + 1, ts, file),
{
    lemma_here(ts, p, file);
    lemma_string_in(ts[p], file);
    if ts[p].kind == TokenKind::Dollar {
        lemma_param_in(ts, p, params, file);
        if let Ok((param, next)) = read_param(ts, p, params) {
            if ts[next].kind == TokenKind::Dot {
                lemma_access_in(ts, next, param, file);
            }
        }
    }
    if ts[p].kind == TokenKind::Ident && ts[p + 1].kind == TokenKind::Dot {
        lemma_here(ts, p + 1, file);
        lemma_expected_in(ts, p + 2, TokenKind::Ident, file);
        if let Ok((second, next)) = expected(ts, p + 2, TokenKind::Ident) {
            if ts[next].kind == TokenKind::Dot {
                lemma_access_in(ts, next, qualified_name(ts[p], second), file);
            }
            lemma_access_in(ts, p + 1, LiteralV::Ident(ts[p].lexeme, ts[p].span), file);
        }
    }
}

pub(crate) proof fn lemma_key_in(ts: Seq<TokenV>, p: int, file: FileId)
    requires
        inside(ts, p, file),
    ensures
        read_in::<Literal>(read_key(ts, p), p + 1, ts, file),
{
    lemma_here(ts, p, file);
    lemma_string_in(ts[p], file);
}

pub(crate) proof fn lemma_reference_in(
    ts: Seq<TokenV>,
    p: int,
    params: Option<Seq<ParamV>>,
    file: FileId,
)
    requires
        inside(ts, p, file),
    ensures
        read_in::<Literal>(read_reference(ts, p, params), p + 1, ts, file),
{
    lemma_here(ts, p, file);
    lemma_key_in(ts, p, file);
    if ts[p].kind == TokenKind::Dollar {
        lemma_param_in(ts, p, params, file);
    } else if let Ok((key, next)) = read_key(ts, p) {
        lemma_here(ts, next, file);
        if ts[next].kind == TokenKind::Dot {
            lemma_expected_in(ts, next + 1, TokenKind::Ident, file);
        }
    }
}

pub(crate) proof fn lemma_place_in(lit: LiteralV, file: FileId)
    requires
        literal_located(lit, file),
    ensures
        lit.span().file == file,
{
}

/// Items whose places are known.
pub trait ItemLocated: ItemSpec {
    type Held: Located<V = <Self as ItemSpec>::V>;

    /// An item lies in the file it is read from.
    proof fn lemma_item_in(ts: Seq<TokenV>, p: int, params: Option<Seq<ParamV>>, file: FileId)
        requires
            inside(ts, p, file),
        ensures
            read_in::<Self::Held>(Self::item(ts, p, params), p + 1, ts, file),
    ;
}

impl ItemLocated for References {
    type Held = Literal;

    proof fn lemma_item_in(ts: Seq<TokenV>, p: int, params: Option<Seq<ParamV>>, file: FileId) {
        lemma_reference_in(ts, p, params, file);
    }
}

impl ItemLocated for Literals {
    type Held = Literal;

    proof fn lemma_item_in(ts: Seq<TokenV>, p: int, params: Option<Seq<ParamV>>, file: FileId) {
        lemma_literal_in(ts, p, params, file);
    }
}

impl ItemLocated for Dependencies {
    type Held = DependsOnEntry;

    proof fn lemma_item_in(ts: Seq<TokenV>, p: int, params: Option<Seq<ParamV>>, file: FileId) {
        lemma_dependency_in(ts, p, params, file);
    }
}

impl ItemLocated for Invocations {
    type Held = TemplateInvocation;

    proof fn lemma_item_in(ts: Seq<TokenV>, p: int, params: Option<Seq<ParamV>>, file: FileId) {
        lemma_invocation_in(ts, p, params, file);
    }
}

pub(crate) proof fn lemma_items_in<K: ItemLocated>(
    ts: Seq<TokenV>,
    p: int,
    params: Option<Seq<ParamV>>,
    before: Seq<<K as ItemSpec>::V>,
    file: FileId,
)
    requires
        inside(ts, p, file),
        Vec::<K::Held>::located(before, file),
    ensures
        read_in::<Vec<K::Held>>(read_items::<K>(ts, p, params, before), p + 1, ts, file),
    decreases ts.len() - p,
{
    K::lemma_item_in(ts, p, params, file);
    if let Ok((item, next)) = K::item(ts, p, params) {
        assert(Vec::<K::Held>::located(before.push(item), file));
        lemma_here(ts, next, file);
        if ts[next].kind == TokenKind::Comma {
            lemma_items_in::<K>(ts, next + 1, params, before.push(item), file);
        }
    }
}

pub(crate) proof fn lemma_bracketed_in<K: ItemLocated>(
    ts: Seq<TokenV>,
    p: int,
    params: Option<Seq<ParamV>>,
    file: FileId,
)
    requires
        inside(ts, p, file),
    ensures
        read_in::<(Vec<K::Held>, Span)>(read_bracketed::<K>(ts, p, params), p + 1, ts, file),
{
    lemma_expected_in(ts, p, TokenKind::LBracket, file);
    if let Ok((_, first)) = expected(ts, p, TokenKind::LBracket) {
        lemma_items_in::<K>(ts, first, params, Seq::empty(), file);
        if ts[first].kind == TokenKind::RBracket {
            lemma_expected_in(ts, first, TokenKind::RBracket, file);
        } else if let Ok((_, last)) = read_items::<K>(ts, first, params, Seq::empty()) {
            lemma_expected_in(ts, last, TokenKind::RBracket, file);
        }
    }
}

pub(crate) proof fn lemma_bare_in<K: ItemLocated>(
    ts: Seq<TokenV>,
    p: int,
    params: Option<Seq<ParamV>>,
    before: Seq<<K as ItemSpec>::V>,
    file: FileId,
)
    requires
        inside(ts, p, file),
        Vec::<K::Held>::located(before, file),
    ensures
        read_in::<Vec<K::Held>>(read_bare::<K>(ts, p, params, before), p + 1, ts, file),
    decreases ts.len() - p,
{
    K::lemma_item_in(ts, p, params, file);
    if let Ok((item, next)) = K::item(ts, p, params) {
        assert(Vec::<K::Held>::located(before.push(item), file));
        lemma_here(ts, next, file);
        if ts[next].kind == TokenKind::Comma {
            lemma_bare_in::<K>(ts, next + 1, params, before.push(item), file);
        }
    }
}

pub(crate) proof fn lemma_past_colon(ts: Seq<TokenV>, p: int, file: FileId)
    requires
        inside(ts, p, file),
    ensures
        p <= past_colon(ts, p) < ts.len(),
{
    lemma_here(ts, p, file);
}

pub(crate) proof fn lemma_list_in<K: ItemLocated>(
    ts: Seq<TokenV>,
    p: int,
    params: Option<Seq<ParamV>>,
    file: FileId,
)
    requires
        inside(ts, p, file),
    ensures
        read_in::<Vec<K::Held>>(read_list::<K>(ts, p, params), p + 1, ts, file),
{
    lemma_past_colon(ts, p, file);
    let start = past_colon(ts, p);
    lemma_here(ts, start, file);
    lemma_bracketed_in::<K>(ts, start, params, file);
    lemma_bare_in::<K>(ts, start, params, Seq::empty(), file);
}

pub(crate) proof fn lemma_command_in(
    ts: Seq<TokenV>,
    p: int,
    params: Option<Seq<ParamV>>,
    file: FileId,
)
    requires
        inside(ts, p, file),
    ensures
        read_in::<Command>(read_scalar_or_list(ts, p, params), p + 1, ts, file),
{
    lemma_past_colon(ts, p, file);
    let start = past_colon(ts, p);
    lemma_here(ts, start, file);
    lemma_bracketed_in::<Literals>(ts, start, params, file);
    lemma_literal_in(ts, start, params, file);
}

pub(crate) proof fn lemma_condition_block_in(ts: Seq<TokenV>, p: int, file: FileId)
    requires
        inside(ts, p, file),
    ensures
        read_in::<((DependsOnCondition, Span), Span)>(
            read_condition_block(ts, p),
            p + 1,
            ts,
            file,
        ),
{
    lemma_expected_in(ts, p, TokenKind::Ident, file);
    if let Ok((key, after_key)) = expected(ts, p, TokenKind::Ident) {
        lemma_expected_in(ts, after_key, TokenKind::Colon, file);
        if let Ok((_, after_colon)) = expected(ts, after_key, TokenKind::Colon) {
            lemma_here(ts, after_colon, file);
            if let Ok((_, after)) = read_condition(ts, after_colon) {
                lemma_expected_in(ts, after, TokenKind::RBrace, file);
            }
        }
    }
}

pub(crate) proof fn lemma_dependency_in(
    ts: Seq<TokenV>,
    p: int,
    params: Option<Seq<ParamV>>,
    file: FileId,
)
    requires
        inside(ts, p, file),
    ensures
        read_in::<DependsOnEntry>(read_dependency(ts, p, params), p + 1, ts, file),
{
    lemma_reference_in(ts, p, params, file);
    if let Ok((reference, next)) = read_reference(ts, p, params) {
        lemma_place_in(reference, file);
        lemma_here(ts, next, file);
        if ts[next].kind == TokenKind::LBrace {
            lemma_condition_block_in(ts, next + 1, file);
        }
    }
}

pub(crate) proof fn lemma_pair_index(pairs: Seq<(LiteralV, RawValueV)>, key: Seq<char>, i: int)
    requires
        0 <= i <= pairs.len(),
    ensures
        i <= pair_index(pairs, key, i) <= pairs.len(),
    decreases pairs.len() - i,
{
    if i < pairs.len() {
        lemma_pair_index(pairs, key, i + 1);
    }
}

pub(crate) proof fn lemma_raw_value_in(
    ts: Seq<TokenV>,
    p: int,
    params: Option<Seq<ParamV>>,
    depth: int,
    file: FileId,
)
    requires
        inside(ts, p, file),
    ensures
        read_in::<RawValue>(read_raw_value(ts, p, params, depth), p + 1, ts, file),
    decreases ts.len() - p, 0int,
{
    lemma_here(ts, p, file);
    lemma_literal_in(ts, p, params, file);
    if !(depth + 1 > MAX_RAW_VALUE_DEPTH) && p + 1 < ts.len() {
        if ts[p].kind == TokenKind::LBracket {
            lemma_raw_items_in(ts, p + 1, params, depth + 1, Seq::empty(), file);
            if ts[p + 1].kind == TokenKind::RBracket {
                lemma_expected_in(ts, p + 1, TokenKind::RBracket, file);
            } else if let Ok((_, last)) = read_raw_items(
                ts,
                p + 1,
                params,
                depth + 1,
                Seq::empty(),
            ) {
                lemma_expected_in(ts, last, TokenKind::RBracket, file);
            }
        } else if ts[p].kind == TokenKind::LBrace {
            lemma_raw_pairs_in(ts, p + 1, params, depth + 1, Seq::empty(), file);
            if let Ok((_, last)) = read_raw_pairs(ts, p + 1, params, depth + 1, Seq::empty()) {
                lemma_expected_in(ts, last, TokenKind::RBrace, file);
            }
        }
    }
}

pub(crate) proof fn lemma_raw_items_in(
    ts: Seq<TokenV>,
    p: int,
    params: Option<Seq<ParamV>>,
    depth: int,
    before: Seq<RawValueV>,
    file: FileId,
)
    requires
        inside(ts, p, file),
        forall|i: int| 0 <= i < before.len() ==> raw_located(#[trigger] before[i], file),
    ensures
        read_in::<Vec<RawValue>>(
            read_raw_items(ts, p, params, depth, before),
            p + 1,
            ts,
            file,
        ),
    decreases ts.len() - p, 1int,
{
    lemma_raw_value_in(ts, p, params, depth, file);
    if let Ok((item, next)) = read_raw_value(ts, p, params, depth) {
        lemma_here(ts, next, file);
        if ts[next].kind == TokenKind::Comma {
            lemma_raw_items_in(ts, next + 1, params, depth, before.push(item), file);
        }
    }
}

/// Whether every place that pairs hold lies in `file`.
pub open spec fn pairs_located(pairs: Seq<(LiteralV, RawValueV)>, file: FileId) -> bool {
    forall|i: int|
        0 <= i < pairs.len() ==> literal_located((#[trigger] pairs[i]).0, file) && raw_located(
            pairs[i].1,
            file,
        )
}

pub(crate) proof fn lemma_raw_pairs_in(
    ts: Seq<TokenV>,
    p: int,
    params: Option<Seq<ParamV>>,
    depth: int,
    before: Seq<(LiteralV, RawValueV)>,
    file: FileId,
)
    requires
        inside(ts, p, file),
        pairs_located(before, file),
    ensures
        match read_raw_pairs(ts, p, params, depth, before) {
            Ok((pairs, next)) => pairs_located(pairs, file) && p <= next && next < ts.len(),
            Err(error) => error_located(error, file),
        },
    decreases ts.len() - p, 1int,
{
    if ts[p].kind != TokenKind::RBrace {
        lemma_key_in(ts, p, file);
        if let Ok((key, after_key)) = read_key(ts, p) {
            lemma_place_in(key, file);
            lemma_expected_in(ts, after_key, TokenKind::Colon, file);
            if let Ok((_, after_colon)) = expected(ts, after_key, TokenKind::Colon) {
                lemma_raw_value_in(ts, after_colon, params, depth, file);
                if let Ok((value, after)) = read_raw_value(ts, after_colon, params, depth) {
                    lemma_here(ts, after, file);
                    lemma_pair_index(before, key.text(), 0);
                    let at = pair_index(before, key.text(), 0);
                    if at < before.len() {
                        lemma_place_in(before[at].0, file);
                    }
                    let next = if ts[after].kind == TokenKind::Comma {
                        after + 1
                    } else {
                        after
                    };
                    lemma_raw_pairs_in(ts, next, params, depth, before.push((key, value)), file);
                }
            }
        }
    }
}

pub(crate) proof fn lemma_raw_entry_in(
    ts: Seq<TokenV>,
    p: int,
    params: Option<Seq<ParamV>>,
    file: FileId,
)
    requires
        inside(ts, p, file),
    ensures
        read_in::<RawEntry>(read_raw_entry(ts, p, params), p + 1, ts, file),
{
    lemma_key_in(ts, p, file);
    if let Ok((key, after_key)) = read_key(ts, p) {
        lemma_place_in(key, file);
        lemma_expected_in(ts, after_key, TokenKind::Colon, file);
        if let Ok((_, after_colon)) = expected(ts, after_key, TokenKind::Colon) {
            lemma_raw_value_in(ts, after_colon, params, 0, file);
        }
    }
}

/// Entries whose places are known.
pub trait EntryLocated: EntrySpec {
    type Held: Located<V = <Self as EntrySpec>::V>;

    /// An entry lies in the file it is read from.
    proof fn lemma_entry_in(
        ts: Seq<TokenV>,
        p: int,
        params: Option<Seq<ParamV>>,
        schema: TypeSchemaV,
        file: FileId,
    )
        requires
            inside(ts, p, file),
        ensures
            read_in::<Self::Held>(Self::entry(ts, p, params, schema), p + 1, ts, file),
    ;
}

pub(crate) proof fn lemma_separator_in(
    ts: Seq<TokenV>,
    p: int,
    schema: TypeSchemaV,
    key_span: Span,
    file: FileId,
)
    requires
        inside(ts, p, file),
        key_span.file == file,
    ensures
        match past_separator(ts, p, schema, key_span) {
            Ok(next) => p <= next < ts.len(),
            Err(error) => error_located(error, file),
        },
{
    lemma_here(ts, p, file);
}

impl EntryLocated for RawEntries {
    type Held = RawEntry;

    proof fn lemma_entry_in(
        ts: Seq<TokenV>,
        p: int,
        params: Option<Seq<ParamV>>,
        schema: TypeSchemaV,
        file: FileId,
    ) {
        lemma_raw_entry_in(ts, p, params, file);
    }
}

impl EntryLocated for LiteralEntries {
    type Held = EnvEntry;

    proof fn lemma_entry_in(
        ts: Seq<TokenV>,
        p: int,
        params: Option<Seq<ParamV>>,
        schema: TypeSchemaV,
        file: FileId,
    ) {
        lemma_literal_in(ts, p, params, file);
        if let Ok((key, after_key)) = read_literal(ts, p, params) {
            lemma_place_in(key, file);
            lemma_separator_in(ts, after_key, schema, key.span(), file);
            if let Ok(after) = past_separator(ts, after_key, schema, key.span()) {
                lemma_literal_in(ts, after, params, file);
            }
        }
    }
}

impl EntryLocated for LabelEntries {
    type Held = LabelEntry;

    proof fn lemma_entry_in(
        ts: Seq<TokenV>,
        p: int,
        params: Option<Seq<ParamV>>,
        schema: TypeSchemaV,
        file: FileId,
    ) {
        lemma_literal_in(ts, p, params, file);
        if let Ok((key, after_key)) = read_literal(ts, p, params) {
            lemma_place_in(key, file);
            lemma_separator_in(ts, after_key, schema, key.span(), file);
            if let Ok(after) = past_separator(ts, after_key, schema, key.span()) {
                lemma_literal_in(ts, after, params, file);
                lemma_bracketed_in::<Literals>(ts, after, params, file);
            }
        }
    }
}

impl EntryLocated for MountEntries {
    type Held = ArrowMapEntry;

    proof fn lemma_entry_in(
        ts: Seq<TokenV>,
        p: int,
        params: Option<Seq<ParamV>>,
        schema: TypeSchemaV,
        file: FileId,
    ) {
        lemma_literal_in(ts, p, params, file);
        lemma_reference_in(ts, p, params, file);
        if let Ok((host, after_host)) = read_host(ts, p, params) {
            let start = host.literal().span();
            lemma_place_in(host.literal(), file);
            lemma_separator_in(ts, after_host, schema, start, file);
            if let Ok(after) = past_separator(ts, after_host, schema, start) {
                lemma_literal_in(ts, after, params, file);
                if let Ok((container, next)) = read_literal(ts, after, params) {
                    lemma_here(ts, next, file);
                    if ts[next].kind == TokenKind::LBrace {
                        lemma_expected_in(ts, next + 1, TokenKind::Ident, file);
                        if let Ok((_, after_key)) = expected(ts, next + 1, TokenKind::Ident) {
                            lemma_expected_in(ts, after_key, TokenKind::RBrace, file);
                        }
                    }
                }
            }
        }
    }
}

pub(crate) proof fn lemma_entries_in<E: EntryLocated>(
    ts: Seq<TokenV>,
    p: int,
    params: Option<Seq<ParamV>>,
    schema: TypeSchemaV,
    before: Seq<<E as EntrySpec>::V>,
    file: FileId,
)
    requires
        inside(ts, p, file),
        Vec::<E::Held>::located(before, file),
    ensures
        read_in::<Vec<E::Held>>(read_entries::<E>(ts, p, params, schema, before), p, ts, file),
    decreases ts.len() - p,
{
    if ts[p].kind != TokenKind::RBrace {
        E::lemma_entry_in(ts, p, params, schema, file);
        if let Ok((entry, after)) = E::entry(ts, p, params, schema) {
            assert(Vec::<E::Held>::located(before.push(entry), file));
            lemma_here(ts, after, file);
            let next = if ts[after].kind == TokenKind::Comma {
                after + 1
            } else {
                after
            };
            lemma_entries_in::<E>(ts, next, params, schema, before.push(entry), file);
        }
    }
}

pub(crate) proof fn lemma_map_body_in<E: EntryLocated>(
    ts: Seq<TokenV>,
    p: int,
    params: Option<Seq<ParamV>>,
    schema: TypeSchemaV,
    file: FileId,
)
    requires
        inside(ts, p, file),
    ensures
        read_in::<Vec<E::Held>>(read_map_body::<E>(ts, p, params, schema), p + 1, ts, file),
{
    lemma_expected_in(ts, p, TokenKind::LBrace, file);
    if let Ok((_, first)) = expected(ts, p, TokenKind::LBrace) {
        lemma_entries_in::<E>(ts, first, params, schema, Seq::empty(), file);
        if let Ok((_, last)) = read_entries::<E>(ts, first, params, schema, Seq::empty()) {
            lemma_expected_in(ts, last, TokenKind::RBrace, file);
        }
    }
}

pub(crate) proof fn lemma_map_in<E: EntryLocated>(
    ts: Seq<TokenV>,
    p: int,
    params: Option<Seq<ParamV>>,
    schema: TypeSchemaV,
    file: FileId,
)
    requires
        inside(ts, p, file),
    ensures
        read_in::<Vec<E::Held>>(read_map::<E>(ts, p, params, schema), p + 1, ts, file),
{
    lemma_here(ts, p, file);
    lemma_map_body_in::<E>(ts, p, params, schema, file);
    E::lemma_entry_in(ts, p, params, schema, file);
}

pub(crate) proof fn lemma_invocation_in(
    ts: Seq<TokenV>,
    p: int,
    params: Option<Seq<ParamV>>,
    file: FileId,
)
    requires
        inside(ts, p, file),
    ensures
        read_in::<TemplateInvocation>(read_invocation(ts, p, params), p + 1, ts, file),
{
    lemma_expected_in(ts, p, TokenKind::Ident, file);
    if let Ok((_, next)) = expected(ts, p, TokenKind::Ident) {
        lemma_here(ts, next, file);
        if ts[next].kind == TokenKind::Dot {
            lemma_expected_in(ts, next + 1, TokenKind::Ident, file);
        }
    }
    if let Ok((_, next)) = read_template_name(ts, p) {
        lemma_map_body_in::<RawEntries>(ts, next, params, schema_of(BuiltIn::Raw), file);
        if let Ok((_, end)) = read_map_body::<RawEntries>(
            ts,
            next,
            params,
            schema_of(BuiltIn::Raw),
        ) {
            lemma_here(ts, end - 1, file);
        }
    }
}

/// Whether every place that a field's value holds lies in `file`.
pub open spec fn value_located(value: FieldValueV, file: FileId) -> bool
    decreases value,
{
    match value {
        FieldValueV::Scalar(lit) => literal_located(lit, file),
        FieldValueV::Flag(span) => span.file == file,
        FieldValueV::Struct(inner, span) => {
            &&& span.file == file
            &&& forall|i: int| 0 <= i < inner.len() ==> value_located((#[trigger] inner[i]).1, file)
        },
        FieldValueV::LiteralMap(entries) => Vec::<EnvEntry>::located(entries, file),
        FieldValueV::LabelMap(entries) => Vec::<LabelEntry>::located(entries, file),
        FieldValueV::MountMap(entries) => Vec::<ArrowMapEntry>::located(entries, file),
        FieldValueV::Raw(entries) => Vec::<RawEntry>::located(entries, file),
        FieldValueV::References(refs) => Vec::<Literal>::located(refs, file),
        FieldValueV::Invocations(items) => Vec::<TemplateInvocation>::located(items, file),
        FieldValueV::ScalarOrList(command) => command_located(command, file),
        FieldValueV::Dependencies(entries) => Vec::<DependsOnEntry>::located(entries, file),
    }
}

/// Whether every place that a body's fields hold lies in `file`.
pub open spec fn fields_located(fields: FieldsV, file: FileId) -> bool {
    forall|i: int| 0 <= i < fields.len() ==> value_located((#[trigger] fields[i]).1, file)
}

/// As [`read_in`], of a body's fields.
pub open spec fn fields_in(r: Parsed<FieldsV>, low: int, ts: Seq<TokenV>, file: FileId) -> bool {
    match r {
        Ok((fields, next)) => fields_located(fields, file) && low <= next && next < ts.len(),
        Err(error) => error_located(error, file),
    }
}

/// As [`read_in`], of a body's fields and the place they stand in.
pub open spec fn body_in(
    r: Parsed<(FieldsV, Span)>,
    low: int,
    ts: Seq<TokenV>,
    file: FileId,
) -> bool {
    match r {
        Ok(((fields, span), next)) => fields_located(fields, file) && span.file == file && low
            <= next && next < ts.len(),
        Err(error) => error_located(error, file),
    }
}

pub(crate) proof fn lemma_set_index(fields: FieldsV, name: Seq<char>, i: int)
    requires
        0 <= i <= fields.len(),
    ensures
        i <= set_index(fields, name, i) <= fields.len(),
    decreases fields.len() - i,
{
    if i < fields.len() {
        lemma_set_index(fields, name, i + 1);
    }
}

pub(crate) proof fn lemma_set_value_in(fields: FieldsV, name: Seq<char>, file: FileId)
    requires
        fields_located(fields, file),
    ensures
        set_value(fields, name) matches Some(value) ==> value_located(value, file),
{
    lemma_set_index(fields, name, 0);
}

pub(crate) proof fn lemma_with_value_in(
    fields: FieldsV,
    name: Seq<char>,
    value: FieldValueV,
    file: FileId,
)
    requires
        fields_located(fields, file),
        value_located(value, file),
    ensures
        fields_located(with_value(fields, name, value), file),
        fields_located(fields.push((name, value)), file),
{
    lemma_set_index(fields, name, 0);
}

pub(crate) proof fn lemma_single_place_in(value: FieldValueV, file: FileId)
    requires
        value_located(value, file),
    ensures
        single_place(value) matches Some(span) ==> span.file == file,
{
    match value {
        FieldValueV::Scalar(lit) => {
            lemma_place_in(lit, file);
        },
        FieldValueV::ScalarOrList(ShellOrExecV::Shell(lit)) => {
            lemma_place_in(lit, file);
        },
        _ => {},
    }
}

pub(crate) proof fn lemma_single_in(
    schema: TypeSchemaV,
    fields: FieldsV,
    name: Seq<char>,
    value: FieldValueV,
    end: int,
    ts: Seq<TokenV>,
    file: FileId,
)
    requires
        fields_located(fields, file),
        value_located(value, file),
        end < ts.len(),
    ensures
        fields_in(single_at(schema, fields, name, value, end), end, ts, file),
{
    lemma_with_value_in(fields, name, value, file);
    lemma_set_value_in(fields, name, file);
    lemma_single_place_in(value, file);
    if let Some(existing) = set_value(fields, name) {
        lemma_single_place_in(existing, file);
    }
}

pub(crate) proof fn lemma_entry_index(
    entries: Seq<EnvEntryV>,
    side: MapSide,
    text: Seq<char>,
    i: int,
)
    requires
        0 <= i <= entries.len(),
    ensures
        i <= entry_index(entries, side, text, i) <= entries.len(),
    decreases entries.len() - i,
{
    if i < entries.len() {
        lemma_entry_index(entries, side, text, i + 1);
    }
}

pub(crate) proof fn lemma_mount_index(
    entries: Seq<ArrowMapEntryV>,
    side: MapSide,
    text: Seq<char>,
    i: int,
)
    requires
        0 <= i <= entries.len(),
    ensures
        i <= mount_index(entries, side, text, i) <= entries.len(),
    decreases entries.len() - i,
{
    if i < entries.len() {
        lemma_mount_index(entries, side, text, i + 1);
    }
}

pub(crate) proof fn lemma_label_index(entries: Seq<LabelEntryV>, key: Seq<char>, i: int)
    requires
        0 <= i <= entries.len(),
    ensures
        i <= label_index(entries, key, i) <= entries.len(),
    decreases entries.len() - i,
{
    if i < entries.len() {
        lemma_label_index(entries, key, i + 1);
    }
}

pub(crate) proof fn lemma_raw_index(entries: Seq<RawEntryV>, key: Seq<char>, i: int)
    requires
        0 <= i <= entries.len(),
    ensures
        i <= raw_index(entries, key, i) <= entries.len(),
    decreases entries.len() - i,
{
    if i < entries.len() {
        lemma_raw_index(entries, key, i + 1);
    }
}

pub(crate) proof fn lemma_with_entries_in(
    held: Seq<EnvEntryV>,
    more: Seq<EnvEntryV>,
    i: int,
    schema: TypeSchemaV,
    file: FileId,
)
    requires
        0 <= i,
        Vec::<EnvEntry>::located(held, file),
        Vec::<EnvEntry>::located(more, file),
    ensures
        match with_entries(held, more, i, schema) {
            Ok(all) => Vec::<EnvEntry>::located(all, file),
            Err(error) => error_located(error, file),
        },
    decreases more.len() - i,
{
    if i < more.len() {
        let side = side_of(schema);
        let at = entry_index(held, side, entry_text(more[i], side), 0);
        lemma_entry_index(held, side, entry_text(more[i], side), 0);
        assert(EnvEntry::located(more[i], file));
        if at < held.len() {
            assert(EnvEntry::located(held[at], file));
        } else {
            lemma_with_entries_in(held.push(more[i]), more, i + 1, schema, file);
        }
    }
}

pub(crate) proof fn lemma_with_mounts_in(
    held: Seq<ArrowMapEntryV>,
    more: Seq<ArrowMapEntryV>,
    i: int,
    schema: TypeSchemaV,
    file: FileId,
)
    requires
        0 <= i,
        Vec::<ArrowMapEntry>::located(held, file),
        Vec::<ArrowMapEntry>::located(more, file),
    ensures
        match with_mounts(held, more, i, schema) {
            Ok(all) => Vec::<ArrowMapEntry>::located(all, file),
            Err(error) => error_located(error, file),
        },
    decreases more.len() - i,
{
    if i < more.len() {
        let side = side_of(schema);
        let at = mount_index(held, side, mount_text(more[i], side), 0);
        lemma_mount_index(held, side, mount_text(more[i], side), 0);
        assert(ArrowMapEntry::located(more[i], file));
        if at < held.len() {
            assert(ArrowMapEntry::located(held[at], file));
        } else {
            lemma_with_mounts_in(held.push(more[i]), more, i + 1, schema, file);
        }
    }
}

pub(crate) proof fn lemma_with_labels_in(
    held: Seq<LabelEntryV>,
    more: Seq<LabelEntryV>,
    i: int,
    schema: TypeSchemaV,
    file: FileId,
)
    requires
        0 <= i,
        Vec::<LabelEntry>::located(held, file),
        Vec::<LabelEntry>::located(more, file),
    ensures
        match with_labels(held, more, i, schema) {
            Ok(all) => Vec::<LabelEntry>::located(all, file),
            Err(error) => error_located(error, file),
        },
    decreases more.len() - i,
{
    if i < more.len() {
        let at = label_index(held, more[i].key.text(), 0);
        lemma_label_index(held, more[i].key.text(), 0);
        assert(LabelEntry::located(more[i], file));
        if at < held.len() {
            assert(LabelEntry::located(held[at], file));
        } else {
            lemma_with_labels_in(held.push(more[i]), more, i + 1, schema, file);
        }
    }
}

pub(crate) proof fn lemma_with_raw_in(
    held: Seq<RawEntryV>,
    more: Seq<RawEntryV>,
    i: int,
    file: FileId,
)
    requires
        0 <= i,
        Vec::<RawEntry>::located(held, file),
        Vec::<RawEntry>::located(more, file),
    ensures
        match with_raw_entries(held, more, i) {
            Ok(all) => Vec::<RawEntry>::located(all, file),
            Err(error) => error_located(error, file),
        },
    decreases more.len() - i,
{
    if i < more.len() {
        let at = raw_index(held, more[i].key.text(), 0);
        lemma_raw_index(held, more[i].key.text(), 0);
        assert(RawEntry::located(more[i], file));
        if at < held.len() {
            assert(RawEntry::located(held[at], file));
        } else {
            lemma_with_raw_in(held.push(more[i]), more, i + 1, file);
        }
    }
}

pub(crate) proof fn lemma_map_field_in(
    ts: Seq<TokenV>,
    p: int,
    params: Option<Seq<ParamV>>,
    name: Seq<char>,
    nested: TypeSchemaV,
    fields: FieldsV,
    file: FileId,
)
    requires
        inside(ts, p, file),
        fields_located(fields, file),
    ensures
        fields_in(read_map_field(ts, p, params, name, nested, fields), p + 1, ts, file),
{
    lemma_set_value_in(fields, name, file);
    if nested.schema_free {
        lemma_map_in::<RawEntries>(ts, p, params, nested, file);
        if let Ok((entries, _)) = read_map::<RawEntries>(ts, p, params, nested) {
            lemma_with_raw_in(held_raw(fields, name), entries, 0, file);
            if let Ok(all) = with_raw_entries(held_raw(fields, name), entries, 0) {
                lemma_with_value_in(fields, name, FieldValueV::Raw(all), file);
            }
        }
    } else if nested.key_may_be_reference {
        lemma_map_in::<MountEntries>(ts, p, params, nested, file);
        if let Ok((entries, _)) = read_map::<MountEntries>(ts, p, params, nested) {
            lemma_with_mounts_in(held_mounts(fields, name), entries, 0, nested, file);
            if let Ok(all) = with_mounts(held_mounts(fields, name), entries, 0, nested) {
                lemma_with_value_in(fields, name, FieldValueV::MountMap(all), file);
            }
        }
    } else if nested.built_in == BuiltIn::Labels {
        lemma_map_in::<LabelEntries>(ts, p, params, nested, file);
        if let Ok((entries, _)) = read_map::<LabelEntries>(ts, p, params, nested) {
            lemma_with_labels_in(held_labels(fields, name), entries, 0, nested, file);
            if let Ok(all) = with_labels(held_labels(fields, name), entries, 0, nested) {
                lemma_with_value_in(fields, name, FieldValueV::LabelMap(all), file);
            }
        }
    } else {
        lemma_map_in::<LiteralEntries>(ts, p, params, nested, file);
        if let Ok((entries, _)) = read_map::<LiteralEntries>(ts, p, params, nested) {
            lemma_with_entries_in(held_entries(fields, name), entries, 0, nested, file);
            if let Ok(all) = with_entries(held_entries(fields, name), entries, 0, nested) {
                lemma_with_value_in(fields, name, FieldValueV::LiteralMap(all), file);
            }
        }
    }
}

pub(crate) proof fn lemma_list_field_in(
    ts: Seq<TokenV>,
    p: int,
    params: Option<Seq<ParamV>>,
    name: Seq<char>,
    kind: FieldKind,
    fields: FieldsV,
    file: FileId,
)
    requires
        inside(ts, p, file),
        fields_located(fields, file),
    ensures
        fields_in(read_list_field(ts, p, params, name, kind, fields), p + 1, ts, file),
{
    lemma_set_value_in(fields, name, file);
    match kind {
        FieldKind::TemplateInvocationList => {
            lemma_list_in::<Invocations>(ts, p, params, file);
            if let Ok((more, _)) = read_list::<Invocations>(ts, p, params) {
                let all = held_invocations(fields, name) + more;
                assert(Vec::<TemplateInvocation>::located(all, file));
                lemma_with_value_in(fields, name, FieldValueV::Invocations(all), file);
            }
        },
        FieldKind::DependsOnList => {
            lemma_list_in::<Dependencies>(ts, p, params, file);
            if let Ok((more, _)) = read_list::<Dependencies>(ts, p, params) {
                let all = held_dependencies(fields, name) + more;
                assert(Vec::<DependsOnEntry>::located(all, file));
                lemma_with_value_in(fields, name, FieldValueV::Dependencies(all), file);
            }
        },
        _ => {
            lemma_list_in::<References>(ts, p, params, file);
            if let Ok((more, _)) = read_list::<References>(ts, p, params) {
                let all = held_references(fields, name) + more;
                assert(Vec::<Literal>::located(all, file));
                lemma_with_value_in(fields, name, FieldValueV::References(all), file);
            }
        },
    }
}

pub(crate) proof fn lemma_statement_in(
    ts: Seq<TokenV>,
    p: int,
    params: Option<Seq<ParamV>>,
    schema: TypeSchemaV,
    fields: FieldsV,
    file: FileId,
)
    requires
        inside(ts, p, file),
        fields_located(fields, file),
    ensures
        fields_in(read_statement(ts, p, params, schema, fields), p + 1, ts, file),
    decreases ts.len() - p, 0int,
{
    lemma_key_in(ts, p, file);
    if let Ok((key, next)) = read_key(ts, p) {
        lemma_place_in(key, file);
        lemma_here(ts, next, file);
        if let FieldResolutionV::Field(field) = resolution(schema, key.text()) {
            match field.kind {
                FieldKind::Scalar => {
                    lemma_literal_in(ts, next, params, file);
                    if ts[next].kind == TokenKind::Colon {
                        lemma_literal_in(ts, next + 1, params, file);
                    }
                    if let Ok((lit, end)) = read_field_value(ts, next, params) {
                        lemma_single_in(
                            schema,
                            fields,
                            field.name,
                            FieldValueV::Scalar(lit),
                            end,
                            ts,
                            file,
                        );
                    }
                },
                FieldKind::BoolFlag => {
                    lemma_single_in(
                        schema,
                        fields,
                        field.name,
                        FieldValueV::Flag(key.span()),
                        next,
                        ts,
                        file,
                    );
                },
                FieldKind::ScalarOrList => {
                    lemma_command_in(ts, next, params, file);
                    if let Ok((value, end)) = read_scalar_or_list(ts, next, params) {
                        lemma_single_in(
                            schema,
                            fields,
                            field.name,
                            FieldValueV::ScalarOrList(value),
                            end,
                            ts,
                            file,
                        );
                    }
                },
                FieldKind::Nested(nested) => {
                    lemma_nested_in(
                        ts,
                        next,
                        params,
                        schema,
                        field.name,
                        schema_of(nested),
                        fields,
                        file,
                    );
                },
                kind => {
                    lemma_list_field_in(ts, next, params, field.name, kind, fields, file);
                },
            }
        }
    }
}

pub(crate) proof fn lemma_nested_in(
    ts: Seq<TokenV>,
    p: int,
    params: Option<Seq<ParamV>>,
    schema: TypeSchemaV,
    name: Seq<char>,
    nested: TypeSchemaV,
    fields: FieldsV,
    file: FileId,
)
    requires
        inside(ts, p, file),
        fields_located(fields, file),
    ensures
        fields_in(read_nested(ts, p, params, schema, name, nested, fields), p + 1, ts, file),
    decreases ts.len() - p, 3int,
{
    lemma_past_colon(ts, p, file);
    let start = past_colon(ts, p);
    lemma_here(ts, start, file);
    if nested.kind == SchemaKind::Mapping {
        lemma_map_field_in(ts, start, params, name, nested, fields, file);
    } else {
        lemma_struct_body_in(ts, start, params, nested, file);
        lemma_shorthand_in(ts, start, params, nested, file);
        let body = if ts[start].kind == TokenKind::LBrace {
            read_struct_body(ts, start, params, nested)
        } else {
            read_shorthand(ts, start, params, nested)
        };
        if let Ok(((inner, span), end)) = body {
            lemma_here(ts, end, file);
            lemma_single_in(
                schema,
                fields,
                name,
                FieldValueV::Struct(inner, span),
                end,
                ts,
                file,
            );
        }
    }
}

pub(crate) proof fn lemma_shorthand_in(
    ts: Seq<TokenV>,
    p: int,
    params: Option<Seq<ParamV>>,
    nested: TypeSchemaV,
    file: FileId,
)
    requires
        inside(ts, p, file),
    ensures
        body_in(read_shorthand(ts, p, params, nested), p + 1, ts, file),
    decreases ts.len() - p, 2int,
{
    let primary = nested.primary_field->Some_0;
    lemma_here(ts, p, file);
    lemma_bracketed_in::<Invocations>(ts, p, params, file);
    lemma_bare_in::<Invocations>(ts, p, params, Seq::empty(), file);
    lemma_literal_in(ts, p, params, file);
    if let Ok((lit, _)) = read_literal(ts, p, params) {
        lemma_place_in(lit, file);
    }
    let first = match field_from(nested.fields, primary, 0) {
        Some(field) if field.kind == FieldKind::TemplateInvocationList => read_invocation_shorthand(
            ts,
            p,
            params,
            primary,
        ),
        _ => read_literal_shorthand(ts, p, params, primary),
    };
    assert(body_in(first, p + 1, ts, file));
    if let Ok(((fields, start), next)) = first {
        lemma_secondary_in(ts, next, params, nested, fields, file);
        if let Ok((_, end)) = read_secondary(ts, next, params, nested, fields) {
            lemma_here(ts, end - 1, file);
        }
    }
}

pub(crate) proof fn lemma_secondary_in(
    ts: Seq<TokenV>,
    p: int,
    params: Option<Seq<ParamV>>,
    nested: TypeSchemaV,
    fields: FieldsV,
    file: FileId,
)
    requires
        inside(ts, p, file),
        fields_located(fields, file),
    ensures
        fields_in(read_secondary(ts, p, params, nested, fields), p, ts, file),
    decreases ts.len() - p, 1int,
{
    lemma_here(ts, p, file);
    if continues_with_field(ts, p, nested) {
        lemma_statement_in(ts, p + 1, params, nested, fields, file);
        if let Ok((more, next)) = read_statement(ts, p + 1, params, nested, fields) {
            lemma_secondary_in(ts, next, params, nested, more, file);
        }
    }
}

pub(crate) proof fn lemma_struct_body_in(
    ts: Seq<TokenV>,
    p: int,
    params: Option<Seq<ParamV>>,
    schema: TypeSchemaV,
    file: FileId,
)
    requires
        inside(ts, p, file),
    ensures
        body_in(read_struct_body(ts, p, params, schema), p + 1, ts, file),
    decreases ts.len() - p, 2int,
{
    lemma_expected_in(ts, p, TokenKind::LBrace, file);
    if let Ok((_, first)) = expected(ts, p, TokenKind::LBrace) {
        lemma_statements_in(ts, first, params, schema, Seq::empty(), true, file);
        if let Ok((_, last)) = read_statements(ts, first, params, schema, Seq::empty(), true) {
            lemma_expected_in(ts, last, TokenKind::RBrace, file);
        }
    }
}

pub(crate) proof fn lemma_statements_in(
    ts: Seq<TokenV>,
    p: int,
    params: Option<Seq<ParamV>>,
    schema: TypeSchemaV,
    fields: FieldsV,
    first: bool,
    file: FileId,
)
    requires
        inside(ts, p, file),
        fields_located(fields, file),
    ensures
        fields_in(read_statements(ts, p, params, schema, fields, first), p, ts, file),
    decreases ts.len() - p, 4int,
{
    lemma_here(ts, p, file);
    lemma_statement_in(ts, p, params, schema, fields, file);
    if let Ok((more, next)) = read_statement(ts, p, params, schema, fields) {
        lemma_statements_in(ts, next, params, schema, more, false, file);
    }
}

pub(crate) proof fn lemma_held_in(fields: FieldsV, name: Seq<char>, file: FileId)
    requires
        fields_located(fields, file),
    ensures
        struct_of(fields, name) matches Some((inner, span)) ==> fields_located(inner, file)
            && span.file == file,
        Option::<Literal>::located(scalar_of(fields, name), file),
        Option::<Span>::located(flag_of(fields, name), file),
        Option::<Command>::located(command_of(fields, name), file),
        Vec::<Literal>::located(held_references(fields, name), file),
        Vec::<DependsOnEntry>::located(held_dependencies(fields, name), file),
        Vec::<TemplateInvocation>::located(held_invocations(fields, name), file),
        Vec::<EnvEntry>::located(held_entries(fields, name), file),
        Vec::<LabelEntry>::located(held_labels(fields, name), file),
        Vec::<ArrowMapEntry>::located(held_mounts(fields, name), file),
        Vec::<RawEntry>::located(held_raw(fields, name), file),
{
    lemma_set_value_in(fields, name, file);
}

pub(crate) proof fn lemma_mounts_in(entries: Seq<EnvEntryV>, file: FileId)
    requires
        Vec::<EnvEntry>::located(entries, file),
    ensures
        Vec::<ArrowMapEntry>::located(as_mounts(entries), file),
        Vec::<VolumeDriverOpt>::located(as_driver_opts(entries), file),
{
    let mounts = as_mounts(entries);
    assert forall|i: int| 0 <= i < mounts.len() implies ArrowMapEntry::located(
        #[trigger] mounts[i],
        file,
    ) by {
        assert(EnvEntry::located(entries[i], file));
    }
    let opts = as_driver_opts(entries);
    assert forall|i: int| 0 <= i < opts.len() implies VolumeDriverOpt::located(
        #[trigger] opts[i],
        file,
    ) by {
        assert(EnvEntry::located(entries[i], file));
    }
}

pub(crate) proof fn lemma_healthcheck_in(fields: FieldsV, span: Span, file: FileId)
    requires
        fields_located(fields, file),
        span.file == file,
    ensures
        Healthcheck::located(lowered_healthcheck(fields, span), file),
{
    lemma_held_in(fields, "test"@, file);
    lemma_held_in(fields, "interval"@, file);
    lemma_held_in(fields, "timeout"@, file);
    lemma_held_in(fields, "retries"@, file);
    lemma_held_in(fields, "start_period"@, file);
    lemma_held_in(fields, "start_interval"@, file);
    lemma_held_in(fields, "disable"@, file);
}

pub(crate) proof fn lemma_nested_fields_in(fields: FieldsV, file: FileId)
    requires
        fields_located(fields, file),
    ensures
        Option::<Image>::located(lowered_service_fields(fields).image, file),
        Option::<Build>::located(lowered_service_fields(fields).build, file),
        Option::<Expose>::located(lowered_service_fields(fields).expose, file),
        Option::<Restart>::located(lowered_service_fields(fields).restart, file),
        Option::<Healthcheck>::located(lowered_service_fields(fields).healthcheck, file),
        Vec::<TemplateInvocation>::located(lowered_with(fields), file),
{
    lemma_held_in(fields, "image"@, file);
    if let Some((inner, _)) = struct_of(fields, "image"@) {
        lemma_held_in(inner, "ref"@, file);
    }
    lemma_held_in(fields, "build"@, file);
    if let Some((inner, _)) = struct_of(fields, "build"@) {
        lemma_held_in(inner, "context"@, file);
        lemma_held_in(inner, "dockerfile"@, file);
    }
    lemma_held_in(fields, "expose"@, file);
    if let Some((inner, _)) = struct_of(fields, "expose"@) {
        lemma_held_in(inner, "port"@, file);
    }
    lemma_held_in(fields, "restart"@, file);
    if let Some((inner, _)) = struct_of(fields, "restart"@) {
        lemma_held_in(inner, "policy"@, file);
    }
    lemma_held_in(fields, "healthcheck"@, file);
    if let Some((inner, span)) = struct_of(fields, "healthcheck"@) {
        lemma_healthcheck_in(inner, span, file);
    }
    lemma_held_in(fields, "with"@, file);
    if let Some((inner, _)) = struct_of(fields, "with"@) {
        lemma_held_in(inner, "templates"@, file);
    }
}

pub(crate) proof fn lemma_lowered_in(fields: FieldsV, file: FileId)
    requires
        fields_located(fields, file),
    ensures
        ServiceFields::located(lowered_service_fields(fields), file),
{
    lemma_nested_fields_in(fields, file);
    lemma_held_in(fields, "publish"@, file);
    lemma_held_in(fields, "volume"@, file);
    lemma_held_in(fields, "env"@, file);
    lemma_held_in(fields, "labels"@, file);
    lemma_held_in(fields, "raw"@, file);
    lemma_held_in(fields, "depends_on"@, file);
    lemma_held_in(fields, "networks"@, file);
    lemma_held_in(fields, "dns"@, file);
    lemma_held_in(fields, "env_file"@, file);
    lemma_held_in(fields, "privileged"@, file);
    lemma_held_in(fields, "devices"@, file);
    lemma_held_in(fields, "container_name"@, file);
    lemma_held_in(fields, "command"@, file);
    lemma_held_in(fields, "entrypoint"@, file);
    lemma_mounts_in(held_entries(fields, "publish"@), file);
    lemma_mounts_in(held_entries(fields, "devices"@), file);
}

pub(crate) proof fn lemma_lowered_decl_in(
    built_in: BuiltIn,
    name: IdentV,
    fields: FieldsV,
    span: Span,
    file: FileId,
)
    requires
        name.span.file == file,
        fields_located(fields, file),
        span.file == file,
    ensures
        TopDecl::located(lowered_decl(built_in, name, fields, span), file),
{
    lemma_lowered_in(fields, file);
    lemma_held_in(fields, "external"@, file);
    lemma_held_in(fields, "name"@, file);
    lemma_held_in(fields, "driver"@, file);
    lemma_held_in(fields, "driver_opts"@, file);
    lemma_mounts_in(held_entries(fields, "driver_opts"@), file);
}

pub(crate) proof fn lemma_param_index(params: Seq<ParamV>, name: Seq<char>, i: int)
    requires
        0 <= i <= params.len(),
    ensures
        i <= param_index(params, name, i) <= params.len(),
    decreases params.len() - i,
{
    if i < params.len() {
        lemma_param_index(params, name, i + 1);
    }
}

pub(crate) proof fn lemma_params_in(ts: Seq<TokenV>, p: int, before: Seq<ParamV>, file: FileId)
    requires
        inside(ts, p, file),
        Vec::<Param>::located(before, file),
    ensures
        read_in::<Vec<Param>>(read_params(ts, p, before), p + 1, ts, file),
    decreases ts.len() - p,
{
    lemma_expected_in(ts, p, TokenKind::Ident, file);
    if let Ok((tok, next)) = expected(ts, p, TokenKind::Ident) {
        lemma_param_index(before, tok.lexeme, 0);
        let first = param_index(before, tok.lexeme, 0);
        if first < before.len() {
            assert(Param::located(before[first], file));
        } else {
            let all = before.push(ParamV { name: IdentV { name: tok.lexeme, span: tok.span } });
            assert(Vec::<Param>::located(all, file));
            lemma_here(ts, next, file);
            if ts[next].kind == TokenKind::Comma {
                lemma_params_in(ts, next + 1, all, file);
            }
        }
    }
}

pub(crate) proof fn lemma_param_list_in(ts: Seq<TokenV>, p: int, file: FileId)
    requires
        inside(ts, p, file),
    ensures
        read_in::<Vec<Param>>(read_param_list(ts, p), p + 1, ts, file),
{
    lemma_expected_in(ts, p, TokenKind::LParen, file);
    if let Ok((_, first)) = expected(ts, p, TokenKind::LParen) {
        lemma_params_in(ts, first, Seq::empty(), file);
        if ts[first].kind == TokenKind::RParen {
            lemma_expected_in(ts, first, TokenKind::RParen, file);
        } else if let Ok((_, last)) = read_params(ts, first, Seq::empty()) {
            lemma_expected_in(ts, last, TokenKind::RParen, file);
        }
    }
}

pub(crate) proof fn lemma_template_in(ts: Seq<TokenV>, p: int, file: FileId)
    requires
        inside(ts, p, file),
    ensures
        read_in::<TemplateDecl>(read_template(ts, p), p + 1, ts, file),
{
    lemma_expected_in(ts, p, TokenKind::Template, file);
    if let Ok((_, after_keyword)) = expected(ts, p, TokenKind::Template) {
        lemma_expected_in(ts, after_keyword, TokenKind::Ident, file);
        if let Ok((_, after_name)) = expected(ts, after_keyword, TokenKind::Ident) {
            lemma_param_list_in(ts, after_name, file);
            let params = if ts[after_name].kind == TokenKind::LParen {
                read_param_list(ts, after_name)
            } else {
                Ok((Seq::empty(), after_name))
            };
            if let Ok((list, next)) = params {
                lemma_here(ts, next, file);
                lemma_struct_body_in(ts, next, Some(list), schema_of(BuiltIn::Template), file);
                if let Ok(((fields, _), _)) = read_struct_body(
                    ts,
                    next,
                    Some(list),
                    schema_of(BuiltIn::Template),
                ) {
                    lemma_lowered_in(fields, file);
                }
            }
        }
    }
}

pub(crate) proof fn lemma_use_in(ts: Seq<TokenV>, p: int, file: FileId)
    requires
        inside(ts, p, file),
    ensures
        read_in::<UseDecl>(read_use(ts, p), p + 1, ts, file),
{
    lemma_expected_in(ts, p, TokenKind::Ident, file);
    if let Ok((_, after_keyword)) = expected(ts, p, TokenKind::Ident) {
        lemma_expected_in(ts, after_keyword, TokenKind::Str, file);
        if let Ok((path, after_path)) = expected(ts, after_keyword, TokenKind::Str) {
            lemma_string_in(path, file);
            lemma_here(ts, after_path, file);
            if ts[after_path].kind == TokenKind::Ident {
                lemma_expected_in(ts, after_path + 1, TokenKind::Ident, file);
            }
        }
    }
}

pub(crate) proof fn lemma_decl_in(ts: Seq<TokenV>, p: int, file: FileId)
    requires
        inside(ts, p, file),
    ensures
        read_in::<TopDecl>(read_decl(ts, p), p + 1, ts, file),
{
    lemma_template_in(ts, p, file);
    lemma_use_in(ts, p, file);
    lemma_expected_in(ts, p, TokenKind::Ident, file);
    if let Ok((keyword, after_keyword)) = expected(ts, p, TokenKind::Ident) {
        lemma_expected_in(ts, after_keyword, TokenKind::Ident, file);
        if let Ok((name, after_name)) = expected(ts, after_keyword, TokenKind::Ident) {
            if let Some(built_in) = top_level_built_in(keyword.lexeme) {
                lemma_struct_body_in(ts, after_name, None, schema_of(built_in), file);
                if let Ok(((fields, body), _)) = read_struct_body(
                    ts,
                    after_name,
                    None,
                    schema_of(built_in),
                ) {
                    lemma_lowered_decl_in(
                        built_in,
                        IdentV { name: name.lexeme, span: name.span },
                        fields,
                        crate::source::joined(keyword.span, body),
                        file,
                    );
                }
            }
        }
    }
}

pub(crate) proof fn lemma_decls_in(ts: Seq<TokenV>, p: int, before: Seq<TopDeclV>, file: FileId)
    requires
        inside(ts, p, file),
        Vec::<TopDecl>::located(before, file),
    ensures
        match read_decls(ts, p, before) {
            Ok(decls) => Vec::<TopDecl>::located(decls, file),
            Err(error) => error_located(error, file),
        },
    decreases ts.len() - p,
{
    if ts[p].kind != TokenKind::Eof {
        lemma_decl_in(ts, p, file);
        if let Ok((decl, next)) = read_decl(ts, p) {
            assert(Vec::<TopDecl>::located(before.push(decl), file));
            lemma_decls_in(ts, next, before.push(decl), file);
        }
    }
}

/// Every place in a program that is read from a file, and every place in
/// the error where none is, lies in that file.
pub proof fn law_places_lie_in_the_file(
    lexed: Result<Seq<TokenV>, Seq<LexErrorV>>,
    file: FileId,
)
    requires
        lexed matches Ok(ts) ==> ends_with_eof(ts),
    ensures
        match read_program(lexed_in(lexed, file)) {
            Ok(program) => Program::located(program, file),
            Err(error) => error_located(error, file),
        },
{
    if let Ok(ts) = lexed {
        let moved = ts.map_values(|tok: TokenV| token_in(tok, file));
        assert(moved.last() == token_in(ts.last(), file));
        assert(Vec::<Token>::located(moved, file));
        lemma_decls_in(moved, 0, Seq::empty(), file);
    }
}

} // verus!
