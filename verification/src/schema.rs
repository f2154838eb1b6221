//! The built-in types of the language, as tables. The parser is one
//! engine driven by them.

use vstd::prelude::*;
use vstd::string::*;

use crate::deep::{no_items, push_to};
use crate::source::TokenKind;
use crate::text::same_text;

verus! {

/// Whether a type is a set of named fields or a map of entries.
#[derive(Debug, Clone, Copy, PartialEq, Eq, Structural)]
pub enum SchemaKind {
    Struct,
    Mapping,
}

/// Which side of a map entry has to be unique among the entries.
#[derive(Debug, Clone, Copy, PartialEq, Eq, Structural)]
pub enum MapSide {
    Key,
    Value,
}

impl DeepView for MapSide {
    type V = MapSide;

    open spec fn deep_view(&self) -> MapSide {
        *self
    }
}

/// The built-in types.
#[derive(Debug, Clone, Copy, PartialEq, Eq, Structural)]
pub enum BuiltIn {
    /// `image`: what a service runs.
    Image,
    /// `build`: what a service is built from.
    Build,
    /// `expose`: a port visible to other containers.
    Expose,
    /// `restart`: when a service is started again.
    Restart,
    /// `healthcheck`: how a service is probed.
    Healthcheck,
    /// `volume` on a service: what is mounted where.
    Volume,
    /// `publish`: which host port leads to which container port.
    Publish,
    /// `devices`: which host device is handed in where.
    Devices,
    /// `env`: environment variables.
    Env,
    /// `labels`: Docker labels.
    Labels,
    /// `raw`: Compose keys passed through as they are.
    Raw,
    /// A top-level `network`.
    Network,
    /// `driver_opts` on a volume declaration.
    DriverOpts,
    /// A top-level `volume`.
    VolumeDecl,
    /// `with`: the templates a body pulls in.
    With,
    /// A top-level `service`.
    Service,
    /// A top-level `template`.
    Template,
}

/// What a field holds.
#[derive(Debug, Clone, Copy, PartialEq, Eq, Structural)]
pub enum FieldKind {
    /// A single value.
    Scalar,
    /// Nothing: the field is set by being there.
    BoolFlag,
    /// A value of another built-in type.
    Nested(BuiltIn),
    /// References, accumulated over repeated writes.
    ReferenceList,
    /// Template invocations, accumulated over repeated writes.
    TemplateInvocationList,
    /// A single value or a bracketed list.
    ScalarOrList,
    /// Dependencies, accumulated over repeated writes.
    DependsOnList,
}

/// One field of a type.
#[derive(Debug, Clone, Copy)]
pub struct FieldSchema {
    pub name: &'static str,
    pub kind: FieldKind,
}

/// The view of [`FieldSchema`].
#[verifier::ext_equal]
pub struct FieldSchemaV {
    pub name: Seq<char>,
    pub kind: FieldKind,
}

impl DeepView for FieldSchema {
    type V = FieldSchemaV;

    open spec fn deep_view(&self) -> FieldSchemaV {
        FieldSchemaV { name: self.name@, kind: self.kind }
    }
}

/// The shape of a built-in type.
#[derive(Debug)]
pub struct TypeSchema {
    pub built_in: BuiltIn,
    /// How the type is written.
    pub name: &'static str,
    pub kind: SchemaKind,
    pub fields: Vec<FieldSchema>,
    /// The field that a bare value stands for.
    pub primary_field: Option<&'static str>,
    /// What stands between the two sides of a map entry.
    pub map_separator: Option<TokenKind>,
    pub uniqueness: Option<MapSide>,
    /// Whether the key of a map entry may name a declaration.
    pub key_may_be_reference: bool,
    /// Whether a declaration of this type has a name.
    pub needs_name: bool,
    /// Whether the type takes any field at all.
    pub schema_free: bool,
}

/// The view of [`TypeSchema`].
#[verifier::ext_equal]
pub struct TypeSchemaV {
    pub built_in: BuiltIn,
    pub name: Seq<char>,
    pub kind: SchemaKind,
    pub fields: Seq<FieldSchemaV>,
    pub primary_field: Option<Seq<char>>,
    pub map_separator: Option<TokenKind>,
    pub uniqueness: Option<MapSide>,
    pub key_may_be_reference: bool,
    pub needs_name: bool,
    pub schema_free: bool,
}

impl DeepView for TypeSchema {
    type V = TypeSchemaV;

    open spec fn deep_view(&self) -> TypeSchemaV {
        TypeSchemaV {
            built_in: self.built_in,
            name: self.name@,
            kind: self.kind,
            fields: self.fields.deep_view(),
            primary_field: self.primary_field.deep_view(),
            map_separator: self.map_separator,
            uniqueness: self.uniqueness,
            key_may_be_reference: self.key_may_be_reference,
            needs_name: self.needs_name,
            schema_free: self.schema_free,
        }
    }
}

/// The fields of a service, and of a template.
pub open spec fn service_fields() -> Seq<FieldSchemaV> {
    seq![
        FieldSchemaV { name: "image"@, kind: FieldKind::Nested(BuiltIn::Image) },
        FieldSchemaV { name: "container_name"@, kind: FieldKind::Scalar },
        FieldSchemaV { name: "command"@, kind: FieldKind::ScalarOrList },
        FieldSchemaV { name: "entrypoint"@, kind: FieldKind::ScalarOrList },
        FieldSchemaV { name: "build"@, kind: FieldKind::Nested(BuiltIn::Build) },
        FieldSchemaV { name: "expose"@, kind: FieldKind::Nested(BuiltIn::Expose) },
        FieldSchemaV { name: "labels"@, kind: FieldKind::Nested(BuiltIn::Labels) },
        FieldSchemaV { name: "restart"@, kind: FieldKind::Nested(BuiltIn::Restart) },
        FieldSchemaV { name: "healthcheck"@, kind: FieldKind::Nested(BuiltIn::Healthcheck) },
        FieldSchemaV { name: "publish"@, kind: FieldKind::Nested(BuiltIn::Publish) },
        FieldSchemaV { name: "volume"@, kind: FieldKind::Nested(BuiltIn::Volume) },
        FieldSchemaV { name: "env"@, kind: FieldKind::Nested(BuiltIn::Env) },
        FieldSchemaV { name: "raw"@, kind: FieldKind::Nested(BuiltIn::Raw) },
        FieldSchemaV { name: "depends_on"@, kind: FieldKind::DependsOnList },
        FieldSchemaV { name: "networks"@, kind: FieldKind::ReferenceList },
        FieldSchemaV { name: "dns"@, kind: FieldKind::ReferenceList },
        FieldSchemaV { name: "env_file"@, kind: FieldKind::ReferenceList },
        FieldSchemaV { name: "privileged"@, kind: FieldKind::BoolFlag },
        FieldSchemaV { name: "devices"@, kind: FieldKind::Nested(BuiltIn::Devices) },
        FieldSchemaV { name: "with"@, kind: FieldKind::Nested(BuiltIn::With) },
    ]
}

/// The shape of each built-in type.
pub open spec fn schema_of(built_in: BuiltIn) -> TypeSchemaV {
    match built_in {
        BuiltIn::Image => TypeSchemaV {
            built_in,
            name: "image"@,
            kind: SchemaKind::Struct,
            fields: seq![
                FieldSchemaV { name: "ref"@, kind: FieldKind::Scalar },
            ],
            primary_field: Some("ref"@),
            map_separator: None,
            uniqueness: None,
            key_may_be_reference: false,
            needs_name: false,
            schema_free: false,
        },
        BuiltIn::Build => TypeSchemaV {
            built_in,
            name: "build"@,
            kind: SchemaKind::Struct,
            fields: seq![
                FieldSchemaV { name: "context"@, kind: FieldKind::Scalar },
                FieldSchemaV { name: "dockerfile"@, kind: FieldKind::Scalar },
            ],
            primary_field: Some("context"@),
            map_separator: None,
            uniqueness: None,
            key_may_be_reference: false,
            needs_name: false,
            schema_free: false,
        },
        BuiltIn::Expose => TypeSchemaV {
            built_in,
            name: "expose"@,
            kind: SchemaKind::Struct,
            fields: seq![
                FieldSchemaV { name: "port"@, kind: FieldKind::Scalar },
            ],
            primary_field: Some("port"@),
            map_separator: None,
            uniqueness: None,
            key_may_be_reference: false,
            needs_name: false,
            schema_free: false,
        },
        BuiltIn::Restart => TypeSchemaV {
            built_in,
            name: "restart"@,
            kind: SchemaKind::Struct,
            fields: seq![
                FieldSchemaV { name: "policy"@, kind: FieldKind::Scalar },
            ],
            primary_field: Some("policy"@),
            map_separator: None,
            uniqueness: None,
            key_may_be_reference: false,
            needs_name: false,
            schema_free: false,
        },
        BuiltIn::Healthcheck => TypeSchemaV {
            built_in,
            name: "healthcheck"@,
            kind: SchemaKind::Struct,
            fields: seq![
                FieldSchemaV { name: "test"@, kind: FieldKind::ScalarOrList },
                FieldSchemaV { name: "interval"@, kind: FieldKind::Scalar },
                FieldSchemaV { name: "timeout"@, kind: FieldKind::Scalar },
                FieldSchemaV { name: "retries"@, kind: FieldKind::Scalar },
                FieldSchemaV { name: "start_period"@, kind: FieldKind::Scalar },
                FieldSchemaV { name: "start_interval"@, kind: FieldKind::Scalar },
                FieldSchemaV { name: "disable"@, kind: FieldKind::BoolFlag },
            ],
            primary_field: None,
            map_separator: None,
            uniqueness: None,
            key_may_be_reference: false,
            needs_name: false,
            schema_free: false,
        },
        BuiltIn::Volume => TypeSchemaV {
            built_in,
            name: "volume"@,
            kind: SchemaKind::Mapping,
            fields: Seq::empty(),
            primary_field: None,
            map_separator: Some(TokenKind::Arrow),
            uniqueness: Some(MapSide::Value),
            key_may_be_reference: true,
            needs_name: false,
            schema_free: false,
        },
        BuiltIn::Publish => TypeSchemaV {
            built_in,
            name: "publish"@,
            kind: SchemaKind::Mapping,
            fields: Seq::empty(),
            primary_field: None,
            map_separator: Some(TokenKind::Arrow),
            uniqueness: Some(MapSide::Value),
            key_may_be_reference: false,
            needs_name: false,
            schema_free: false,
        },
        BuiltIn::Devices => TypeSchemaV {
            built_in,
            name: "devices"@,
            kind: SchemaKind::Mapping,
            fields: Seq::empty(),
            primary_field: None,
            map_separator: Some(TokenKind::Arrow),
            uniqueness: Some(MapSide::Value),
            key_may_be_reference: false,
            needs_name: false,
            schema_free: false,
        },
        BuiltIn::Env => TypeSchemaV {
            built_in,
            name: "env"@,
            kind: SchemaKind::Mapping,
            fields: Seq::empty(),
            primary_field: None,
            map_separator: Some(TokenKind::Equals),
            uniqueness: Some(MapSide::Key),
            key_may_be_reference: false,
            needs_name: false,
            schema_free: false,
        },
        BuiltIn::Labels => TypeSchemaV {
            built_in,
            name: "labels"@,
            kind: SchemaKind::Mapping,
            fields: Seq::empty(),
            primary_field: None,
            map_separator: Some(TokenKind::Colon),
            uniqueness: Some(MapSide::Key),
            key_may_be_reference: false,
            needs_name: false,
            schema_free: false,
        },
        BuiltIn::Raw => TypeSchemaV {
            built_in,
            name: "raw"@,
            kind: SchemaKind::Mapping,
            fields: Seq::empty(),
            primary_field: None,
            map_separator: Some(TokenKind::Colon),
            uniqueness: Some(MapSide::Key),
            key_may_be_reference: false,
            needs_name: false,
            schema_free: true,
        },
        BuiltIn::Network => TypeSchemaV {
            built_in,
            name: "network"@,
            kind: SchemaKind::Struct,
            fields: seq![
                FieldSchemaV { name: "external"@, kind: FieldKind::BoolFlag },
                FieldSchemaV { name: "name"@, kind: FieldKind::Scalar },
            ],
            primary_field: None,
            map_separator: None,
            uniqueness: None,
            key_may_be_reference: false,
            needs_name: true,
            schema_free: false,
        },
        BuiltIn::DriverOpts => TypeSchemaV {
            built_in,
            name: "driver_opts"@,
            kind: SchemaKind::Mapping,
            fields: Seq::empty(),
            primary_field: None,
            map_separator: Some(TokenKind::Colon),
            uniqueness: Some(MapSide::Key),
            key_may_be_reference: false,
            needs_name: false,
            schema_free: false,
        },
        BuiltIn::VolumeDecl => TypeSchemaV {
            built_in,
            name: "volume"@,
            kind: SchemaKind::Struct,
            fields: seq![
                FieldSchemaV { name: "external"@, kind: FieldKind::BoolFlag },
                FieldSchemaV { name: "name"@, kind: FieldKind::Scalar },
                FieldSchemaV { name: "driver"@, kind: FieldKind::Scalar },
                FieldSchemaV { name: "driver_opts"@, kind: FieldKind::Nested(BuiltIn::DriverOpts) },
            ],
            primary_field: None,
            map_separator: None,
            uniqueness: None,
            key_may_be_reference: false,
            needs_name: true,
            schema_free: false,
        },
        BuiltIn::With => TypeSchemaV {
            built_in,
            name: "with"@,
            kind: SchemaKind::Struct,
            fields: seq![
                FieldSchemaV { name: "templates"@, kind: FieldKind::TemplateInvocationList },
            ],
            primary_field: Some("templates"@),
            map_separator: None,
            uniqueness: None,
            key_may_be_reference: false,
            needs_name: false,
            schema_free: false,
        },
        BuiltIn::Service => TypeSchemaV {
            built_in,
            name: "service"@,
            kind: SchemaKind::Struct,
            fields: service_fields(),
            primary_field: None,
            map_separator: None,
            uniqueness: None,
            key_may_be_reference: false,
            needs_name: true,
            schema_free: false,
        },
        BuiltIn::Template => TypeSchemaV {
            built_in,
            name: "template"@,
            kind: SchemaKind::Struct,
            fields: service_fields(),
            primary_field: None,
            map_separator: None,
            uniqueness: None,
            key_may_be_reference: false,
            needs_name: true,
            schema_free: false,
        },
    }
}

fn field(name: &'static str, kind: FieldKind) -> (r: FieldSchema)
    ensures
        r.deep_view() == (FieldSchemaV { name: name@, kind }),
{
    FieldSchema { name, kind }
}

fn list_service_fields() -> (r: Vec<FieldSchema>)
    ensures
        r.deep_view() == service_fields(),
{
    let mut r: Vec<FieldSchema> = no_items();
    push_to(&mut r, field("image", FieldKind::Nested(BuiltIn::Image)));
    push_to(&mut r, field("container_name", FieldKind::Scalar));
    push_to(&mut r, field("command", FieldKind::ScalarOrList));
    push_to(&mut r, field("entrypoint", FieldKind::ScalarOrList));
    push_to(&mut r, field("build", FieldKind::Nested(BuiltIn::Build)));
    push_to(&mut r, field("expose", FieldKind::Nested(BuiltIn::Expose)));
    push_to(&mut r, field("labels", FieldKind::Nested(BuiltIn::Labels)));
    push_to(&mut r, field("restart", FieldKind::Nested(BuiltIn::Restart)));
    push_to(&mut r, field("healthcheck", FieldKind::Nested(BuiltIn::Healthcheck)));
    push_to(&mut r, field("publish", FieldKind::Nested(BuiltIn::Publish)));
    push_to(&mut r, field("volume", FieldKind::Nested(BuiltIn::Volume)));
    push_to(&mut r, field("env", FieldKind::Nested(BuiltIn::Env)));
    push_to(&mut r, field("raw", FieldKind::Nested(BuiltIn::Raw)));
    push_to(&mut r, field("depends_on", FieldKind::DependsOnList));
    push_to(&mut r, field("networks", FieldKind::ReferenceList));
    push_to(&mut r, field("dns", FieldKind::ReferenceList));
    push_to(&mut r, field("env_file", FieldKind::ReferenceList));
    push_to(&mut r, field("privileged", FieldKind::BoolFlag));
    push_to(&mut r, field("devices", FieldKind::Nested(BuiltIn::Devices)));
    push_to(&mut r, field("with", FieldKind::Nested(BuiltIn::With)));
    assert(r.deep_view() =~= service_fields());
    r
}

fn list_fields(built_in: BuiltIn) -> (r: Vec<FieldSchema>)
    ensures
        r.deep_view() == schema_of(built_in).fields,
{
    let mut r: Vec<FieldSchema> = no_items();
    match built_in {
        BuiltIn::Image => {
            push_to(&mut r, field("ref", FieldKind::Scalar));
        },
        BuiltIn::Build => {
            push_to(&mut r, field("context", FieldKind::Scalar));
            push_to(&mut r, field("dockerfile", FieldKind::Scalar));
        },
        BuiltIn::Expose => {
            push_to(&mut r, field("port", FieldKind::Scalar));
        },
        BuiltIn::Restart => {
            push_to(&mut r, field("policy", FieldKind::Scalar));
        },
        BuiltIn::Healthcheck => {
            push_to(&mut r, field("test", FieldKind::ScalarOrList));
            push_to(&mut r, field("interval", FieldKind::Scalar));
            push_to(&mut r, field("timeout", FieldKind::Scalar));
            push_to(&mut r, field("retries", FieldKind::Scalar));
            push_to(&mut r, field("start_period", FieldKind::Scalar));
            push_to(&mut r, field("start_interval", FieldKind::Scalar));
            push_to(&mut r, field("disable", FieldKind::BoolFlag));
        },
        BuiltIn::Network => {
            push_to(&mut r, field("external", FieldKind::BoolFlag));
            push_to(&mut r, field("name", FieldKind::Scalar));
        },
        BuiltIn::VolumeDecl => {
            push_to(&mut r, field("external", FieldKind::BoolFlag));
            push_to(&mut r, field("name", FieldKind::Scalar));
            push_to(&mut r, field("driver", FieldKind::Scalar));
            push_to(&mut r, field("driver_opts", FieldKind::Nested(BuiltIn::DriverOpts)));
        },
        BuiltIn::With => {
            push_to(&mut r, field("templates", FieldKind::TemplateInvocationList));
        },
        BuiltIn::Service => {
            return list_service_fields();
        },
        BuiltIn::Template => {
            return list_service_fields();
        },
        _ => {},
    }
    assert(r.deep_view() =~= schema_of(built_in).fields);
    r
}

fn type_text(built_in: BuiltIn) -> (r: &'static str)
    ensures
        r@ == schema_of(built_in).name,
{
    match built_in {
        BuiltIn::Image => "image",
        BuiltIn::Build => "build",
        BuiltIn::Expose => "expose",
        BuiltIn::Restart => "restart",
        BuiltIn::Healthcheck => "healthcheck",
        BuiltIn::Volume => "volume",
        BuiltIn::Publish => "publish",
        BuiltIn::Devices => "devices",
        BuiltIn::Env => "env",
        BuiltIn::Labels => "labels",
        BuiltIn::Raw => "raw",
        BuiltIn::Network => "network",
        BuiltIn::DriverOpts => "driver_opts",
        BuiltIn::VolumeDecl => "volume",
        BuiltIn::With => "with",
        BuiltIn::Service => "service",
        BuiltIn::Template => "template",
    }
}

fn primary_field_of(built_in: BuiltIn) -> (r: Option<&'static str>)
    ensures
        r.deep_view() == schema_of(built_in).primary_field,
{
    match built_in {
        BuiltIn::Image => Some("ref"),
        BuiltIn::Build => Some("context"),
        BuiltIn::Expose => Some("port"),
        BuiltIn::Restart => Some("policy"),
        BuiltIn::With => Some("templates"),
        _ => None,
    }
}

impl BuiltIn {
    /// The shape of this type.
    pub fn schema(self) -> (r: TypeSchema)
        ensures
            r.deep_view() == schema_of(self),
    {
        TypeSchema {
            built_in: self,
            name: type_text(self),
            kind: match self {
                BuiltIn::Volume
                | BuiltIn::Publish
                | BuiltIn::Devices
                | BuiltIn::Env
                | BuiltIn::Labels
                | BuiltIn::Raw
                | BuiltIn::DriverOpts => SchemaKind::Mapping,
                _ => SchemaKind::Struct,
            },
            fields: list_fields(self),
            primary_field: primary_field_of(self),
            map_separator: match self {
                BuiltIn::Volume | BuiltIn::Publish | BuiltIn::Devices => Some(TokenKind::Arrow),
                BuiltIn::Env => Some(TokenKind::Equals),
                BuiltIn::Labels | BuiltIn::Raw | BuiltIn::DriverOpts => Some(TokenKind::Colon),
                _ => None,
            },
            uniqueness: match self {
                BuiltIn::Volume | BuiltIn::Publish | BuiltIn::Devices => Some(MapSide::Value),
                BuiltIn::Env | BuiltIn::Labels | BuiltIn::Raw | BuiltIn::DriverOpts => Some(
                    MapSide::Key,
                ),
                _ => None,
            },
            key_may_be_reference: match self {
                BuiltIn::Volume => true,
                _ => false,
            },
            needs_name: match self {
                BuiltIn::Network
                | BuiltIn::VolumeDecl
                | BuiltIn::Service
                | BuiltIn::Template => true,
                _ => false,
            },
            schema_free: match self {
                BuiltIn::Raw => true,
                _ => false,
            },
        }
    }
}

/// The type that a top-level declaration written `name` has, if any has.
/// A `template` has a grammar of its own.
pub open spec fn top_level_built_in(name: Seq<char>) -> Option<BuiltIn> {
    if name == "network"@ {
        Some(BuiltIn::Network)
    } else if name == "volume"@ {
        Some(BuiltIn::VolumeDecl)
    } else if name == "service"@ {
        Some(BuiltIn::Service)
    } else {
        None
    }
}

/// The shape of a top-level declaration written `name`.
pub fn top_level_type(name: &str) -> (r: Option<TypeSchema>)
    ensures
        r.deep_view() == (match top_level_built_in(name@) {
            Some(built_in) => Some(schema_of(built_in)),
            None => None,
        }),
{
    if same_text(name, "network") {
        Some(BuiltIn::Network.schema())
    } else if same_text(name, "volume") {
        Some(BuiltIn::VolumeDecl.schema())
    } else if same_text(name, "service") {
        Some(BuiltIn::Service.schema())
    } else {
        None
    }
}

/// Whether a field takes any Compose key at all.
pub open spec fn is_raw_field(field: FieldSchemaV) -> bool {
    field.kind matches FieldKind::Nested(nested) && schema_of(nested).schema_free
}

/// Whether a type has a field that takes any Compose key at all.
pub open spec fn has_raw_field(schema: TypeSchemaV) -> bool {
    exists|i: int| 0 <= i < schema.fields.len() && is_raw_field(#[trigger] schema.fields[i])
}

/// Whether `raw` can be written in a body of this type.
pub fn supports_raw(schema: &TypeSchema) -> (r: bool)
    ensures
        r == has_raw_field(schema.deep_view()),
{
    let ghost all = schema.deep_view().fields;
    let mut i: usize = 0;
    while i < schema.fields.len()
        invariant
            i <= schema.fields@.len(),
            all == schema.deep_view().fields,
            forall|k: int| 0 <= k < i ==> !is_raw_field(#[trigger] all[k]),
        decreases schema.fields@.len() - i,
    {
        assert(all[i as int] == schema.fields@[i as int].deep_view());
        if let FieldKind::Nested(nested) = schema.fields[i].kind {
            if nested.schema().schema_free {
                assert(is_raw_field(schema.deep_view().fields[i as int]));
                return true;
            }
        }
        i = i + 1;
    }
    false
}

/// Whether a reference in this field may be qualified by an alias: only
/// what another file can declare can be reached through one.
pub open spec fn may_be_qualified(field_path: Seq<char>) -> bool {
    field_path == "networks"@ || field_path == "volume"@
}

/// Whether a reference in this field may be qualified by an alias.
pub fn allows_qualified_reference(field_path: &str) -> (r: bool)
    ensures
        r == may_be_qualified(field_path@),
{
    same_text(field_path, "networks") || same_text(field_path, "volume")
}

/// What a key in a body stands for.
pub enum FieldResolution {
    /// A field of the type.
    Field(FieldSchema),
    /// Any key at all, in a body that takes them as they are.
    RawPassthrough,
    /// A field the type used to have, and what takes its place.
    Moved(&'static str),
    Unknown,
}

/// The view of [`FieldResolution`].
#[verifier::ext_equal]
pub enum FieldResolutionV {
    Field(FieldSchemaV),
    RawPassthrough,
    Moved(Seq<char>),
    Unknown,
}

impl DeepView for FieldResolution {
    type V = FieldResolutionV;

    open spec fn deep_view(&self) -> FieldResolutionV {
        match self {
            FieldResolution::Field(field) => FieldResolutionV::Field(field.deep_view()),
            FieldResolution::RawPassthrough => FieldResolutionV::RawPassthrough,
            FieldResolution::Moved(guidance) => FieldResolutionV::Moved(guidance@),
            FieldResolution::Unknown => FieldResolutionV::Unknown,
        }
    }
}

/// What takes the place of a field that services and templates used to
/// have.
pub open spec fn moved_guidance(schema: TypeSchemaV, key: Seq<char>) -> Option<Seq<char>> {
    if schema.name != "service"@ && schema.name != "template"@ {
        None
    } else if key == "router"@ {
        Some(
            "routing moved to `std:traefik`: `use \"std:traefik\" as traefik`, then `with traefik.http { host: \"...\", port: ... }`"@,
        )
    } else if key == "traefik"@ {
        Some(
            "`traefik { disable }` moved to `std:traefik`: `use \"std:traefik\" as traefik`, then `with traefik.disable`"@,
        )
    } else if key == "middleware"@ {
        Some(
            "a middleware is a label on one router now: `with traefik.http_middlewares { router: \"{{name}}\", middlewares: [\"auth@file\"] }` from `std:traefik`"@,
        )
    } else {
        None
    }
}

/// What takes the place of a field that a type used to have.
pub fn moved_field(schema: &TypeSchema, key_text: &str) -> (r: Option<&'static str>)
    ensures
        r.deep_view() == moved_guidance(schema.deep_view(), key_text@),
{
    if !same_text(schema.name, "service") && !same_text(schema.name, "template") {
        None
    } else if same_text(key_text, "router") {
        Some(
            "routing moved to `std:traefik`: `use \"std:traefik\" as traefik`, then `with traefik.http { host: \"...\", port: ... }`",
        )
    } else if same_text(key_text, "traefik") {
        Some(
            "`traefik { disable }` moved to `std:traefik`: `use \"std:traefik\" as traefik`, then `with traefik.disable`",
        )
    } else if same_text(key_text, "middleware") {
        Some(
            "a middleware is a label on one router now: `with traefik.http_middlewares { router: \"{{name}}\", middlewares: [\"auth@file\"] }` from `std:traefik`",
        )
    } else {
        None
    }
}

/// The first field called `key` at or after index `i`.
pub open spec fn field_from(fields: Seq<FieldSchemaV>, key: Seq<char>, i: int) -> Option<
    FieldSchemaV,
>
    decreases fields.len() - i,
{
    if i >= fields.len() {
        None
    } else if fields[i].name == key {
        Some(fields[i])
    } else {
        field_from(fields, key, i + 1)
    }
}

/// What a key in a body of this type stands for.
pub open spec fn resolution(schema: TypeSchemaV, key: Seq<char>) -> FieldResolutionV {
    match field_from(schema.fields, key, 0) {
        Some(field) => FieldResolutionV::Field(field),
        None => if schema.schema_free {
            FieldResolutionV::RawPassthrough
        } else {
            match moved_guidance(schema, key) {
                Some(guidance) => FieldResolutionV::Moved(guidance),
                None => FieldResolutionV::Unknown,
            }
        },
    }
}

/// Finds the field called `key`.
pub(crate) fn find_field(schema: &TypeSchema, key: &str) -> (r: Option<FieldSchema>)
    ensures
        r.deep_view() == field_from(schema.deep_view().fields, key@, 0),
{
    let ghost all = schema.deep_view().fields;
    let mut i: usize = 0;
    while i < schema.fields.len()
        invariant
            i <= schema.fields@.len(),
            all == schema.deep_view().fields,
            field_from(all, key@, 0) == field_from(all, key@, i as int),
        decreases schema.fields@.len() - i,
    {
        assert(all[i as int] == schema.fields@[i as int].deep_view());
        if same_text(schema.fields[i].name, key) {
            return Some(schema.fields[i]);
        }
        i = i + 1;
    }
    None
}

/// Resolves a key in a body of this type.
pub fn resolve_field(schema: &TypeSchema, key_text: &str) -> (r: FieldResolution)
    ensures
        r.deep_view() == resolution(schema.deep_view(), key_text@),
{
    match find_field(schema, key_text) {
        Some(field) => FieldResolution::Field(field),
        None => if schema.schema_free {
            FieldResolution::RawPassthrough
        } else {
            match moved_field(schema, key_text) {
                Some(guidance) => FieldResolution::Moved(guidance),
                None => FieldResolution::Unknown,
            }
        },
    }
}

/// `raw` can be written in a service and in a template, and nowhere else.
pub proof fn law_raw_belongs_in_services_and_templates(built_in: BuiltIn)
    ensures
        has_raw_field(schema_of(built_in)) == (built_in == BuiltIn::Service || built_in
            == BuiltIn::Template),
{
    assert(is_raw_field(service_fields()[12]));
}

proof fn lemma_moved_keys_are_no_fields(key: Seq<char>, i: int)
    requires
        0 <= i,
        key == "router"@ || key == "traefik"@ || key == "middleware"@,
    ensures
        field_from(service_fields(), key, i) is None,
    decreases service_fields().len() - i,
{
    reveal_strlit("router");
    reveal_strlit("traefik");
    reveal_strlit("middleware");
    reveal_strlit("image");
    reveal_strlit("container_name");
    reveal_strlit("command");
    reveal_strlit("entrypoint");
    reveal_strlit("build");
    reveal_strlit("expose");
    reveal_strlit("labels");
    reveal_strlit("restart");
    reveal_strlit("healthcheck");
    reveal_strlit("publish");
    reveal_strlit("volume");
    reveal_strlit("env");
    reveal_strlit("raw");
    reveal_strlit("depends_on");
    reveal_strlit("networks");
    reveal_strlit("dns");
    reveal_strlit("env_file");
    reveal_strlit("privileged");
    reveal_strlit("devices");
    reveal_strlit("with");
    assert("router"@.len() == 6);
    assert("traefik"@.len() == 7);
    assert("middleware"@.len() == 10);
    assert("image"@.len() == 5);
    assert("container_name"@.len() == 14);
    assert("command"@.len() == 7);
    assert("entrypoint"@.len() == 10);
    assert("build"@.len() == 5);
    assert("expose"@.len() == 6);
    assert("labels"@.len() == 6);
    assert("restart"@.len() == 7);
    assert("healthcheck"@.len() == 11);
    assert("publish"@.len() == 7);
    assert("volume"@.len() == 6);
    assert("env"@.len() == 3);
    assert("raw"@.len() == 3);
    assert("depends_on"@.len() == 10);
    assert("networks"@.len() == 8);
    assert("dns"@.len() == 3);
    assert("env_file"@.len() == 8);
    assert("privileged"@.len() == 10);
    assert("devices"@.len() == 7);
    assert("with"@.len() == 4);
    if i < service_fields().len() {
        assert("expose"@[0] == 'e' && "router"@[0] == 'r');
        assert("labels"@[0] == 'l' && "router"@[0] == 'r');
        assert("volume"@[0] == 'v' && "router"@[0] == 'r');
        assert("command"@[0] == 'c' && "traefik"@[0] == 't');
        assert("restart"@[0] == 'r' && "traefik"@[0] == 't');
        assert("publish"@[0] == 'p' && "traefik"@[0] == 't');
        assert("devices"@[0] == 'd' && "traefik"@[0] == 't');
        assert("entrypoint"@[0] == 'e' && "middleware"@[0] == 'm');
        assert("depends_on"@[0] == 'd' && "middleware"@[0] == 'm');
        assert("privileged"@[0] == 'p' && "middleware"@[0] == 'm');
        lemma_moved_keys_are_no_fields(key, i + 1);
    }
}

/// A field that services and templates used to have is answered with what
/// takes its place.
pub proof fn law_moved_fields_are_answered(built_in: BuiltIn, key: Seq<char>)
    requires
        built_in == BuiltIn::Service || built_in == BuiltIn::Template,
        key == "router"@ || key == "traefik"@ || key == "middleware"@,
    ensures
        resolution(schema_of(built_in), key) is Moved,
        moved_guidance(schema_of(built_in), key) is Some,
{
    lemma_moved_keys_are_no_fields(key, 0);
}

} // verus!
