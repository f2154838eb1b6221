//! What each keyword of a body sets: the field of its own name, and no
//! other.

use vstd::prelude::*;
use vstd::string::*;

use crate::ast::{
    ArrowMapEntryV, ArrowMapHostV, ArrowMapV, Build, DependsOnEntryV, EnvEntryV, EnvMapV, Expose,
    FieldAccessV, Healthcheck, Ident, IdentV, Image, LabelEntryV, LabelMap, LabelMapV, LiteralV,
    Network, Param, ParamV, QualifiedRefV, RawEntryV, RawMapV, Restart, Service, ServiceFieldsV,
    ServiceV, ShellOrExecV, TemplateDeclV, TemplateInvocationV, TopDeclV, UseDeclV, Volume,
};
use crate::compose::engine::declares_param;
use crate::compose::field_laws::nothing_set;
use crate::error::ParseErrorV;
use crate::grammar::{
    as_mounts, held_dependencies, held_entries, held_invocations, held_labels, held_mounts,
    held_raw, held_references, lowered_build, lowered_expose, lowered_healthcheck, lowered_image,
    lowered_network, lowered_restart, lowered_service_fields, lowered_volume, past_colon,
    read_bracketed, read_decl, read_field_value, read_items, read_key, read_list, read_list_field,
    read_literal, read_map, read_map_field, read_nested, read_reference, read_scalar_or_list,
    read_shorthand, read_statement, read_statements, read_struct_body, set_index, set_value,
    single_at, with_entries, with_labels, with_mounts, with_raw_entries, with_value, Dependencies,
    FieldValueV, FieldsV, Invocations, LabelEntries, LiteralEntries, MountEntries, Parsed,
    RawEntries, References,
};
use crate::schema::{
    field_from, resolution, schema_of, service_fields, top_level_built_in, BuiltIn, FieldKind,
    FieldResolutionV, FieldSchemaV, MapSide, SchemaKind, TypeSchemaV,
};
use crate::source::{joined, Span, TokenKind, TokenV};
use crate::text::numeral_value;

verus! {

proof fn lemma_keywords_differ()
    ensures
        "image"@ != "container_name"@,
        "image"@ != "command"@,
        "image"@ != "entrypoint"@,
        "image"@ != "build"@,
        "image"@ != "expose"@,
        "image"@ != "labels"@,
        "image"@ != "restart"@,
        "image"@ != "healthcheck"@,
        "image"@ != "publish"@,
        "image"@ != "volume"@,
        "image"@ != "env"@,
        "image"@ != "raw"@,
        "image"@ != "depends_on"@,
        "image"@ != "networks"@,
        "image"@ != "dns"@,
        "image"@ != "env_file"@,
        "image"@ != "privileged"@,
        "image"@ != "devices"@,
        "image"@ != "with"@,
        "container_name"@ != "command"@,
        "container_name"@ != "entrypoint"@,
        "container_name"@ != "build"@,
        "container_name"@ != "expose"@,
        "container_name"@ != "labels"@,
        "container_name"@ != "restart"@,
        "container_name"@ != "healthcheck"@,
        "container_name"@ != "publish"@,
        "container_name"@ != "volume"@,
        "container_name"@ != "env"@,
        "container_name"@ != "raw"@,
        "container_name"@ != "depends_on"@,
        "container_name"@ != "networks"@,
        "container_name"@ != "dns"@,
        "container_name"@ != "env_file"@,
        "container_name"@ != "privileged"@,
        "container_name"@ != "devices"@,
        "container_name"@ != "with"@,
        "command"@ != "entrypoint"@,
        "command"@ != "build"@,
        "command"@ != "expose"@,
        "command"@ != "labels"@,
        "command"@ != "restart"@,
        "command"@ != "healthcheck"@,
        "command"@ != "publish"@,
        "command"@ != "volume"@,
        "command"@ != "env"@,
        "command"@ != "raw"@,
        "command"@ != "depends_on"@,
        "command"@ != "networks"@,
        "command"@ != "dns"@,
        "command"@ != "env_file"@,
        "command"@ != "privileged"@,
        "command"@ != "devices"@,
        "command"@ != "with"@,
        "entrypoint"@ != "build"@,
        "entrypoint"@ != "expose"@,
        "entrypoint"@ != "labels"@,
        "entrypoint"@ != "restart"@,
        "entrypoint"@ != "healthcheck"@,
        "entrypoint"@ != "publish"@,
        "entrypoint"@ != "volume"@,
        "entrypoint"@ != "env"@,
        "entrypoint"@ != "raw"@,
        "entrypoint"@ != "depends_on"@,
        "entrypoint"@ != "networks"@,
        "entrypoint"@ != "dns"@,
        "entrypoint"@ != "env_file"@,
        "entrypoint"@ != "privileged"@,
        "entrypoint"@ != "devices"@,
        "entrypoint"@ != "with"@,
        "build"@ != "expose"@,
        "build"@ != "labels"@,
        "build"@ != "restart"@,
        "build"@ != "healthcheck"@,
        "build"@ != "publish"@,
        "build"@ != "volume"@,
        "build"@ != "env"@,
        "build"@ != "raw"@,
        "build"@ != "depends_on"@,
        "build"@ != "networks"@,
        "build"@ != "dns"@,
        "build"@ != "env_file"@,
        "build"@ != "privileged"@,
        "build"@ != "devices"@,
        "build"@ != "with"@,
        "expose"@ != "labels"@,
        "expose"@ != "restart"@,
        "expose"@ != "healthcheck"@,
        "expose"@ != "publish"@,
        "expose"@ != "volume"@,
        "expose"@ != "env"@,
        "expose"@ != "raw"@,
        "expose"@ != "depends_on"@,
        "expose"@ != "networks"@,
        "expose"@ != "dns"@,
        "expose"@ != "env_file"@,
        "expose"@ != "privileged"@,
        "expose"@ != "devices"@,
        "expose"@ != "with"@,
        "labels"@ != "restart"@,
        "labels"@ != "healthcheck"@,
        "labels"@ != "publish"@,
        "labels"@ != "volume"@,
        "labels"@ != "env"@,
        "labels"@ != "raw"@,
        "labels"@ != "depends_on"@,
        "labels"@ != "networks"@,
        "labels"@ != "dns"@,
        "labels"@ != "env_file"@,
        "labels"@ != "privileged"@,
        "labels"@ != "devices"@,
        "labels"@ != "with"@,
        "restart"@ != "healthcheck"@,
        "restart"@ != "publish"@,
        "restart"@ != "volume"@,
        "restart"@ != "env"@,
        "restart"@ != "raw"@,
        "restart"@ != "depends_on"@,
        "restart"@ != "networks"@,
        "restart"@ != "dns"@,
        "restart"@ != "env_file"@,
        "restart"@ != "privileged"@,
        "restart"@ != "devices"@,
        "restart"@ != "with"@,
        "healthcheck"@ != "publish"@,
        "healthcheck"@ != "volume"@,
        "healthcheck"@ != "env"@,
        "healthcheck"@ != "raw"@,
        "healthcheck"@ != "depends_on"@,
        "healthcheck"@ != "networks"@,
        "healthcheck"@ != "dns"@,
        "healthcheck"@ != "env_file"@,
        "healthcheck"@ != "privileged"@,
        "healthcheck"@ != "devices"@,
        "healthcheck"@ != "with"@,
        "publish"@ != "volume"@,
        "publish"@ != "env"@,
        "publish"@ != "raw"@,
        "publish"@ != "depends_on"@,
        "publish"@ != "networks"@,
        "publish"@ != "dns"@,
        "publish"@ != "env_file"@,
        "publish"@ != "privileged"@,
        "publish"@ != "devices"@,
        "publish"@ != "with"@,
        "volume"@ != "env"@,
        "volume"@ != "raw"@,
        "volume"@ != "depends_on"@,
        "volume"@ != "networks"@,
        "volume"@ != "dns"@,
        "volume"@ != "env_file"@,
        "volume"@ != "privileged"@,
        "volume"@ != "devices"@,
        "volume"@ != "with"@,
        "env"@ != "raw"@,
        "env"@ != "depends_on"@,
        "env"@ != "networks"@,
        "env"@ != "dns"@,
        "env"@ != "env_file"@,
        "env"@ != "privileged"@,
        "env"@ != "devices"@,
        "env"@ != "with"@,
        "raw"@ != "depends_on"@,
        "raw"@ != "networks"@,
        "raw"@ != "dns"@,
        "raw"@ != "env_file"@,
        "raw"@ != "privileged"@,
        "raw"@ != "devices"@,
        "raw"@ != "with"@,
        "depends_on"@ != "networks"@,
        "depends_on"@ != "dns"@,
        "depends_on"@ != "env_file"@,
        "depends_on"@ != "privileged"@,
        "depends_on"@ != "devices"@,
        "depends_on"@ != "with"@,
        "networks"@ != "dns"@,
        "networks"@ != "env_file"@,
        "networks"@ != "privileged"@,
        "networks"@ != "devices"@,
        "networks"@ != "with"@,
        "dns"@ != "env_file"@,
        "dns"@ != "privileged"@,
        "dns"@ != "devices"@,
        "dns"@ != "with"@,
        "env_file"@ != "privileged"@,
        "env_file"@ != "devices"@,
        "env_file"@ != "with"@,
        "privileged"@ != "devices"@,
        "privileged"@ != "with"@,
        "devices"@ != "with"@,
{
    reveal_strlit("image");
    reveal_strlit("container_name");
    reveal_strlit("command");
    reveal_strlit("entrypoint");
    reveal_strlit("build");
    reveal_strlit("expose");
    reveal_strlit("labels");
    reveal_strlit("restart");
    reveal_strlit("healthcheck");
    reveal_strlit("publish");
    reveal_strlit("volume");
    reveal_strlit("env");
    reveal_strlit("raw");
    reveal_strlit("depends_on");
    reveal_strlit("networks");
    reveal_strlit("dns");
    reveal_strlit("env_file");
    reveal_strlit("privileged");
    reveal_strlit("devices");
    reveal_strlit("with");
    assert("image"@.len() == 5);
    assert("container_name"@.len() == 14);
    assert("command"@.len() == 7);
    assert("entrypoint"@.len() == 10);
    assert("build"@.len() == 5);
    assert("expose"@.len() == 6);
    assert("labels"@.len() == 6);
    assert("restart"@.len() == 7);
    assert("healthcheck"@.len() == 11);
    assert("publish"@.len() == 7);
    assert("volume"@.len() == 6);
    assert("env"@.len() == 3);
    assert("raw"@.len() == 3);
    assert("depends_on"@.len() == 10);
    assert("networks"@.len() == 8);
    assert("dns"@.len() == 3);
    assert("env_file"@.len() == 8);
    assert("privileged"@.len() == 10);
    assert("devices"@.len() == 7);
    assert("with"@.len() == 4);
    assert("image"@[0] == 'i' && "build"@[0] == 'b');
    assert("command"@[0] == 'c' && "restart"@[0] == 'r');
    assert("command"@[0] == 'c' && "publish"@[0] == 'p');
    assert("command"@[0] == 'c' && "devices"@[0] == 'd');
    assert("entrypoint"@[0] == 'e' && "depends_on"@[0] == 'd');
    assert("entrypoint"@[0] == 'e' && "privileged"@[0] == 'p');
    assert("expose"@[0] == 'e' && "labels"@[0] == 'l');
    assert("expose"@[0] == 'e' && "volume"@[0] == 'v');
    assert("labels"@[0] == 'l' && "volume"@[0] == 'v');
    assert("restart"@[0] == 'r' && "publish"@[0] == 'p');
    assert("restart"@[0] == 'r' && "devices"@[0] == 'd');
    assert("publish"@[0] == 'p' && "devices"@[0] == 'd');
    assert("env"@[0] == 'e' && "raw"@[0] == 'r');
    assert("env"@[0] == 'e' && "dns"@[0] == 'd');
    assert("raw"@[0] == 'r' && "dns"@[0] == 'd');
    assert("depends_on"@[0] == 'd' && "privileged"@[0] == 'p');
    assert("networks"@[0] == 'n' && "env_file"@[0] == 'e');
}

/// Whether two bodies set the same, but for one key.
pub open spec fn alike_but(a: FieldsV, b: FieldsV, key: Seq<char>) -> bool {
    forall|name: Seq<char>| name != key ==> #[trigger] set_value(a, name) == set_value(b, name)
}

/// Bodies that set the same but for one keyword lower to services that are
/// the same but for the field of that keyword.
pub proof fn law_a_keyword_reaches_its_own_field_only(a: FieldsV, b: FieldsV)
    ensures
        alike_but(a, b, "image"@) ==> lowered_service_fields(a) == (ServiceFieldsV {
            image: lowered_service_fields(a).image,
            ..lowered_service_fields(b)
        }),
        alike_but(a, b, "container_name"@) ==> lowered_service_fields(a) == (ServiceFieldsV {
            container_name: lowered_service_fields(a).container_name,
            ..lowered_service_fields(b)
        }),
        alike_but(a, b, "command"@) ==> lowered_service_fields(a) == (ServiceFieldsV {
            command: lowered_service_fields(a).command,
            ..lowered_service_fields(b)
        }),
        alike_but(a, b, "entrypoint"@) ==> lowered_service_fields(a) == (ServiceFieldsV {
            entrypoint: lowered_service_fields(a).entrypoint,
            ..lowered_service_fields(b)
        }),
        alike_but(a, b, "build"@) ==> lowered_service_fields(a) == (ServiceFieldsV {
            build: lowered_service_fields(a).build,
            ..lowered_service_fields(b)
        }),
        alike_but(a, b, "expose"@) ==> lowered_service_fields(a) == (ServiceFieldsV {
            expose: lowered_service_fields(a).expose,
            ..lowered_service_fields(b)
        }),
        alike_but(a, b, "labels"@) ==> lowered_service_fields(a) == (ServiceFieldsV {
            labels: lowered_service_fields(a).labels,
            ..lowered_service_fields(b)
        }),
        alike_but(a, b, "restart"@) ==> lowered_service_fields(a) == (ServiceFieldsV {
            restart: lowered_service_fields(a).restart,
            ..lowered_service_fields(b)
        }),
        alike_but(a, b, "healthcheck"@) ==> lowered_service_fields(a) == (ServiceFieldsV {
            healthcheck: lowered_service_fields(a).healthcheck,
            ..lowered_service_fields(b)
        }),
        alike_but(a, b, "publish"@) ==> lowered_service_fields(a) == (ServiceFieldsV {
            publish: lowered_service_fields(a).publish,
            ..lowered_service_fields(b)
        }),
        alike_but(a, b, "volume"@) ==> lowered_service_fields(a) == (ServiceFieldsV {
            volumes: lowered_service_fields(a).volumes,
            ..lowered_service_fields(b)
        }),
        alike_but(a, b, "env"@) ==> lowered_service_fields(a) == (ServiceFieldsV {
            env: lowered_service_fields(a).env,
            ..lowered_service_fields(b)
        }),
        alike_but(a, b, "raw"@) ==> lowered_service_fields(a) == (ServiceFieldsV {
            raw: lowered_service_fields(a).raw,
            ..lowered_service_fields(b)
        }),
        alike_but(a, b, "depends_on"@) ==> lowered_service_fields(a) == (ServiceFieldsV {
            depends_on: lowered_service_fields(a).depends_on,
            ..lowered_service_fields(b)
        }),
        alike_but(a, b, "networks"@) ==> lowered_service_fields(a) == (ServiceFieldsV {
            networks: lowered_service_fields(a).networks,
            ..lowered_service_fields(b)
        }),
        alike_but(a, b, "dns"@) ==> lowered_service_fields(a) == (ServiceFieldsV {
            dns: lowered_service_fields(a).dns,
            ..lowered_service_fields(b)
        }),
        alike_but(a, b, "env_file"@) ==> lowered_service_fields(a) == (ServiceFieldsV {
            env_file: lowered_service_fields(a).env_file,
            ..lowered_service_fields(b)
        }),
        alike_but(a, b, "privileged"@) ==> lowered_service_fields(a) == (ServiceFieldsV {
            privileged: lowered_service_fields(a).privileged,
            ..lowered_service_fields(b)
        }),
        alike_but(a, b, "devices"@) ==> lowered_service_fields(a) == (ServiceFieldsV {
            devices: lowered_service_fields(a).devices,
            ..lowered_service_fields(b)
        }),
        alike_but(a, b, "with"@) ==> lowered_service_fields(a) == (ServiceFieldsV {
            with: lowered_service_fields(a).with,
            ..lowered_service_fields(b)
        }),
{
    lemma_keywords_differ();
    lemma_only_image(a, b);
    lemma_only_container_name(a, b);
    lemma_only_command(a, b);
    lemma_only_entrypoint(a, b);
    lemma_only_build(a, b);
    lemma_only_expose(a, b);
    lemma_only_labels(a, b);
    lemma_only_restart(a, b);
    lemma_only_healthcheck(a, b);
    lemma_only_publish(a, b);
    lemma_only_volume(a, b);
    lemma_only_env(a, b);
    lemma_only_raw(a, b);
    lemma_only_depends_on(a, b);
    lemma_only_networks(a, b);
    lemma_only_dns(a, b);
    lemma_only_env_file(a, b);
    lemma_only_privileged(a, b);
    lemma_only_devices(a, b);
    lemma_only_with(a, b);
}

proof fn lemma_only_image(a: FieldsV, b: FieldsV)
    ensures
        alike_but(a, b, "image"@) ==> lowered_service_fields(a) == (ServiceFieldsV {
            image: lowered_service_fields(a).image,
            ..lowered_service_fields(b)
        }),
{
    lemma_keywords_differ();
    if alike_but(a, b, "image"@) {
        assert(set_value(a, "container_name"@) == set_value(b, "container_name"@));
        assert(set_value(a, "command"@) == set_value(b, "command"@));
        assert(set_value(a, "entrypoint"@) == set_value(b, "entrypoint"@));
        assert(set_value(a, "build"@) == set_value(b, "build"@));
        assert(set_value(a, "expose"@) == set_value(b, "expose"@));
        assert(set_value(a, "labels"@) == set_value(b, "labels"@));
        assert(set_value(a, "restart"@) == set_value(b, "restart"@));
        assert(set_value(a, "healthcheck"@) == set_value(b, "healthcheck"@));
        assert(set_value(a, "publish"@) == set_value(b, "publish"@));
        assert(set_value(a, "volume"@) == set_value(b, "volume"@));
        assert(set_value(a, "env"@) == set_value(b, "env"@));
        assert(set_value(a, "raw"@) == set_value(b, "raw"@));
        assert(set_value(a, "depends_on"@) == set_value(b, "depends_on"@));
        assert(set_value(a, "networks"@) == set_value(b, "networks"@));
        assert(set_value(a, "dns"@) == set_value(b, "dns"@));
        assert(set_value(a, "env_file"@) == set_value(b, "env_file"@));
        assert(set_value(a, "privileged"@) == set_value(b, "privileged"@));
        assert(set_value(a, "devices"@) == set_value(b, "devices"@));
        assert(set_value(a, "with"@) == set_value(b, "with"@));
    }
}

proof fn lemma_only_container_name(a: FieldsV, b: FieldsV)
    ensures
        alike_but(a, b, "container_name"@) ==> lowered_service_fields(a) == (ServiceFieldsV {
            container_name: lowered_service_fields(a).container_name,
            ..lowered_service_fields(b)
        }),
{
    lemma_keywords_differ();
    if alike_but(a, b, "container_name"@) {
        assert(set_value(a, "image"@) == set_value(b, "image"@));
        assert(set_value(a, "command"@) == set_value(b, "command"@));
        assert(set_value(a, "entrypoint"@) == set_value(b, "entrypoint"@));
        assert(set_value(a, "build"@) == set_value(b, "build"@));
        assert(set_value(a, "expose"@) == set_value(b, "expose"@));
        assert(set_value(a, "labels"@) == set_value(b, "labels"@));
        assert(set_value(a, "restart"@) == set_value(b, "restart"@));
        assert(set_value(a, "healthcheck"@) == set_value(b, "healthcheck"@));
        assert(set_value(a, "publish"@) == set_value(b, "publish"@));
        assert(set_value(a, "volume"@) == set_value(b, "volume"@));
        assert(set_value(a, "env"@) == set_value(b, "env"@));
        assert(set_value(a, "raw"@) == set_value(b, "raw"@));
        assert(set_value(a, "depends_on"@) == set_value(b, "depends_on"@));
        assert(set_value(a, "networks"@) == set_value(b, "networks"@));
        assert(set_value(a, "dns"@) == set_value(b, "dns"@));
        assert(set_value(a, "env_file"@) == set_value(b, "env_file"@));
        assert(set_value(a, "privileged"@) == set_value(b, "privileged"@));
        assert(set_value(a, "devices"@) == set_value(b, "devices"@));
        assert(set_value(a, "with"@) == set_value(b, "with"@));
    }
}

proof fn lemma_only_command(a: FieldsV, b: FieldsV)
    ensures
        alike_but(a, b, "command"@) ==> lowered_service_fields(a) == (ServiceFieldsV {
            command: lowered_service_fields(a).command,
            ..lowered_service_fields(b)
        }),
{
    lemma_keywords_differ();
    if alike_but(a, b, "command"@) {
        assert(set_value(a, "image"@) == set_value(b, "image"@));
        assert(set_value(a, "container_name"@) == set_value(b, "container_name"@));
        assert(set_value(a, "entrypoint"@) == set_value(b, "entrypoint"@));
        assert(set_value(a, "build"@) == set_value(b, "build"@));
        assert(set_value(a, "expose"@) == set_value(b, "expose"@));
        assert(set_value(a, "labels"@) == set_value(b, "labels"@));
        assert(set_value(a, "restart"@) == set_value(b, "restart"@));
        assert(set_value(a, "healthcheck"@) == set_value(b, "healthcheck"@));
        assert(set_value(a, "publish"@) == set_value(b, "publish"@));
        assert(set_value(a, "volume"@) == set_value(b, "volume"@));
        assert(set_value(a, "env"@) == set_value(b, "env"@));
        assert(set_value(a, "raw"@) == set_value(b, "raw"@));
        assert(set_value(a, "depends_on"@) == set_value(b, "depends_on"@));
        assert(set_value(a, "networks"@) == set_value(b, "networks"@));
        assert(set_value(a, "dns"@) == set_value(b, "dns"@));
        assert(set_value(a, "env_file"@) == set_value(b, "env_file"@));
        assert(set_value(a, "privileged"@) == set_value(b, "privileged"@));
        assert(set_value(a, "devices"@) == set_value(b, "devices"@));
        assert(set_value(a, "with"@) == set_value(b, "with"@));
    }
}

proof fn lemma_only_entrypoint(a: FieldsV, b: FieldsV)
    ensures
        alike_but(a, b, "entrypoint"@) ==> lowered_service_fields(a) == (ServiceFieldsV {
            entrypoint: lowered_service_fields(a).entrypoint,
            ..lowered_service_fields(b)
        }),
{
    lemma_keywords_differ();
    if alike_but(a, b, "entrypoint"@) {
        assert(set_value(a, "image"@) == set_value(b, "image"@));
        assert(set_value(a, "container_name"@) == set_value(b, "container_name"@));
        assert(set_value(a, "command"@) == set_value(b, "command"@));
        assert(set_value(a, "build"@) == set_value(b, "build"@));
        assert(set_value(a, "expose"@) == set_value(b, "expose"@));
        assert(set_value(a, "labels"@) == set_value(b, "labels"@));
        assert(set_value(a, "restart"@) == set_value(b, "restart"@));
        assert(set_value(a, "healthcheck"@) == set_value(b, "healthcheck"@));
        assert(set_value(a, "publish"@) == set_value(b, "publish"@));
        assert(set_value(a, "volume"@) == set_value(b, "volume"@));
        assert(set_value(a, "env"@) == set_value(b, "env"@));
        assert(set_value(a, "raw"@) == set_value(b, "raw"@));
        assert(set_value(a, "depends_on"@) == set_value(b, "depends_on"@));
        assert(set_value(a, "networks"@) == set_value(b, "networks"@));
        assert(set_value(a, "dns"@) == set_value(b, "dns"@));
        assert(set_value(a, "env_file"@) == set_value(b, "env_file"@));
        assert(set_value(a, "privileged"@) == set_value(b, "privileged"@));
        assert(set_value(a, "devices"@) == set_value(b, "devices"@));
        assert(set_value(a, "with"@) == set_value(b, "with"@));
    }
}

proof fn lemma_only_build(a: FieldsV, b: FieldsV)
    ensures
        alike_but(a, b, "build"@) ==> lowered_service_fields(a) == (ServiceFieldsV {
            build: lowered_service_fields(a).build,
            ..lowered_service_fields(b)
        }),
{
    lemma_keywords_differ();
    if alike_but(a, b, "build"@) {
        assert(set_value(a, "image"@) == set_value(b, "image"@));
        assert(set_value(a, "container_name"@) == set_value(b, "container_name"@));
        assert(set_value(a, "command"@) == set_value(b, "command"@));
        assert(set_value(a, "entrypoint"@) == set_value(b, "entrypoint"@));
        assert(set_value(a, "expose"@) == set_value(b, "expose"@));
        assert(set_value(a, "labels"@) == set_value(b, "labels"@));
        assert(set_value(a, "restart"@) == set_value(b, "restart"@));
        assert(set_value(a, "healthcheck"@) == set_value(b, "healthcheck"@));
        assert(set_value(a, "publish"@) == set_value(b, "publish"@));
        assert(set_value(a, "volume"@) == set_value(b, "volume"@));
        assert(set_value(a, "env"@) == set_value(b, "env"@));
        assert(set_value(a, "raw"@) == set_value(b, "raw"@));
        assert(set_value(a, "depends_on"@) == set_value(b, "depends_on"@));
        assert(set_value(a, "networks"@) == set_value(b, "networks"@));
        assert(set_value(a, "dns"@) == set_value(b, "dns"@));
        assert(set_value(a, "env_file"@) == set_value(b, "env_file"@));
        assert(set_value(a, "privileged"@) == set_value(b, "privileged"@));
        assert(set_value(a, "devices"@) == set_value(b, "devices"@));
        assert(set_value(a, "with"@) == set_value(b, "with"@));
    }
}

proof fn lemma_only_expose(a: FieldsV, b: FieldsV)
    ensures
        alike_but(a, b, "expose"@) ==> lowered_service_fields(a) == (ServiceFieldsV {
            expose: lowered_service_fields(a).expose,
            ..lowered_service_fields(b)
        }),
{
    lemma_keywords_differ();
    if alike_but(a, b, "expose"@) {
        assert(set_value(a, "image"@) == set_value(b, "image"@));
        assert(set_value(a, "container_name"@) == set_value(b, "container_name"@));
        assert(set_value(a, "command"@) == set_value(b, "command"@));
        assert(set_value(a, "entrypoint"@) == set_value(b, "entrypoint"@));
        assert(set_value(a, "build"@) == set_value(b, "build"@));
        assert(set_value(a, "labels"@) == set_value(b, "labels"@));
        assert(set_value(a, "restart"@) == set_value(b, "restart"@));
        assert(set_value(a, "healthcheck"@) == set_value(b, "healthcheck"@));
        assert(set_value(a, "publish"@) == set_value(b, "publish"@));
        assert(set_value(a, "volume"@) == set_value(b, "volume"@));
        assert(set_value(a, "env"@) == set_value(b, "env"@));
        assert(set_value(a, "raw"@) == set_value(b, "raw"@));
        assert(set_value(a, "depends_on"@) == set_value(b, "depends_on"@));
        assert(set_value(a, "networks"@) == set_value(b, "networks"@));
        assert(set_value(a, "dns"@) == set_value(b, "dns"@));
        assert(set_value(a, "env_file"@) == set_value(b, "env_file"@));
        assert(set_value(a, "privileged"@) == set_value(b, "privileged"@));
        assert(set_value(a, "devices"@) == set_value(b, "devices"@));
        assert(set_value(a, "with"@) == set_value(b, "with"@));
    }
}

proof fn lemma_only_labels(a: FieldsV, b: FieldsV)
    ensures
        alike_but(a, b, "labels"@) ==> lowered_service_fields(a) == (ServiceFieldsV {
            labels: lowered_service_fields(a).labels,
            ..lowered_service_fields(b)
        }),
{
    lemma_keywords_differ();
    if alike_but(a, b, "labels"@) {
        assert(set_value(a, "image"@) == set_value(b, "image"@));
        assert(set_value(a, "container_name"@) == set_value(b, "container_name"@));
        assert(set_value(a, "command"@) == set_value(b, "command"@));
        assert(set_value(a, "entrypoint"@) == set_value(b, "entrypoint"@));
        assert(set_value(a, "build"@) == set_value(b, "build"@));
        assert(set_value(a, "expose"@) == set_value(b, "expose"@));
        assert(set_value(a, "restart"@) == set_value(b, "restart"@));
        assert(set_value(a, "healthcheck"@) == set_value(b, "healthcheck"@));
        assert(set_value(a, "publish"@) == set_value(b, "publish"@));
        assert(set_value(a, "volume"@) == set_value(b, "volume"@));
        assert(set_value(a, "env"@) == set_value(b, "env"@));
        assert(set_value(a, "raw"@) == set_value(b, "raw"@));
        assert(set_value(a, "depends_on"@) == set_value(b, "depends_on"@));
        assert(set_value(a, "networks"@) == set_value(b, "networks"@));
        assert(set_value(a, "dns"@) == set_value(b, "dns"@));
        assert(set_value(a, "env_file"@) == set_value(b, "env_file"@));
        assert(set_value(a, "privileged"@) == set_value(b, "privileged"@));
        assert(set_value(a, "devices"@) == set_value(b, "devices"@));
        assert(set_value(a, "with"@) == set_value(b, "with"@));
    }
}

proof fn lemma_only_restart(a: FieldsV, b: FieldsV)
    ensures
        alike_but(a, b, "restart"@) ==> lowered_service_fields(a) == (ServiceFieldsV {
            restart: lowered_service_fields(a).restart,
            ..lowered_service_fields(b)
        }),
{
    lemma_keywords_differ();
    if alike_but(a, b, "restart"@) {
        assert(set_value(a, "image"@) == set_value(b, "image"@));
        assert(set_value(a, "container_name"@) == set_value(b, "container_name"@));
        assert(set_value(a, "command"@) == set_value(b, "command"@));
        assert(set_value(a, "entrypoint"@) == set_value(b, "entrypoint"@));
        assert(set_value(a, "build"@) == set_value(b, "build"@));
        assert(set_value(a, "expose"@) == set_value(b, "expose"@));
        assert(set_value(a, "labels"@) == set_value(b, "labels"@));
        assert(set_value(a, "healthcheck"@) == set_value(b, "healthcheck"@));
        assert(set_value(a, "publish"@) == set_value(b, "publish"@));
        assert(set_value(a, "volume"@) == set_value(b, "volume"@));
        assert(set_value(a, "env"@) == set_value(b, "env"@));
        assert(set_value(a, "raw"@) == set_value(b, "raw"@));
        assert(set_value(a, "depends_on"@) == set_value(b, "depends_on"@));
        assert(set_value(a, "networks"@) == set_value(b, "networks"@));
        assert(set_value(a, "dns"@) == set_value(b, "dns"@));
        assert(set_value(a, "env_file"@) == set_value(b, "env_file"@));
        assert(set_value(a, "privileged"@) == set_value(b, "privileged"@));
        assert(set_value(a, "devices"@) == set_value(b, "devices"@));
        assert(set_value(a, "with"@) == set_value(b, "with"@));
    }
}

proof fn lemma_only_healthcheck(a: FieldsV, b: FieldsV)
    ensures
        alike_but(a, b, "healthcheck"@) ==> lowered_service_fields(a) == (ServiceFieldsV {
            healthcheck: lowered_service_fields(a).healthcheck,
            ..lowered_service_fields(b)
        }),
{
    lemma_keywords_differ();
    if alike_but(a, b, "healthcheck"@) {
        assert(set_value(a, "image"@) == set_value(b, "image"@));
        assert(set_value(a, "container_name"@) == set_value(b, "container_name"@));
        assert(set_value(a, "command"@) == set_value(b, "command"@));
        assert(set_value(a, "entrypoint"@) == set_value(b, "entrypoint"@));
        assert(set_value(a, "build"@) == set_value(b, "build"@));
        assert(set_value(a, "expose"@) == set_value(b, "expose"@));
        assert(set_value(a, "labels"@) == set_value(b, "labels"@));
        assert(set_value(a, "restart"@) == set_value(b, "restart"@));
        assert(set_value(a, "publish"@) == set_value(b, "publish"@));
        assert(set_value(a, "volume"@) == set_value(b, "volume"@));
        assert(set_value(a, "env"@) == set_value(b, "env"@));
        assert(set_value(a, "raw"@) == set_value(b, "raw"@));
        assert(set_value(a, "depends_on"@) == set_value(b, "depends_on"@));
        assert(set_value(a, "networks"@) == set_value(b, "networks"@));
        assert(set_value(a, "dns"@) == set_value(b, "dns"@));
        assert(set_value(a, "env_file"@) == set_value(b, "env_file"@));
        assert(set_value(a, "privileged"@) == set_value(b, "privileged"@));
        assert(set_value(a, "devices"@) == set_value(b, "devices"@));
        assert(set_value(a, "with"@) == set_value(b, "with"@));
    }
}

proof fn lemma_only_publish(a: FieldsV, b: FieldsV)
    ensures
        alike_but(a, b, "publish"@) ==> lowered_service_fields(a) == (ServiceFieldsV {
            publish: lowered_service_fields(a).publish,
            ..lowered_service_fields(b)
        }),
{
    lemma_keywords_differ();
    if alike_but(a, b, "publish"@) {
        assert(set_value(a, "image"@) == set_value(b, "image"@));
        assert(set_value(a, "container_name"@) == set_value(b, "container_name"@));
        assert(set_value(a, "command"@) == set_value(b, "command"@));
        assert(set_value(a, "entrypoint"@) == set_value(b, "entrypoint"@));
        assert(set_value(a, "build"@) == set_value(b, "build"@));
        assert(set_value(a, "expose"@) == set_value(b, "expose"@));
        assert(set_value(a, "labels"@) == set_value(b, "labels"@));
        assert(set_value(a, "restart"@) == set_value(b, "restart"@));
        assert(set_value(a, "healthcheck"@) == set_value(b, "healthcheck"@));
        assert(set_value(a, "volume"@) == set_value(b, "volume"@));
        assert(set_value(a, "env"@) == set_value(b, "env"@));
        assert(set_value(a, "raw"@) == set_value(b, "raw"@));
        assert(set_value(a, "depends_on"@) == set_value(b, "depends_on"@));
        assert(set_value(a, "networks"@) == set_value(b, "networks"@));
        assert(set_value(a, "dns"@) == set_value(b, "dns"@));
        assert(set_value(a, "env_file"@) == set_value(b, "env_file"@));
        assert(set_value(a, "privileged"@) == set_value(b, "privileged"@));
        assert(set_value(a, "devices"@) == set_value(b, "devices"@));
        assert(set_value(a, "with"@) == set_value(b, "with"@));
    }
}

proof fn lemma_only_volume(a: FieldsV, b: FieldsV)
    ensures
        alike_but(a, b, "volume"@) ==> lowered_service_fields(a) == (ServiceFieldsV {
            volumes: lowered_service_fields(a).volumes,
            ..lowered_service_fields(b)
        }),
{
    lemma_keywords_differ();
    if alike_but(a, b, "volume"@) {
        assert(set_value(a, "image"@) == set_value(b, "image"@));
        assert(set_value(a, "container_name"@) == set_value(b, "container_name"@));
        assert(set_value(a, "command"@) == set_value(b, "command"@));
        assert(set_value(a, "entrypoint"@) == set_value(b, "entrypoint"@));
        assert(set_value(a, "build"@) == set_value(b, "build"@));
        assert(set_value(a, "expose"@) == set_value(b, "expose"@));
        assert(set_value(a, "labels"@) == set_value(b, "labels"@));
        assert(set_value(a, "restart"@) == set_value(b, "restart"@));
        assert(set_value(a, "healthcheck"@) == set_value(b, "healthcheck"@));
        assert(set_value(a, "publish"@) == set_value(b, "publish"@));
        assert(set_value(a, "env"@) == set_value(b, "env"@));
        assert(set_value(a, "raw"@) == set_value(b, "raw"@));
        assert(set_value(a, "depends_on"@) == set_value(b, "depends_on"@));
        assert(set_value(a, "networks"@) == set_value(b, "networks"@));
        assert(set_value(a, "dns"@) == set_value(b, "dns"@));
        assert(set_value(a, "env_file"@) == set_value(b, "env_file"@));
        assert(set_value(a, "privileged"@) == set_value(b, "privileged"@));
        assert(set_value(a, "devices"@) == set_value(b, "devices"@));
        assert(set_value(a, "with"@) == set_value(b, "with"@));
    }
}

proof fn lemma_only_env(a: FieldsV, b: FieldsV)
    ensures
        alike_but(a, b, "env"@) ==> lowered_service_fields(a) == (ServiceFieldsV {
            env: lowered_service_fields(a).env,
            ..lowered_service_fields(b)
        }),
{
    lemma_keywords_differ();
    if alike_but(a, b, "env"@) {
        assert(set_value(a, "image"@) == set_value(b, "image"@));
        assert(set_value(a, "container_name"@) == set_value(b, "container_name"@));
        assert(set_value(a, "command"@) == set_value(b, "command"@));
        assert(set_value(a, "entrypoint"@) == set_value(b, "entrypoint"@));
        assert(set_value(a, "build"@) == set_value(b, "build"@));
        assert(set_value(a, "expose"@) == set_value(b, "expose"@));
        assert(set_value(a, "labels"@) == set_value(b, "labels"@));
        assert(set_value(a, "restart"@) == set_value(b, "restart"@));
        assert(set_value(a, "healthcheck"@) == set_value(b, "healthcheck"@));
        assert(set_value(a, "publish"@) == set_value(b, "publish"@));
        assert(set_value(a, "volume"@) == set_value(b, "volume"@));
        assert(set_value(a, "raw"@) == set_value(b, "raw"@));
        assert(set_value(a, "depends_on"@) == set_value(b, "depends_on"@));
        assert(set_value(a, "networks"@) == set_value(b, "networks"@));
        assert(set_value(a, "dns"@) == set_value(b, "dns"@));
        assert(set_value(a, "env_file"@) == set_value(b, "env_file"@));
        assert(set_value(a, "privileged"@) == set_value(b, "privileged"@));
        assert(set_value(a, "devices"@) == set_value(b, "devices"@));
        assert(set_value(a, "with"@) == set_value(b, "with"@));
    }
}

proof fn lemma_only_raw(a: FieldsV, b: FieldsV)
    ensures
        alike_but(a, b, "raw"@) ==> lowered_service_fields(a) == (ServiceFieldsV {
            raw: lowered_service_fields(a).raw,
            ..lowered_service_fields(b)
        }),
{
    lemma_keywords_differ();
    if alike_but(a, b, "raw"@) {
        assert(set_value(a, "image"@) == set_value(b, "image"@));
        assert(set_value(a, "container_name"@) == set_value(b, "container_name"@));
        assert(set_value(a, "command"@) == set_value(b, "command"@));
        assert(set_value(a, "entrypoint"@) == set_value(b, "entrypoint"@));
        assert(set_value(a, "build"@) == set_value(b, "build"@));
        assert(set_value(a, "expose"@) == set_value(b, "expose"@));
        assert(set_value(a, "labels"@) == set_value(b, "labels"@));
        assert(set_value(a, "restart"@) == set_value(b, "restart"@));
        assert(set_value(a, "healthcheck"@) == set_value(b, "healthcheck"@));
        assert(set_value(a, "publish"@) == set_value(b, "publish"@));
        assert(set_value(a, "volume"@) == set_value(b, "volume"@));
        assert(set_value(a, "env"@) == set_value(b, "env"@));
        assert(set_value(a, "depends_on"@) == set_value(b, "depends_on"@));
        assert(set_value(a, "networks"@) == set_value(b, "networks"@));
        assert(set_value(a, "dns"@) == set_value(b, "dns"@));
        assert(set_value(a, "env_file"@) == set_value(b, "env_file"@));
        assert(set_value(a, "privileged"@) == set_value(b, "privileged"@));
        assert(set_value(a, "devices"@) == set_value(b, "devices"@));
        assert(set_value(a, "with"@) == set_value(b, "with"@));
    }
}

proof fn lemma_only_depends_on(a: FieldsV, b: FieldsV)
    ensures
        alike_but(a, b, "depends_on"@) ==> lowered_service_fields(a) == (ServiceFieldsV {
            depends_on: lowered_service_fields(a).depends_on,
            ..lowered_service_fields(b)
        }),
{
    lemma_keywords_differ();
    if alike_but(a, b, "depends_on"@) {
        assert(set_value(a, "image"@) == set_value(b, "image"@));
        assert(set_value(a, "container_name"@) == set_value(b, "container_name"@));
        assert(set_value(a, "command"@) == set_value(b, "command"@));
        assert(set_value(a, "entrypoint"@) == set_value(b, "entrypoint"@));
        assert(set_value(a, "build"@) == set_value(b, "build"@));
        assert(set_value(a, "expose"@) == set_value(b, "expose"@));
        assert(set_value(a, "labels"@) == set_value(b, "labels"@));
        assert(set_value(a, "restart"@) == set_value(b, "restart"@));
        assert(set_value(a, "healthcheck"@) == set_value(b, "healthcheck"@));
        assert(set_value(a, "publish"@) == set_value(b, "publish"@));
        assert(set_value(a, "volume"@) == set_value(b, "volume"@));
        assert(set_value(a, "env"@) == set_value(b, "env"@));
        assert(set_value(a, "raw"@) == set_value(b, "raw"@));
        assert(set_value(a, "networks"@) == set_value(b, "networks"@));
        assert(set_value(a, "dns"@) == set_value(b, "dns"@));
        assert(set_value(a, "env_file"@) == set_value(b, "env_file"@));
        assert(set_value(a, "privileged"@) == set_value(b, "privileged"@));
        assert(set_value(a, "devices"@) == set_value(b, "devices"@));
        assert(set_value(a, "with"@) == set_value(b, "with"@));
    }
}

proof fn lemma_only_networks(a: FieldsV, b: FieldsV)
    ensures
        alike_but(a, b, "networks"@) ==> lowered_service_fields(a) == (ServiceFieldsV {
            networks: lowered_service_fields(a).networks,
            ..lowered_service_fields(b)
        }),
{
    lemma_keywords_differ();
    if alike_but(a, b, "networks"@) {
        assert(set_value(a, "image"@) == set_value(b, "image"@));
        assert(set_value(a, "container_name"@) == set_value(b, "container_name"@));
        assert(set_value(a, "command"@) == set_value(b, "command"@));
        assert(set_value(a, "entrypoint"@) == set_value(b, "entrypoint"@));
        assert(set_value(a, "build"@) == set_value(b, "build"@));
        assert(set_value(a, "expose"@) == set_value(b, "expose"@));
        assert(set_value(a, "labels"@) == set_value(b, "labels"@));
        assert(set_value(a, "restart"@) == set_value(b, "restart"@));
        assert(set_value(a, "healthcheck"@) == set_value(b, "healthcheck"@));
        assert(set_value(a, "publish"@) == set_value(b, "publish"@));
        assert(set_value(a, "volume"@) == set_value(b, "volume"@));
        assert(set_value(a, "env"@) == set_value(b, "env"@));
        assert(set_value(a, "raw"@) == set_value(b, "raw"@));
        assert(set_value(a, "depends_on"@) == set_value(b, "depends_on"@));
        assert(set_value(a, "dns"@) == set_value(b, "dns"@));
        assert(set_value(a, "env_file"@) == set_value(b, "env_file"@));
        assert(set_value(a, "privileged"@) == set_value(b, "privileged"@));
        assert(set_value(a, "devices"@) == set_value(b, "devices"@));
        assert(set_value(a, "with"@) == set_value(b, "with"@));
    }
}

proof fn lemma_only_dns(a: FieldsV, b: FieldsV)
    ensures
        alike_but(a, b, "dns"@) ==> lowered_service_fields(a) == (ServiceFieldsV {
            dns: lowered_service_fields(a).dns,
            ..lowered_service_fields(b)
        }),
{
    lemma_keywords_differ();
    if alike_but(a, b, "dns"@) {
        assert(set_value(a, "image"@) == set_value(b, "image"@));
        assert(set_value(a, "container_name"@) == set_value(b, "container_name"@));
        assert(set_value(a, "command"@) == set_value(b, "command"@));
        assert(set_value(a, "entrypoint"@) == set_value(b, "entrypoint"@));
        assert(set_value(a, "build"@) == set_value(b, "build"@));
        assert(set_value(a, "expose"@) == set_value(b, "expose"@));
        assert(set_value(a, "labels"@) == set_value(b, "labels"@));
        assert(set_value(a, "restart"@) == set_value(b, "restart"@));
        assert(set_value(a, "healthcheck"@) == set_value(b, "healthcheck"@));
        assert(set_value(a, "publish"@) == set_value(b, "publish"@));
        assert(set_value(a, "volume"@) == set_value(b, "volume"@));
        assert(set_value(a, "env"@) == set_value(b, "env"@));
        assert(set_value(a, "raw"@) == set_value(b, "raw"@));
        assert(set_value(a, "depends_on"@) == set_value(b, "depends_on"@));
        assert(set_value(a, "networks"@) == set_value(b, "networks"@));
        assert(set_value(a, "env_file"@) == set_value(b, "env_file"@));
        assert(set_value(a, "privileged"@) == set_value(b, "privileged"@));
        assert(set_value(a, "devices"@) == set_value(b, "devices"@));
        assert(set_value(a, "with"@) == set_value(b, "with"@));
    }
}

proof fn lemma_only_env_file(a: FieldsV, b: FieldsV)
    ensures
        alike_but(a, b, "env_file"@) ==> lowered_service_fields(a) == (ServiceFieldsV {
            env_file: lowered_service_fields(a).env_file,
            ..lowered_service_fields(b)
        }),
{
    lemma_keywords_differ();
    if alike_but(a, b, "env_file"@) {
        assert(set_value(a, "image"@) == set_value(b, "image"@));
        assert(set_value(a, "container_name"@) == set_value(b, "container_name"@));
        assert(set_value(a, "command"@) == set_value(b, "command"@));
        assert(set_value(a, "entrypoint"@) == set_value(b, "entrypoint"@));
        assert(set_value(a, "build"@) == set_value(b, "build"@));
        assert(set_value(a, "expose"@) == set_value(b, "expose"@));
        assert(set_value(a, "labels"@) == set_value(b, "labels"@));
        assert(set_value(a, "restart"@) == set_value(b, "restart"@));
        assert(set_value(a, "healthcheck"@) == set_value(b, "healthcheck"@));
        assert(set_value(a, "publish"@) == set_value(b, "publish"@));
        assert(set_value(a, "volume"@) == set_value(b, "volume"@));
        assert(set_value(a, "env"@) == set_value(b, "env"@));
        assert(set_value(a, "raw"@) == set_value(b, "raw"@));
        assert(set_value(a, "depends_on"@) == set_value(b, "depends_on"@));
        assert(set_value(a, "networks"@) == set_value(b, "networks"@));
        assert(set_value(a, "dns"@) == set_value(b, "dns"@));
        assert(set_value(a, "privileged"@) == set_value(b, "privileged"@));
        assert(set_value(a, "devices"@) == set_value(b, "devices"@));
        assert(set_value(a, "with"@) == set_value(b, "with"@));
    }
}

proof fn lemma_only_privileged(a: FieldsV, b: FieldsV)
    ensures
        alike_but(a, b, "privileged"@) ==> lowered_service_fields(a) == (ServiceFieldsV {
            privileged: lowered_service_fields(a).privileged,
            ..lowered_service_fields(b)
        }),
{
    lemma_keywords_differ();
    if alike_but(a, b, "privileged"@) {
        assert(set_value(a, "image"@) == set_value(b, "image"@));
        assert(set_value(a, "container_name"@) == set_value(b, "container_name"@));
        assert(set_value(a, "command"@) == set_value(b, "command"@));
        assert(set_value(a, "entrypoint"@) == set_value(b, "entrypoint"@));
        assert(set_value(a, "build"@) == set_value(b, "build"@));
        assert(set_value(a, "expose"@) == set_value(b, "expose"@));
        assert(set_value(a, "labels"@) == set_value(b, "labels"@));
        assert(set_value(a, "restart"@) == set_value(b, "restart"@));
        assert(set_value(a, "healthcheck"@) == set_value(b, "healthcheck"@));
        assert(set_value(a, "publish"@) == set_value(b, "publish"@));
        assert(set_value(a, "volume"@) == set_value(b, "volume"@));
        assert(set_value(a, "env"@) == set_value(b, "env"@));
        assert(set_value(a, "raw"@) == set_value(b, "raw"@));
        assert(set_value(a, "depends_on"@) == set_value(b, "depends_on"@));
        assert(set_value(a, "networks"@) == set_value(b, "networks"@));
        assert(set_value(a, "dns"@) == set_value(b, "dns"@));
        assert(set_value(a, "env_file"@) == set_value(b, "env_file"@));
        assert(set_value(a, "devices"@) == set_value(b, "devices"@));
        assert(set_value(a, "with"@) == set_value(b, "with"@));
    }
}

proof fn lemma_only_devices(a: FieldsV, b: FieldsV)
    ensures
        alike_but(a, b, "devices"@) ==> lowered_service_fields(a) == (ServiceFieldsV {
            devices: lowered_service_fields(a).devices,
            ..lowered_service_fields(b)
        }),
{
    lemma_keywords_differ();
    if alike_but(a, b, "devices"@) {
        assert(set_value(a, "image"@) == set_value(b, "image"@));
        assert(set_value(a, "container_name"@) == set_value(b, "container_name"@));
        assert(set_value(a, "command"@) == set_value(b, "command"@));
        assert(set_value(a, "entrypoint"@) == set_value(b, "entrypoint"@));
        assert(set_value(a, "build"@) == set_value(b, "build"@));
        assert(set_value(a, "expose"@) == set_value(b, "expose"@));
        assert(set_value(a, "labels"@) == set_value(b, "labels"@));
        assert(set_value(a, "restart"@) == set_value(b, "restart"@));
        assert(set_value(a, "healthcheck"@) == set_value(b, "healthcheck"@));
        assert(set_value(a, "publish"@) == set_value(b, "publish"@));
        assert(set_value(a, "volume"@) == set_value(b, "volume"@));
        assert(set_value(a, "env"@) == set_value(b, "env"@));
        assert(set_value(a, "raw"@) == set_value(b, "raw"@));
        assert(set_value(a, "depends_on"@) == set_value(b, "depends_on"@));
        assert(set_value(a, "networks"@) == set_value(b, "networks"@));
        assert(set_value(a, "dns"@) == set_value(b, "dns"@));
        assert(set_value(a, "env_file"@) == set_value(b, "env_file"@));
        assert(set_value(a, "privileged"@) == set_value(b, "privileged"@));
        assert(set_value(a, "with"@) == set_value(b, "with"@));
    }
}

proof fn lemma_only_with(a: FieldsV, b: FieldsV)
    ensures
        alike_but(a, b, "with"@) ==> lowered_service_fields(a) == (ServiceFieldsV {
            with: lowered_service_fields(a).with,
            ..lowered_service_fields(b)
        }),
{
    lemma_keywords_differ();
    if alike_but(a, b, "with"@) {
        assert(set_value(a, "image"@) == set_value(b, "image"@));
        assert(set_value(a, "container_name"@) == set_value(b, "container_name"@));
        assert(set_value(a, "command"@) == set_value(b, "command"@));
        assert(set_value(a, "entrypoint"@) == set_value(b, "entrypoint"@));
        assert(set_value(a, "build"@) == set_value(b, "build"@));
        assert(set_value(a, "expose"@) == set_value(b, "expose"@));
        assert(set_value(a, "labels"@) == set_value(b, "labels"@));
        assert(set_value(a, "restart"@) == set_value(b, "restart"@));
        assert(set_value(a, "healthcheck"@) == set_value(b, "healthcheck"@));
        assert(set_value(a, "publish"@) == set_value(b, "publish"@));
        assert(set_value(a, "volume"@) == set_value(b, "volume"@));
        assert(set_value(a, "env"@) == set_value(b, "env"@));
        assert(set_value(a, "raw"@) == set_value(b, "raw"@));
        assert(set_value(a, "depends_on"@) == set_value(b, "depends_on"@));
        assert(set_value(a, "networks"@) == set_value(b, "networks"@));
        assert(set_value(a, "dns"@) == set_value(b, "dns"@));
        assert(set_value(a, "env_file"@) == set_value(b, "env_file"@));
        assert(set_value(a, "privileged"@) == set_value(b, "privileged"@));
        assert(set_value(a, "devices"@) == set_value(b, "devices"@));
    }
}

/// What stands under a keyword is what its field holds.
pub proof fn law_a_field_holds_what_its_keyword_set(
    fields: FieldsV,
    lit: LiteralV,
    lits: Seq<LiteralV>,
    span: Span,
    command: ShellOrExecV,
    entries: Seq<EnvEntryV>,
    labels: Seq<LabelEntryV>,
    mounts: Seq<ArrowMapEntryV>,
    raw: Seq<RawEntryV>,
    dependencies: Seq<DependsOnEntryV>,
)
    ensures
        ({
            let service = lowered_service_fields(fields);
            &&& set_value(fields, "container_name"@) == Some(FieldValueV::Scalar(lit))
                ==> service.container_name == Some(lit)
            &&& set_value(fields, "command"@) == Some(FieldValueV::ScalarOrList(command))
                ==> service.command == Some(command)
            &&& set_value(fields, "entrypoint"@) == Some(FieldValueV::ScalarOrList(command))
                ==> service.entrypoint == Some(command)
            &&& set_value(fields, "privileged"@) == Some(FieldValueV::Flag(span))
                ==> service.privileged == Some(span)
            &&& set_value(fields, "networks"@) == Some(FieldValueV::References(lits))
                ==> service.networks == lits
            &&& set_value(fields, "dns"@) == Some(FieldValueV::References(lits)) ==> service.dns
                == lits
            &&& set_value(fields, "env_file"@) == Some(FieldValueV::References(lits))
                ==> service.env_file == lits
            &&& set_value(fields, "depends_on"@) == Some(FieldValueV::Dependencies(dependencies))
                ==> service.depends_on == dependencies
            &&& set_value(fields, "env"@) == Some(FieldValueV::LiteralMap(entries))
                ==> service.env.entries == entries
            &&& set_value(fields, "labels"@) == Some(FieldValueV::LabelMap(labels))
                ==> service.labels.entries == labels
            &&& set_value(fields, "volume"@) == Some(FieldValueV::MountMap(mounts))
                ==> service.volumes.entries == mounts
            &&& set_value(fields, "raw"@) == Some(FieldValueV::Raw(raw)) ==> service.raw.entries
                == raw
            &&& set_value(fields, "publish"@) == Some(FieldValueV::LiteralMap(entries))
                ==> leads_from(service.publish.entries, entries)
            &&& set_value(fields, "devices"@) == Some(FieldValueV::LiteralMap(entries))
                ==> leads_from(service.devices.entries, entries)
        }),
        nothing_set(lowered_service_fields(Seq::empty())),
{
}

/// Whether mounts lead from the key of each entry to its value, writable
/// and in its place.
pub open spec fn leads_from(mounts: Seq<ArrowMapEntryV>, entries: Seq<EnvEntryV>) -> bool {
    &&& mounts.len() == entries.len()
    &&& forall|i: int|
        0 <= i < mounts.len() ==> {
            &&& (#[trigger] mounts[i]).host == ArrowMapHostV::BindMount(entries[i].key)
            &&& mounts[i].container == entries[i].value
            &&& !mounts[i].read_only
            &&& mounts[i].span == entries[i].span
        }
}

/// What stands in the braces of a nested field is what its parts hold,
/// each by its own name.
pub proof fn law_a_part_holds_what_its_keyword_set(
    fields: FieldsV,
    inner: FieldsV,
    span: Span,
    other: Span,
    lit: LiteralV,
    command: ShellOrExecV,
    items: Seq<TemplateInvocationV>,
)
    ensures
        ({
            let service = lowered_service_fields(fields);
            &&& set_value(fields, "image"@) == Some(
                FieldValueV::Struct(inner, span),
            ) ==> (service.image matches Some(x) && x.span == span
                && (set_value(inner, "ref"@) == Some(FieldValueV::Scalar(lit)) ==> x.reference == Some(lit))
                && (set_value(inner, "ref"@) is None ==> x.reference is None))
            &&& set_value(fields, "build"@) == Some(
                FieldValueV::Struct(inner, span),
            ) ==> (service.build matches Some(x) && x.span == span
                && (set_value(inner, "context"@) == Some(FieldValueV::Scalar(lit)) ==> x.context == Some(lit))
                && (set_value(inner, "context"@) is None ==> x.context is None)
                && (set_value(inner, "dockerfile"@) == Some(FieldValueV::Scalar(lit)) ==> x.dockerfile == Some(lit))
                && (set_value(inner, "dockerfile"@) is None ==> x.dockerfile is None))
            &&& set_value(fields, "expose"@) == Some(
                FieldValueV::Struct(inner, span),
            ) ==> (service.expose matches Some(x) && x.span == span
                && (set_value(inner, "port"@) == Some(FieldValueV::Scalar(lit)) ==> x.port == Some(lit))
                && (set_value(inner, "port"@) is None ==> x.port is None))
            &&& set_value(fields, "restart"@) == Some(
                FieldValueV::Struct(inner, span),
            ) ==> (service.restart matches Some(x) && x.span == span
                && (set_value(inner, "policy"@) == Some(FieldValueV::Scalar(lit)) ==> x.policy == Some(lit))
                && (set_value(inner, "policy"@) is None ==> x.policy is None))
            &&& set_value(fields, "healthcheck"@) == Some(
                FieldValueV::Struct(inner, span),
            ) ==> (service.healthcheck matches Some(x) && x.span == span
                && (set_value(inner, "interval"@) == Some(FieldValueV::Scalar(lit)) ==> x.interval == Some(lit))
                && (set_value(inner, "interval"@) is None ==> x.interval is None)
                && (set_value(inner, "timeout"@) == Some(FieldValueV::Scalar(lit)) ==> x.timeout == Some(lit))
                && (set_value(inner, "timeout"@) is None ==> x.timeout is None)
                && (set_value(inner, "retries"@) == Some(FieldValueV::Scalar(lit)) ==> x.retries == Some(lit))
                && (set_value(inner, "retries"@) is None ==> x.retries is None)
                && (set_value(inner, "start_period"@) == Some(FieldValueV::Scalar(lit)) ==> x.start_period == Some(lit))
                && (set_value(inner, "start_period"@) is None ==> x.start_period is None)
                && (set_value(inner, "start_interval"@) == Some(FieldValueV::Scalar(lit)) ==> x.start_interval == Some(lit))
                && (set_value(inner, "start_interval"@) is None ==> x.start_interval is None)
                && (set_value(inner, "test"@) == Some(FieldValueV::ScalarOrList(command)) ==> x.test == Some(command))
                && (set_value(inner, "test"@) is None ==> x.test is None)
                && (set_value(inner, "disable"@) == Some(FieldValueV::Flag(other)) ==> x.disable == Some(other))
                && (set_value(inner, "disable"@) is None ==> x.disable is None))
            &&& set_value(fields, "with"@) == Some(FieldValueV::Struct(inner, span)) && set_value(
                inner,
                "templates"@,
            ) == Some(FieldValueV::Invocations(items)) ==> service.with == items
        }),
{
}

/// The parts of a network and of a volume, each by its own name.
pub proof fn law_declarations_hold_what_their_keywords_set(
    name: IdentV,
    fields: FieldsV,
    span: Span,
    other: Span,
    lit: LiteralV,
    entries: Seq<EnvEntryV>,
)
    ensures
        ({
            let n = lowered_network(name, fields, span);
            let v = lowered_volume(name, fields, span);
            &&& n.name == name && v.name == name && n.span == span && v.span == span
            &&& set_value(fields, "name"@) == Some(FieldValueV::Scalar(lit)) ==> n.real_name
                == Some(lit) && v.real_name == Some(lit)
            &&& set_value(fields, "name"@) is None ==> n.real_name is None && v.real_name is None
            &&& set_value(fields, "external"@) == Some(FieldValueV::Flag(other)) ==> n.external
                == Some(other) && v.external == Some(other)
            &&& set_value(fields, "external"@) is None ==> n.external is None && v.external is None
            &&& set_value(fields, "driver"@) == Some(FieldValueV::Scalar(lit)) ==> v.driver == Some(
                lit,
            )
            &&& set_value(fields, "driver"@) is None ==> v.driver is None
            &&& set_value(fields, "driver_opts"@) == Some(FieldValueV::LiteralMap(entries)) ==> {
                &&& v.driver_opts.len() == entries.len()
                &&& forall|i: int|
                    0 <= i < entries.len() ==> {
                        &&& (#[trigger] v.driver_opts[i]).key == entries[i].key
                        &&& v.driver_opts[i].value == entries[i].value
                        &&& v.driver_opts[i].span == entries[i].span
                    }
            }
            &&& set_value(fields, "driver_opts"@) is None ==> v.driver_opts.len() == 0
        }),
{
}

proof fn lemma_found_by_name(fields: Seq<FieldSchemaV>, key: Seq<char>, i: int)
    ensures
        field_from(fields, key, i) matches Some(field) ==> field.name == key,
    decreases fields.len() - i,
{
    if i < fields.len() {
        lemma_found_by_name(fields, key, i + 1);
    }
}

proof fn lemma_set_at(fields: FieldsV, name: Seq<char>, i: int)
    requires
        0 <= i <= fields.len(),
    ensures
        i <= set_index(fields, name, i) <= fields.len(),
        set_index(fields, name, i) < fields.len() ==> fields[set_index(fields, name, i)].0 == name,
        forall|k: int| i <= k < set_index(fields, name, i) ==> (#[trigger] fields[k]).0 != name,
    decreases fields.len() - i,
{
    if i < fields.len() && fields[i].0 != name {
        lemma_set_at(fields, name, i + 1);
    }
}

proof fn lemma_set_at_is(fields: FieldsV, name: Seq<char>, i: int, at: int)
    requires
        0 <= i <= at <= fields.len(),
        at < fields.len() ==> fields[at].0 == name,
        forall|k: int| i <= k < at ==> (#[trigger] fields[k]).0 != name,
    ensures
        set_index(fields, name, i) == at,
    decreases at - i,
{
    if i < at {
        lemma_set_at_is(fields, name, i + 1, at);
    }
}

/// Setting a key sets that key and leaves every other as it was.
pub proof fn law_setting_a_key_leaves_the_others(
    fields: FieldsV,
    key: Seq<char>,
    value: FieldValueV,
)
    ensures
        set_value(with_value(fields, key, value), key) == Some(value),
        alike_but(with_value(fields, key, value), fields, key),
        set_value(fields, key) is None ==> with_value(fields, key, value) == fields.push(
            (key, value),
        ),
{
    let after = with_value(fields, key, value);
    let at = set_index(fields, key, 0);
    lemma_set_at(fields, key, 0);
    lemma_set_at_is(after, key, 0, at);
    assert forall|name: Seq<char>| name != key implies #[trigger] set_value(after, name)
        == set_value(fields, name) by {
        lemma_set_at(fields, name, 0);
        let there = set_index(fields, name, 0);
        if there < fields.len() {
            lemma_set_at_is(after, name, 0, there);
        } else {
            lemma_set_at_is(after, name, 0, after.len() as int);
        }
    }
}

proof fn lemma_single_sets(
    schema: TypeSchemaV,
    fields: FieldsV,
    name: Seq<char>,
    value: FieldValueV,
    end: int,
)
    ensures
        single_at(schema, fields, name, value, end) matches Ok((after, _)) ==> alike_but(
            after,
            fields,
            name,
        ) && (set_value(fields, name) is None ==> set_value(after, name) == Some(value)),
        set_value(fields, name) is None ==> single_at(schema, fields, name, value, end) is Ok,
{
    law_setting_a_key_leaves_the_others(fields, name, value);
}

/// A statement sets what its own key names, and leaves whatever else the
/// body set as it was, in a body of any type.
pub proof fn law_a_statement_sets_its_own_key_only(
    ts: Seq<TokenV>,
    p: int,
    params: Option<Seq<ParamV>>,
    schema: TypeSchemaV,
    fields: FieldsV,
)
    ensures
        read_statement(ts, p, params, schema, fields) matches Ok((after, _)) ==> (read_key(
            ts,
            p,
        ) matches Ok((key, _)) && alike_but(after, fields, key.text())),
{
    if let Ok((key, next)) = read_key(ts, p) {
        lemma_found_by_name(schema.fields, key.text(), 0);
        if let FieldResolutionV::Field(field) = resolution(schema, key.text()) {
            assert(field.name == key.text());
            match field.kind {
                FieldKind::Scalar => {
                    if let Ok((lit, end)) = read_field_value(ts, next, params) {
                        lemma_single_sets(
                            schema,
                            fields,
                            field.name,
                            FieldValueV::Scalar(lit),
                            end,
                        );
                    }
                },
                FieldKind::BoolFlag => {
                    lemma_single_sets(
                        schema,
                        fields,
                        field.name,
                        FieldValueV::Flag(key.span()),
                        next,
                    );
                },
                FieldKind::ScalarOrList => {
                    if let Ok((value, end)) = read_scalar_or_list(ts, next, params) {
                        lemma_single_sets(
                            schema,
                            fields,
                            field.name,
                            FieldValueV::ScalarOrList(value),
                            end,
                        );
                    }
                },
                FieldKind::Nested(nested) => {
                    lemma_nested_sets(
                        ts,
                        next,
                        params,
                        schema,
                        field.name,
                        schema_of(nested),
                        fields,
                    );
                },
                kind => {
                    lemma_list_sets(ts, next, params, field.name, kind, fields);
                },
            }
        }
    }
}

proof fn lemma_nested_sets(
    ts: Seq<TokenV>,
    p: int,
    params: Option<Seq<ParamV>>,
    schema: TypeSchemaV,
    name: Seq<char>,
    nested: TypeSchemaV,
    fields: FieldsV,
)
    ensures
        read_nested(ts, p, params, schema, name, nested, fields) matches Ok((after, _))
            ==> alike_but(after, fields, name),
{
    let start = past_colon(ts, p);
    if nested.kind == SchemaKind::Mapping {
        lemma_map_sets(ts, start, params, name, nested, fields);
    } else if start < ts.len() {
        let body = if ts[start].kind == TokenKind::LBrace {
            read_struct_body(ts, start, params, nested)
        } else {
            read_shorthand(ts, start, params, nested)
        };
        if let Ok(((inner, span), end)) = body {
            lemma_single_sets(schema, fields, name, FieldValueV::Struct(inner, span), end);
        }
    }
}

proof fn lemma_list_sets(
    ts: Seq<TokenV>,
    p: int,
    params: Option<Seq<ParamV>>,
    name: Seq<char>,
    kind: FieldKind,
    fields: FieldsV,
)
    ensures
        read_list_field(ts, p, params, name, kind, fields) matches Ok((after, _)) ==> alike_but(
            after,
            fields,
            name,
        ),
{
    match kind {
        FieldKind::TemplateInvocationList => {
            if let Ok((more, _)) = read_list::<Invocations>(ts, p, params) {
                law_setting_a_key_leaves_the_others(
                    fields,
                    name,
                    FieldValueV::Invocations(held_invocations(fields, name) + more),
                );
            }
        },
        FieldKind::DependsOnList => {
            if let Ok((more, _)) = read_list::<Dependencies>(ts, p, params) {
                law_setting_a_key_leaves_the_others(
                    fields,
                    name,
                    FieldValueV::Dependencies(held_dependencies(fields, name) + more),
                );
            }
        },
        _ => {
            if let Ok((more, _)) = read_list::<References>(ts, p, params) {
                law_setting_a_key_leaves_the_others(
                    fields,
                    name,
                    FieldValueV::References(held_references(fields, name) + more),
                );
            }
        },
    }
}

proof fn lemma_entries_join(
    held: Seq<EnvEntryV>,
    more: Seq<EnvEntryV>,
    i: int,
    schema: TypeSchemaV,
)
    requires
        0 <= i <= more.len(),
    ensures
        with_entries(held, more, i, schema) matches Ok(all) ==> all == held + more.skip(i),
    decreases more.len() - i,
{
    if i < more.len() {
        lemma_entries_join(held.push(more[i]), more, i + 1, schema);
        assert(held.push(more[i]) + more.skip(i + 1) =~= held + more.skip(i));
    } else {
        assert(held + more.skip(i) =~= held);
    }
}

proof fn lemma_mounts_join(
    held: Seq<ArrowMapEntryV>,
    more: Seq<ArrowMapEntryV>,
    i: int,
    schema: TypeSchemaV,
)
    requires
        0 <= i <= more.len(),
    ensures
        with_mounts(held, more, i, schema) matches Ok(all) ==> all == held + more.skip(i),
    decreases more.len() - i,
{
    if i < more.len() {
        lemma_mounts_join(held.push(more[i]), more, i + 1, schema);
        assert(held.push(more[i]) + more.skip(i + 1) =~= held + more.skip(i));
    } else {
        assert(held + more.skip(i) =~= held);
    }
}

proof fn lemma_labels_join(
    held: Seq<LabelEntryV>,
    more: Seq<LabelEntryV>,
    i: int,
    schema: TypeSchemaV,
)
    requires
        0 <= i <= more.len(),
    ensures
        with_labels(held, more, i, schema) matches Ok(all) ==> all == held + more.skip(i),
    decreases more.len() - i,
{
    if i < more.len() {
        lemma_labels_join(held.push(more[i]), more, i + 1, schema);
        assert(held.push(more[i]) + more.skip(i + 1) =~= held + more.skip(i));
    } else {
        assert(held + more.skip(i) =~= held);
    }
}

proof fn lemma_raw_join(held: Seq<RawEntryV>, more: Seq<RawEntryV>, i: int)
    requires
        0 <= i <= more.len(),
    ensures
        with_raw_entries(held, more, i) matches Ok(all) ==> all == held + more.skip(i),
    decreases more.len() - i,
{
    if i < more.len() {
        lemma_raw_join(held.push(more[i]), more, i + 1);
        assert(held.push(more[i]) + more.skip(i + 1) =~= held + more.skip(i));
    } else {
        assert(held + more.skip(i) =~= held);
    }
}

proof fn lemma_map_sets(
    ts: Seq<TokenV>,
    p: int,
    params: Option<Seq<ParamV>>,
    name: Seq<char>,
    nested: TypeSchemaV,
    fields: FieldsV,
)
    ensures
        read_map_field(ts, p, params, name, nested, fields) matches Ok((after, end)) ==> alike_but(
            after,
            fields,
            name,
        ) && (if nested.schema_free {
            read_map::<RawEntries>(ts, p, params, nested) matches Ok((more, at)) && at == end
                && set_value(after, name) == Some(
                FieldValueV::Raw(held_raw(fields, name) + more),
            )
        } else if nested.key_may_be_reference {
            read_map::<MountEntries>(ts, p, params, nested) matches Ok((more, at)) && at == end
                && set_value(after, name) == Some(
                FieldValueV::MountMap(held_mounts(fields, name) + more),
            )
        } else if nested.built_in == BuiltIn::Labels {
            read_map::<LabelEntries>(ts, p, params, nested) matches Ok((more, at)) && at == end
                && set_value(after, name) == Some(
                FieldValueV::LabelMap(held_labels(fields, name) + more),
            )
        } else {
            read_map::<LiteralEntries>(ts, p, params, nested) matches Ok((more, at)) && at == end
                && set_value(after, name) == Some(
                FieldValueV::LiteralMap(held_entries(fields, name) + more),
            )
        }),
{
    if nested.schema_free {
        if let Ok((more, _)) = read_map::<RawEntries>(ts, p, params, nested) {
            lemma_raw_join(held_raw(fields, name), more, 0);
            assert(more.skip(0) =~= more);
            law_setting_a_key_leaves_the_others(
                fields,
                name,
                FieldValueV::Raw(held_raw(fields, name) + more),
            );
        }
    } else if nested.key_may_be_reference {
        if let Ok((more, _)) = read_map::<MountEntries>(ts, p, params, nested) {
            lemma_mounts_join(held_mounts(fields, name), more, 0, nested);
            assert(more.skip(0) =~= more);
            law_setting_a_key_leaves_the_others(
                fields,
                name,
                FieldValueV::MountMap(held_mounts(fields, name) + more),
            );
        }
    } else if nested.built_in == BuiltIn::Labels {
        if let Ok((more, _)) = read_map::<LabelEntries>(ts, p, params, nested) {
            lemma_labels_join(held_labels(fields, name), more, 0, nested);
            assert(more.skip(0) =~= more);
            law_setting_a_key_leaves_the_others(
                fields,
                name,
                FieldValueV::LabelMap(held_labels(fields, name) + more),
            );
        }
    } else {
        if let Ok((more, _)) = read_map::<LiteralEntries>(ts, p, params, nested) {
            lemma_entries_join(held_entries(fields, name), more, 0, nested);
            assert(more.skip(0) =~= more);
            law_setting_a_key_leaves_the_others(
                fields,
                name,
                FieldValueV::LiteralMap(held_entries(fields, name) + more),
            );
        }
    }
}

proof fn lemma_probe_keywords_differ()
    ensures
        "test"@ != "interval"@,
        "test"@ != "timeout"@,
        "test"@ != "retries"@,
        "test"@ != "start_period"@,
        "test"@ != "start_interval"@,
        "test"@ != "disable"@,
        "interval"@ != "timeout"@,
        "interval"@ != "retries"@,
        "interval"@ != "start_period"@,
        "interval"@ != "start_interval"@,
        "interval"@ != "disable"@,
        "timeout"@ != "retries"@,
        "timeout"@ != "start_period"@,
        "timeout"@ != "start_interval"@,
        "timeout"@ != "disable"@,
        "retries"@ != "start_period"@,
        "retries"@ != "start_interval"@,
        "retries"@ != "disable"@,
        "start_period"@ != "start_interval"@,
        "start_period"@ != "disable"@,
        "start_interval"@ != "disable"@,
{
    reveal_strlit("test");
    reveal_strlit("interval");
    reveal_strlit("timeout");
    reveal_strlit("retries");
    reveal_strlit("start_period");
    reveal_strlit("start_interval");
    reveal_strlit("disable");
    assert("test"@.len() == 4);
    assert("interval"@.len() == 8);
    assert("timeout"@.len() == 7);
    assert("retries"@.len() == 7);
    assert("start_period"@.len() == 12);
    assert("start_interval"@.len() == 14);
    assert("disable"@.len() == 7);
    assert("timeout"@[0] == 't' && "retries"@[0] == 'r');
    assert("timeout"@[0] == 't' && "disable"@[0] == 'd');
    assert("retries"@[0] == 'r' && "disable"@[0] == 'd');
}

proof fn lemma_volume_keywords_differ()
    ensures
        "external"@ != "name"@,
        "external"@ != "driver"@,
        "external"@ != "driver_opts"@,
        "name"@ != "driver"@,
        "name"@ != "driver_opts"@,
        "driver"@ != "driver_opts"@,
{
    reveal_strlit("external");
    reveal_strlit("name");
    reveal_strlit("driver");
    reveal_strlit("driver_opts");
    assert("external"@.len() == 8);
    assert("name"@.len() == 4);
    assert("driver"@.len() == 6);
    assert("driver_opts"@.len() == 11);
}

proof fn lemma_build_keywords_differ()
    ensures
        "context"@ != "dockerfile"@,
{
    reveal_strlit("context");
    reveal_strlit("dockerfile");
    assert("context"@.len() == 7);
    assert("dockerfile"@.len() == 10);
}

/// What each keyword of a service, and of a template, takes.
pub proof fn law_service_keywords(built_in: BuiltIn)
    requires
        built_in == BuiltIn::Service || built_in == BuiltIn::Template,
    ensures
        takes(built_in, "image"@, FieldKind::Nested(BuiltIn::Image)),
        takes(built_in, "container_name"@, FieldKind::Scalar),
        takes(built_in, "command"@, FieldKind::ScalarOrList),
        takes(built_in, "entrypoint"@, FieldKind::ScalarOrList),
        takes(built_in, "build"@, FieldKind::Nested(BuiltIn::Build)),
        takes(built_in, "expose"@, FieldKind::Nested(BuiltIn::Expose)),
        takes(built_in, "labels"@, FieldKind::Nested(BuiltIn::Labels)),
        takes(built_in, "restart"@, FieldKind::Nested(BuiltIn::Restart)),
        takes(built_in, "healthcheck"@, FieldKind::Nested(BuiltIn::Healthcheck)),
        takes(built_in, "publish"@, FieldKind::Nested(BuiltIn::Publish)),
        takes(built_in, "volume"@, FieldKind::Nested(BuiltIn::Volume)),
        takes(built_in, "env"@, FieldKind::Nested(BuiltIn::Env)),
        takes(built_in, "raw"@, FieldKind::Nested(BuiltIn::Raw)),
        takes(built_in, "depends_on"@, FieldKind::DependsOnList),
        takes(built_in, "networks"@, FieldKind::ReferenceList),
        takes(built_in, "dns"@, FieldKind::ReferenceList),
        takes(built_in, "env_file"@, FieldKind::ReferenceList),
        takes(built_in, "privileged"@, FieldKind::BoolFlag),
        takes(built_in, "devices"@, FieldKind::Nested(BuiltIn::Devices)),
        takes(built_in, "with"@, FieldKind::Nested(BuiltIn::With)),
{
    reveal_with_fuel(field_from, 21);
    lemma_keywords_differ();
    assert(schema_of(built_in).fields == service_fields());
}

/// Whether a keyword of a built-in type takes values of a kind, under its
/// own name.
pub open spec fn takes(built_in: BuiltIn, key: Seq<char>, kind: FieldKind) -> bool {
    resolution(schema_of(built_in), key) == FieldResolutionV::Field(
        FieldSchemaV { name: key, kind },
    )
}

/// What each keyword of the other types with braces takes.
pub proof fn law_other_keywords()
    ensures
        takes(BuiltIn::Image, "ref"@, FieldKind::Scalar),
        takes(BuiltIn::Build, "context"@, FieldKind::Scalar),
        takes(BuiltIn::Build, "dockerfile"@, FieldKind::Scalar),
        takes(BuiltIn::Expose, "port"@, FieldKind::Scalar),
        takes(BuiltIn::Restart, "policy"@, FieldKind::Scalar),
        takes(BuiltIn::Healthcheck, "test"@, FieldKind::ScalarOrList),
        takes(BuiltIn::Healthcheck, "interval"@, FieldKind::Scalar),
        takes(BuiltIn::Healthcheck, "timeout"@, FieldKind::Scalar),
        takes(BuiltIn::Healthcheck, "retries"@, FieldKind::Scalar),
        takes(BuiltIn::Healthcheck, "start_period"@, FieldKind::Scalar),
        takes(BuiltIn::Healthcheck, "start_interval"@, FieldKind::Scalar),
        takes(BuiltIn::Healthcheck, "disable"@, FieldKind::BoolFlag),
        takes(BuiltIn::Network, "external"@, FieldKind::BoolFlag),
        takes(BuiltIn::Network, "name"@, FieldKind::Scalar),
        takes(BuiltIn::VolumeDecl, "external"@, FieldKind::BoolFlag),
        takes(BuiltIn::VolumeDecl, "name"@, FieldKind::Scalar),
        takes(BuiltIn::VolumeDecl, "driver"@, FieldKind::Scalar),
        takes(BuiltIn::VolumeDecl, "driver_opts"@, FieldKind::Nested(BuiltIn::DriverOpts)),
        takes(BuiltIn::With, "templates"@, FieldKind::TemplateInvocationList),
{
    reveal_with_fuel(field_from, 9);
    lemma_probe_keywords_differ();
    lemma_volume_keywords_differ();
    lemma_build_keywords_differ();
}

/// The shape of each built-in type: which are maps, what stands between
/// the sides of their entries, which side is unique, and what a bare value
/// stands for.
pub proof fn law_shapes_of_types(built_in: BuiltIn)
    ensures
        ({
            let schema = schema_of(built_in);
            &&& schema.built_in == built_in
            &&& schema.kind == SchemaKind::Mapping <==> (built_in == BuiltIn::Volume || built_in
                == BuiltIn::Publish || built_in == BuiltIn::Devices || built_in == BuiltIn::Env
                || built_in == BuiltIn::Labels || built_in == BuiltIn::Raw || built_in
                == BuiltIn::DriverOpts)
            &&& schema.map_separator == (if built_in == BuiltIn::Volume || built_in
                == BuiltIn::Publish || built_in == BuiltIn::Devices {
                Some(TokenKind::Arrow)
            } else if built_in == BuiltIn::Env {
                Some(TokenKind::Equals)
            } else if schema.kind == SchemaKind::Mapping {
                Some(TokenKind::Colon)
            } else {
                None
            })
            &&& schema.uniqueness == (if built_in == BuiltIn::Volume || built_in
                == BuiltIn::Publish || built_in == BuiltIn::Devices {
                Some(MapSide::Value)
            } else if schema.kind == SchemaKind::Mapping {
                Some(MapSide::Key)
            } else {
                None
            })
            &&& schema.primary_field == (if built_in == BuiltIn::Image {
                Some("ref"@)
            } else if built_in == BuiltIn::Build {
                Some("context"@)
            } else if built_in == BuiltIn::Expose {
                Some("port"@)
            } else if built_in == BuiltIn::Restart {
                Some("policy"@)
            } else if built_in == BuiltIn::With {
                Some("templates"@)
            } else {
                None
            })
            &&& schema.key_may_be_reference <==> built_in == BuiltIn::Volume
            &&& schema.schema_free <==> built_in == BuiltIn::Raw
            &&& schema.needs_name <==> (built_in == BuiltIn::Network || built_in
                == BuiltIn::VolumeDecl || built_in == BuiltIn::Service || built_in
                == BuiltIn::Template)
        }),
        top_level_built_in("network"@) == Some(BuiltIn::Network),
        top_level_built_in("volume"@) == Some(BuiltIn::VolumeDecl),
        top_level_built_in("service"@) == Some(BuiltIn::Service),
        forall|name: Seq<char>|
            name != "network"@ && name != "volume"@ && name != "service"@
                ==> #[trigger] top_level_built_in(name) is None,
{
    reveal_strlit("network");
    reveal_strlit("volume");
    reveal_strlit("service");
    assert("network"@.len() == 7 && "volume"@.len() == 6 && "service"@.len() == 7);
    assert("network"@[0] == 'n' && "service"@[0] == 's');
}

/// A service after one more statement of a list of references: the list
/// of the statement's own keyword is longer by the references read, and
/// nothing else is different.
pub proof fn law_reference_lists_grow_under_their_keyword(
    ts: Seq<TokenV>,
    p: int,
    params: Option<Seq<ParamV>>,
    built_in: BuiltIn,
    fields: FieldsV,
    key: LiteralV,
    next: int,
    xs: Seq<LiteralV>,
    end: int,
)
    requires
        built_in == BuiltIn::Service || built_in == BuiltIn::Template,
        read_key(ts, p) == Ok::<(LiteralV, int), ParseErrorV>((key, next)),
        read_list::<References>(ts, next, params) == Ok::<(Seq<LiteralV>, int), ParseErrorV>(
            (xs, end),
        ),
    ensures
        key.text() == "networks"@ || key.text() == "dns"@ || key.text() == "env_file"@ ==> (
        read_statement(ts, p, params, schema_of(built_in), fields) matches Ok((after, at)) && at
            == end && ({
            let before = lowered_service_fields(fields);
            let service = lowered_service_fields(after);
            &&& key.text() == "networks"@ ==> service == (ServiceFieldsV {
                networks: before.networks + xs,
                ..before
            })
            &&& key.text() == "dns"@ ==> service == (ServiceFieldsV {
                dns: before.dns + xs,
                ..before
            })
            &&& key.text() == "env_file"@ ==> service == (ServiceFieldsV {
                env_file: before.env_file + xs,
                ..before
            })
        })),
{
    let name = key.text();
    if name == "networks"@ || name == "dns"@ || name == "env_file"@ {
        law_service_keywords(built_in);
        assert(takes(built_in, name, FieldKind::ReferenceList));
        let value = FieldValueV::References(held_references(fields, name) + xs);
        law_setting_a_key_leaves_the_others(fields, name, value);
        law_a_keyword_reaches_its_own_field_only(with_value(fields, name, value), fields);
    }
}

/// A service after one more `env` statement: the entries read stand behind
/// those that were there, and nothing else is different.
pub proof fn law_env_statements_add_their_entries(
    ts: Seq<TokenV>,
    p: int,
    params: Option<Seq<ParamV>>,
    built_in: BuiltIn,
    fields: FieldsV,
    key: LiteralV,
    next: int,
)
    requires
        built_in == BuiltIn::Service || built_in == BuiltIn::Template,
        read_key(ts, p) == Ok::<(LiteralV, int), ParseErrorV>((key, next)),
        key.text() == "env"@,
    ensures
        read_statement(ts, p, params, schema_of(built_in), fields) matches Ok((after, end)) ==> (
        read_map::<LiteralEntries>(
            ts,
            past_colon(ts, next),
            params,
            schema_of(BuiltIn::Env),
        ) matches Ok(
            (more, at),
        ) && at == end && lowered_service_fields(after) == (ServiceFieldsV {
            env: EnvMapV { entries: lowered_service_fields(fields).env.entries + more },
            ..lowered_service_fields(fields)
        })),
{
    law_service_keywords(built_in);
    assert(takes(built_in, "env"@, FieldKind::Nested(BuiltIn::Env)));
    let nested = schema_of(BuiltIn::Env);
    if let Ok((after, end)) = read_statement(ts, p, params, schema_of(built_in), fields) {
        lemma_map_sets(ts, past_colon(ts, next), params, "env"@, nested, fields);
        law_a_keyword_reaches_its_own_field_only(after, fields);
    }
}

/// A service after one more `labels` statement: the entries read stand behind
/// those that were there, and nothing else is different.
pub proof fn law_labels_statements_add_their_entries(
    ts: Seq<TokenV>,
    p: int,
    params: Option<Seq<ParamV>>,
    built_in: BuiltIn,
    fields: FieldsV,
    key: LiteralV,
    next: int,
)
    requires
        built_in == BuiltIn::Service || built_in == BuiltIn::Template,
        read_key(ts, p) == Ok::<(LiteralV, int), ParseErrorV>((key, next)),
        key.text() == "labels"@,
    ensures
        read_statement(ts, p, params, schema_of(built_in), fields) matches Ok((after, end)) ==> (
        read_map::<LabelEntries>(
            ts,
            past_colon(ts, next),
            params,
            schema_of(BuiltIn::Labels),
        ) matches Ok(
            (more, at),
        ) && at == end && lowered_service_fields(after) == (ServiceFieldsV {
            labels: LabelMapV { entries: lowered_service_fields(fields).labels.entries + more },
            ..lowered_service_fields(fields)
        })),
{
    law_service_keywords(built_in);
    assert(takes(built_in, "labels"@, FieldKind::Nested(BuiltIn::Labels)));
    let nested = schema_of(BuiltIn::Labels);
    if let Ok((after, end)) = read_statement(ts, p, params, schema_of(built_in), fields) {
        lemma_map_sets(ts, past_colon(ts, next), params, "labels"@, nested, fields);
        law_a_keyword_reaches_its_own_field_only(after, fields);
    }
}

/// A service after one more `raw` statement: the entries read stand behind
/// those that were there, and nothing else is different.
pub proof fn law_raw_statements_add_their_entries(
    ts: Seq<TokenV>,
    p: int,
    params: Option<Seq<ParamV>>,
    built_in: BuiltIn,
    fields: FieldsV,
    key: LiteralV,
    next: int,
)
    requires
        built_in == BuiltIn::Service || built_in == BuiltIn::Template,
        read_key(ts, p) == Ok::<(LiteralV, int), ParseErrorV>((key, next)),
        key.text() == "raw"@,
    ensures
        read_statement(ts, p, params, schema_of(built_in), fields) matches Ok((after, end)) ==> (
        read_map::<RawEntries>(
            ts,
            past_colon(ts, next),
            params,
            schema_of(BuiltIn::Raw),
        ) matches Ok(
            (more, at),
        ) && at == end && lowered_service_fields(after) == (ServiceFieldsV {
            raw: RawMapV { entries: lowered_service_fields(fields).raw.entries + more },
            ..lowered_service_fields(fields)
        })),
{
    law_service_keywords(built_in);
    assert(takes(built_in, "raw"@, FieldKind::Nested(BuiltIn::Raw)));
    let nested = schema_of(BuiltIn::Raw);
    if let Ok((after, end)) = read_statement(ts, p, params, schema_of(built_in), fields) {
        lemma_map_sets(ts, past_colon(ts, next), params, "raw"@, nested, fields);
        law_a_keyword_reaches_its_own_field_only(after, fields);
    }
}

/// A service after one more `volume` statement: the entries read stand behind
/// those that were there, and nothing else is different.
pub proof fn law_volume_statements_add_their_entries(
    ts: Seq<TokenV>,
    p: int,
    params: Option<Seq<ParamV>>,
    built_in: BuiltIn,
    fields: FieldsV,
    key: LiteralV,
    next: int,
)
    requires
        built_in == BuiltIn::Service || built_in == BuiltIn::Template,
        read_key(ts, p) == Ok::<(LiteralV, int), ParseErrorV>((key, next)),
        key.text() == "volume"@,
    ensures
        read_statement(ts, p, params, schema_of(built_in), fields) matches Ok((after, end)) ==> (
        read_map::<MountEntries>(
            ts,
            past_colon(ts, next),
            params,
            schema_of(BuiltIn::Volume),
        ) matches Ok(
            (more, at),
        ) && at == end && lowered_service_fields(after) == (ServiceFieldsV {
            volumes: ArrowMapV { entries: lowered_service_fields(fields).volumes.entries + more },
            ..lowered_service_fields(fields)
        })),
{
    law_service_keywords(built_in);
    assert(takes(built_in, "volume"@, FieldKind::Nested(BuiltIn::Volume)));
    let nested = schema_of(BuiltIn::Volume);
    if let Ok((after, end)) = read_statement(ts, p, params, schema_of(built_in), fields) {
        lemma_map_sets(ts, past_colon(ts, next), params, "volume"@, nested, fields);
        law_a_keyword_reaches_its_own_field_only(after, fields);
    }
}

proof fn lemma_mounts_behind(held: Seq<EnvEntryV>, more: Seq<EnvEntryV>)
    ensures
        as_mounts(held + more).take(held.len() as int) == as_mounts(held),
        leads_from(as_mounts(held + more).skip(held.len() as int), more),
{
    assert(as_mounts(held + more).take(held.len() as int) =~= as_mounts(held));
}

/// A service after one more `publish` statement: mounts for the entries read
/// stand behind those that were there, and nothing else is different.
pub proof fn law_publish_statements_add_their_entries(
    ts: Seq<TokenV>,
    p: int,
    params: Option<Seq<ParamV>>,
    built_in: BuiltIn,
    fields: FieldsV,
    key: LiteralV,
    next: int,
)
    requires
        built_in == BuiltIn::Service || built_in == BuiltIn::Template,
        read_key(ts, p) == Ok::<(LiteralV, int), ParseErrorV>((key, next)),
        key.text() == "publish"@,
    ensures
        read_statement(ts, p, params, schema_of(built_in), fields) matches Ok((after, end)) ==> (
        read_map::<LiteralEntries>(
            ts,
            past_colon(ts, next),
            params,
            schema_of(BuiltIn::Publish),
        ) matches Ok((more, at)) && at == end && ({
            let before = lowered_service_fields(fields);
            let service = lowered_service_fields(after);
            let n = before.publish.entries.len() as int;
            &&& service == (ServiceFieldsV { publish: service.publish, ..before })
            &&& service.publish.entries.take(n) == before.publish.entries
            &&& leads_from(service.publish.entries.skip(n), more)
        })),
{
    lemma_publish_statement(ts, p, params, built_in, fields, key, next);
    if let Ok((after, end)) = read_statement(ts, p, params, schema_of(built_in), fields) {
        lemma_only_publish(after, fields);
        let held = held_entries(fields, "publish"@);
        let more = read_map::<LiteralEntries>(
            ts,
            past_colon(ts, next),
            params,
            schema_of(BuiltIn::Publish),
        )->Ok_0.0;
        lemma_mounts_behind(held, more);
    }
}

proof fn lemma_publish_statement(
    ts: Seq<TokenV>,
    p: int,
    params: Option<Seq<ParamV>>,
    built_in: BuiltIn,
    fields: FieldsV,
    key: LiteralV,
    next: int,
)
    requires
        built_in == BuiltIn::Service || built_in == BuiltIn::Template,
        read_key(ts, p) == Ok::<(LiteralV, int), ParseErrorV>((key, next)),
        key.text() == "publish"@,
    ensures
        read_statement(ts, p, params, schema_of(built_in), fields) matches Ok((after, end)) ==> (
        read_map::<LiteralEntries>(
            ts,
            past_colon(ts, next),
            params,
            schema_of(BuiltIn::Publish),
        ) matches Ok((more, at)) && at == end && alike_but(after, fields, "publish"@) && set_value(
            after,
            "publish"@,
        ) == Some(FieldValueV::LiteralMap(held_entries(fields, "publish"@) + more))),
{
    law_service_keywords(built_in);
    assert(takes(built_in, "publish"@, FieldKind::Nested(BuiltIn::Publish)));
    lemma_map_sets(
        ts,
        past_colon(ts, next),
        params,
        "publish"@,
        schema_of(BuiltIn::Publish),
        fields,
    );
}

/// A service after one more `devices` statement: mounts for the entries read
/// stand behind those that were there, and nothing else is different.
pub proof fn law_devices_statements_add_their_entries(
    ts: Seq<TokenV>,
    p: int,
    params: Option<Seq<ParamV>>,
    built_in: BuiltIn,
    fields: FieldsV,
    key: LiteralV,
    next: int,
)
    requires
        built_in == BuiltIn::Service || built_in == BuiltIn::Template,
        read_key(ts, p) == Ok::<(LiteralV, int), ParseErrorV>((key, next)),
        key.text() == "devices"@,
    ensures
        read_statement(ts, p, params, schema_of(built_in), fields) matches Ok((after, end)) ==> (
        read_map::<LiteralEntries>(
            ts,
            past_colon(ts, next),
            params,
            schema_of(BuiltIn::Devices),
        ) matches Ok((more, at)) && at == end && ({
            let before = lowered_service_fields(fields);
            let service = lowered_service_fields(after);
            let n = before.devices.entries.len() as int;
            &&& service == (ServiceFieldsV { devices: service.devices, ..before })
            &&& service.devices.entries.take(n) == before.devices.entries
            &&& leads_from(service.devices.entries.skip(n), more)
        })),
{
    lemma_devices_statement(ts, p, params, built_in, fields, key, next);
    if let Ok((after, end)) = read_statement(ts, p, params, schema_of(built_in), fields) {
        lemma_only_devices(after, fields);
        let held = held_entries(fields, "devices"@);
        let more = read_map::<LiteralEntries>(
            ts,
            past_colon(ts, next),
            params,
            schema_of(BuiltIn::Devices),
        )->Ok_0.0;
        lemma_mounts_behind(held, more);
    }
}

proof fn lemma_devices_statement(
    ts: Seq<TokenV>,
    p: int,
    params: Option<Seq<ParamV>>,
    built_in: BuiltIn,
    fields: FieldsV,
    key: LiteralV,
    next: int,
)
    requires
        built_in == BuiltIn::Service || built_in == BuiltIn::Template,
        read_key(ts, p) == Ok::<(LiteralV, int), ParseErrorV>((key, next)),
        key.text() == "devices"@,
    ensures
        read_statement(ts, p, params, schema_of(built_in), fields) matches Ok((after, end)) ==> (
        read_map::<LiteralEntries>(
            ts,
            past_colon(ts, next),
            params,
            schema_of(BuiltIn::Devices),
        ) matches Ok((more, at)) && at == end && alike_but(after, fields, "devices"@) && set_value(
            after,
            "devices"@,
        ) == Some(FieldValueV::LiteralMap(held_entries(fields, "devices"@) + more))),
{
    law_service_keywords(built_in);
    assert(takes(built_in, "devices"@, FieldKind::Nested(BuiltIn::Devices)));
    lemma_map_sets(
        ts,
        past_colon(ts, next),
        params,
        "devices"@,
        schema_of(BuiltIn::Devices),
        fields,
    );
}

/// A service after one more `depends_on` statement: the entries read stand
/// behind those that were there, and nothing else is different.
pub proof fn law_dependencies_grow_under_their_keyword(
    ts: Seq<TokenV>,
    p: int,
    params: Option<Seq<ParamV>>,
    built_in: BuiltIn,
    fields: FieldsV,
    key: LiteralV,
    next: int,
    xs: Seq<DependsOnEntryV>,
    end: int,
)
    requires
        built_in == BuiltIn::Service || built_in == BuiltIn::Template,
        read_key(ts, p) == Ok::<(LiteralV, int), ParseErrorV>((key, next)),
        key.text() == "depends_on"@,
        read_list::<Dependencies>(ts, next, params) == Ok::<
            (Seq<DependsOnEntryV>, int),
            ParseErrorV,
        >((xs, end)),
    ensures
        read_statement(ts, p, params, schema_of(built_in), fields) matches Ok((after, at)) && at
            == end && lowered_service_fields(after) == (ServiceFieldsV {
            depends_on: lowered_service_fields(fields).depends_on + xs,
            ..lowered_service_fields(fields)
        }),
{
    law_service_keywords(built_in);
    assert(takes(built_in, "depends_on"@, FieldKind::DependsOnList));
    let value = FieldValueV::Dependencies(held_dependencies(fields, "depends_on"@) + xs);
    law_setting_a_key_leaves_the_others(fields, "depends_on"@, value);
    law_a_keyword_reaches_its_own_field_only(with_value(fields, "depends_on"@, value), fields);
}

/// A service after its `container_name` statement has the value read there, and
/// nothing else is different.
pub proof fn law_container_name_is_what_its_statement_says(
    ts: Seq<TokenV>,
    p: int,
    params: Option<Seq<ParamV>>,
    built_in: BuiltIn,
    fields: FieldsV,
    key: LiteralV,
    next: int,
    x: LiteralV,
    end: int,
)
    requires
        built_in == BuiltIn::Service || built_in == BuiltIn::Template,
        read_key(ts, p) == Ok::<(LiteralV, int), ParseErrorV>((key, next)),
        key.text() == "container_name"@,
        set_value(fields, "container_name"@) is None,
        read_field_value(ts, next, params) == Ok::<(LiteralV, int), ParseErrorV>((x, end)),
    ensures
        read_statement(ts, p, params, schema_of(built_in), fields) matches Ok((after, at)) && at
            == end && lowered_service_fields(after) == (ServiceFieldsV {
            container_name: Some(x),
            ..lowered_service_fields(fields)
        }),
{
    law_service_keywords(built_in);
    assert(takes(built_in, "container_name"@, FieldKind::Scalar));
    let value = FieldValueV::Scalar(x);
    lemma_single_sets(schema_of(built_in), fields, "container_name"@, value, end);
    let after = single_at(schema_of(built_in), fields, "container_name"@, value, end)->Ok_0.0;
    law_a_keyword_reaches_its_own_field_only(after, fields);
}

/// A service after its `command` statement has the value read there, and
/// nothing else is different.
pub proof fn law_command_is_what_its_statement_says(
    ts: Seq<TokenV>,
    p: int,
    params: Option<Seq<ParamV>>,
    built_in: BuiltIn,
    fields: FieldsV,
    key: LiteralV,
    next: int,
    x: ShellOrExecV,
    end: int,
)
    requires
        built_in == BuiltIn::Service || built_in == BuiltIn::Template,
        read_key(ts, p) == Ok::<(LiteralV, int), ParseErrorV>((key, next)),
        key.text() == "command"@,
        set_value(fields, "command"@) is None,
        read_scalar_or_list(ts, next, params) == Ok::<(ShellOrExecV, int), ParseErrorV>((x, end)),
    ensures
        read_statement(ts, p, params, schema_of(built_in), fields) matches Ok((after, at)) && at
            == end && lowered_service_fields(after) == (ServiceFieldsV {
            command: Some(x),
            ..lowered_service_fields(fields)
        }),
{
    law_service_keywords(built_in);
    assert(takes(built_in, "command"@, FieldKind::ScalarOrList));
    let value = FieldValueV::ScalarOrList(x);
    lemma_single_sets(schema_of(built_in), fields, "command"@, value, end);
    let after = single_at(schema_of(built_in), fields, "command"@, value, end)->Ok_0.0;
    law_a_keyword_reaches_its_own_field_only(after, fields);
}

/// A service after its `entrypoint` statement has the value read there, and
/// nothing else is different.
pub proof fn law_entrypoint_is_what_its_statement_says(
    ts: Seq<TokenV>,
    p: int,
    params: Option<Seq<ParamV>>,
    built_in: BuiltIn,
    fields: FieldsV,
    key: LiteralV,
    next: int,
    x: ShellOrExecV,
    end: int,
)
    requires
        built_in == BuiltIn::Service || built_in == BuiltIn::Template,
        read_key(ts, p) == Ok::<(LiteralV, int), ParseErrorV>((key, next)),
        key.text() == "entrypoint"@,
        set_value(fields, "entrypoint"@) is None,
        read_scalar_or_list(ts, next, params) == Ok::<(ShellOrExecV, int), ParseErrorV>((x, end)),
    ensures
        read_statement(ts, p, params, schema_of(built_in), fields) matches Ok((after, at)) && at
            == end && lowered_service_fields(after) == (ServiceFieldsV {
            entrypoint: Some(x),
            ..lowered_service_fields(fields)
        }),
{
    law_service_keywords(built_in);
    assert(takes(built_in, "entrypoint"@, FieldKind::ScalarOrList));
    let value = FieldValueV::ScalarOrList(x);
    lemma_single_sets(schema_of(built_in), fields, "entrypoint"@, value, end);
    let after = single_at(schema_of(built_in), fields, "entrypoint"@, value, end)->Ok_0.0;
    law_a_keyword_reaches_its_own_field_only(after, fields);
}

/// A service after a bare `privileged` has the flag where the keyword
/// stands, and nothing else is different.
pub proof fn law_privileged_is_set_by_presence(
    ts: Seq<TokenV>,
    p: int,
    params: Option<Seq<ParamV>>,
    built_in: BuiltIn,
    fields: FieldsV,
    key: LiteralV,
    next: int,
)
    requires
        built_in == BuiltIn::Service || built_in == BuiltIn::Template,
        read_key(ts, p) == Ok::<(LiteralV, int), ParseErrorV>((key, next)),
        key.text() == "privileged"@,
        set_value(fields, "privileged"@) is None,
        ts[next].kind != TokenKind::Colon,
    ensures
        read_statement(ts, p, params, schema_of(built_in), fields) matches Ok((after, at)) && at
            == next && lowered_service_fields(after) == (ServiceFieldsV {
            privileged: Some(key.span()),
            ..lowered_service_fields(fields)
        }),
{
    law_service_keywords(built_in);
    assert(takes(built_in, "privileged"@, FieldKind::BoolFlag));
    let value = FieldValueV::Flag(key.span());
    lemma_single_sets(schema_of(built_in), fields, "privileged"@, value, next);
    let after = single_at(schema_of(built_in), fields, "privileged"@, value, next)->Ok_0.0;
    law_a_keyword_reaches_its_own_field_only(after, fields);
}

/// A service after its `image` statement has what the statement's braces or
/// bare value say, and nothing else is different.
pub proof fn law_image_is_what_its_statement_says(
    ts: Seq<TokenV>,
    p: int,
    params: Option<Seq<ParamV>>,
    built_in: BuiltIn,
    fields: FieldsV,
    key: LiteralV,
    next: int,
)
    requires
        built_in == BuiltIn::Service || built_in == BuiltIn::Template,
        read_key(ts, p) == Ok::<(LiteralV, int), ParseErrorV>((key, next)),
        key.text() == "image"@,
        set_value(fields, "image"@) is None,
    ensures
        read_statement(ts, p, params, schema_of(built_in), fields) matches Ok((after, end)) ==> (
        read_braces_or_bare(ts, past_colon(ts, next), params, BuiltIn::Image) matches Ok(
            ((inner, span), at),
        ) && at == end && set_value(after, "image"@) == Some(FieldValueV::Struct(inner, span))
            && lowered_service_fields(after) == (ServiceFieldsV {
            image: Some(lowered_image(inner, span)),
            ..lowered_service_fields(fields)
        })),
{
    lemma_image_statement(ts, p, params, built_in, fields, key, next);
    if let Ok((after, end)) = read_statement(ts, p, params, schema_of(built_in), fields) {
        lemma_only_image(after, fields);
    }
}

proof fn lemma_image_statement(
    ts: Seq<TokenV>,
    p: int,
    params: Option<Seq<ParamV>>,
    built_in: BuiltIn,
    fields: FieldsV,
    key: LiteralV,
    next: int,
)
    requires
        built_in == BuiltIn::Service || built_in == BuiltIn::Template,
        read_key(ts, p) == Ok::<(LiteralV, int), ParseErrorV>((key, next)),
        key.text() == "image"@,
        set_value(fields, "image"@) is None,
    ensures
        read_statement(ts, p, params, schema_of(built_in), fields) matches Ok((after, end)) ==> (
        read_braces_or_bare(ts, past_colon(ts, next), params, BuiltIn::Image) matches Ok(
            ((inner, span), at),
        ) && at == end && alike_but(after, fields, "image"@) && set_value(after, "image"@) == Some(
            FieldValueV::Struct(inner, span),
        )),
{
    law_service_keywords(built_in);
    assert(takes(built_in, "image"@, FieldKind::Nested(BuiltIn::Image)));
    law_shapes_of_types(BuiltIn::Image);
    let start = past_colon(ts, next);
    if let Ok(((inner, span), end)) = read_braces_or_bare(ts, start, params, BuiltIn::Image) {
        let value = FieldValueV::Struct(inner, span);
        lemma_single_sets(schema_of(built_in), fields, "image"@, value, end);
    }
}

/// A service after its `build` statement has what the statement's braces or
/// bare value say, and nothing else is different.
pub proof fn law_build_is_what_its_statement_says(
    ts: Seq<TokenV>,
    p: int,
    params: Option<Seq<ParamV>>,
    built_in: BuiltIn,
    fields: FieldsV,
    key: LiteralV,
    next: int,
)
    requires
        built_in == BuiltIn::Service || built_in == BuiltIn::Template,
        read_key(ts, p) == Ok::<(LiteralV, int), ParseErrorV>((key, next)),
        key.text() == "build"@,
        set_value(fields, "build"@) is None,
    ensures
        read_statement(ts, p, params, schema_of(built_in), fields) matches Ok((after, end)) ==> (
        read_braces_or_bare(ts, past_colon(ts, next), params, BuiltIn::Build) matches Ok(
            ((inner, span), at),
        ) && at == end && set_value(after, "build"@) == Some(FieldValueV::Struct(inner, span))
            && lowered_service_fields(after) == (ServiceFieldsV {
            build: Some(lowered_build(inner, span)),
            ..lowered_service_fields(fields)
        })),
{
    lemma_build_statement(ts, p, params, built_in, fields, key, next);
    if let Ok((after, end)) = read_statement(ts, p, params, schema_of(built_in), fields) {
        lemma_only_build(after, fields);
    }
}

proof fn lemma_build_statement(
    ts: Seq<TokenV>,
    p: int,
    params: Option<Seq<ParamV>>,
    built_in: BuiltIn,
    fields: FieldsV,
    key: LiteralV,
    next: int,
)
    requires
        built_in == BuiltIn::Service || built_in == BuiltIn::Template,
        read_key(ts, p) == Ok::<(LiteralV, int), ParseErrorV>((key, next)),
        key.text() == "build"@,
        set_value(fields, "build"@) is None,
    ensures
        read_statement(ts, p, params, schema_of(built_in), fields) matches Ok((after, end)) ==> (
        read_braces_or_bare(ts, past_colon(ts, next), params, BuiltIn::Build) matches Ok(
            ((inner, span), at),
        ) && at == end && alike_but(after, fields, "build"@) && set_value(after, "build"@) == Some(
            FieldValueV::Struct(inner, span),
        )),
{
    law_service_keywords(built_in);
    assert(takes(built_in, "build"@, FieldKind::Nested(BuiltIn::Build)));
    law_shapes_of_types(BuiltIn::Build);
    let start = past_colon(ts, next);
    if let Ok(((inner, span), end)) = read_braces_or_bare(ts, start, params, BuiltIn::Build) {
        let value = FieldValueV::Struct(inner, span);
        lemma_single_sets(schema_of(built_in), fields, "build"@, value, end);
    }
}

/// A service after its `expose` statement has what the statement's braces or
/// bare value say, and nothing else is different.
pub proof fn law_expose_is_what_its_statement_says(
    ts: Seq<TokenV>,
    p: int,
    params: Option<Seq<ParamV>>,
    built_in: BuiltIn,
    fields: FieldsV,
    key: LiteralV,
    next: int,
)
    requires
        built_in == BuiltIn::Service || built_in == BuiltIn::Template,
        read_key(ts, p) == Ok::<(LiteralV, int), ParseErrorV>((key, next)),
        key.text() == "expose"@,
        set_value(fields, "expose"@) is None,
    ensures
        read_statement(ts, p, params, schema_of(built_in), fields) matches Ok((after, end)) ==> (
        read_braces_or_bare(ts, past_colon(ts, next), params, BuiltIn::Expose) matches Ok(
            ((inner, span), at),
        ) && at == end && set_value(after, "expose"@) == Some(FieldValueV::Struct(inner, span))
            && lowered_service_fields(after) == (ServiceFieldsV {
            expose: Some(lowered_expose(inner, span)),
            ..lowered_service_fields(fields)
        })),
{
    lemma_expose_statement(ts, p, params, built_in, fields, key, next);
    if let Ok((after, end)) = read_statement(ts, p, params, schema_of(built_in), fields) {
        lemma_only_expose(after, fields);
    }
}

proof fn lemma_expose_statement(
    ts: Seq<TokenV>,
    p: int,
    params: Option<Seq<ParamV>>,
    built_in: BuiltIn,
    fields: FieldsV,
    key: LiteralV,
    next: int,
)
    requires
        built_in == BuiltIn::Service || built_in == BuiltIn::Template,
        read_key(ts, p) == Ok::<(LiteralV, int), ParseErrorV>((key, next)),
        key.text() == "expose"@,
        set_value(fields, "expose"@) is None,
    ensures
        read_statement(ts, p, params, schema_of(built_in), fields) matches Ok((after, end)) ==> (
        read_braces_or_bare(ts, past_colon(ts, next), params, BuiltIn::Expose) matches Ok(
            ((inner, span), at),
        ) && at == end && alike_but(after, fields, "expose"@) && set_value(after, "expose"@) == Some(
            FieldValueV::Struct(inner, span),
        )),
{
    law_service_keywords(built_in);
    assert(takes(built_in, "expose"@, FieldKind::Nested(BuiltIn::Expose)));
    law_shapes_of_types(BuiltIn::Expose);
    let start = past_colon(ts, next);
    if let Ok(((inner, span), end)) = read_braces_or_bare(ts, start, params, BuiltIn::Expose) {
        let value = FieldValueV::Struct(inner, span);
        lemma_single_sets(schema_of(built_in), fields, "expose"@, value, end);
    }
}

/// A service after its `restart` statement has what the statement's braces or
/// bare value say, and nothing else is different.
pub proof fn law_restart_is_what_its_statement_says(
    ts: Seq<TokenV>,
    p: int,
    params: Option<Seq<ParamV>>,
    built_in: BuiltIn,
    fields: FieldsV,
    key: LiteralV,
    next: int,
)
    requires
        built_in == BuiltIn::Service || built_in == BuiltIn::Template,
        read_key(ts, p) == Ok::<(LiteralV, int), ParseErrorV>((key, next)),
        key.text() == "restart"@,
        set_value(fields, "restart"@) is None,
    ensures
        read_statement(ts, p, params, schema_of(built_in), fields) matches Ok((after, end)) ==> (
        read_braces_or_bare(ts, past_colon(ts, next), params, BuiltIn::Restart) matches Ok(
            ((inner, span), at),
        ) && at == end && set_value(after, "restart"@) == Some(FieldValueV::Struct(inner, span))
            && lowered_service_fields(after) == (ServiceFieldsV {
            restart: Some(lowered_restart(inner, span)),
            ..lowered_service_fields(fields)
        })),
{
    lemma_restart_statement(ts, p, params, built_in, fields, key, next);
    if let Ok((after, end)) = read_statement(ts, p, params, schema_of(built_in), fields) {
        lemma_only_restart(after, fields);
    }
}

proof fn lemma_restart_statement(
    ts: Seq<TokenV>,
    p: int,
    params: Option<Seq<ParamV>>,
    built_in: BuiltIn,
    fields: FieldsV,
    key: LiteralV,
    next: int,
)
    requires
        built_in == BuiltIn::Service || built_in == BuiltIn::Template,
        read_key(ts, p) == Ok::<(LiteralV, int), ParseErrorV>((key, next)),
        key.text() == "restart"@,
        set_value(fields, "restart"@) is None,
    ensures
        read_statement(ts, p, params, schema_of(built_in), fields) matches Ok((after, end)) ==> (
        read_braces_or_bare(ts, past_colon(ts, next), params, BuiltIn::Restart) matches Ok(
            ((inner, span), at),
        ) && at == end && alike_but(after, fields, "restart"@) && set_value(after, "restart"@) == Some(
            FieldValueV::Struct(inner, span),
        )),
{
    law_service_keywords(built_in);
    assert(takes(built_in, "restart"@, FieldKind::Nested(BuiltIn::Restart)));
    law_shapes_of_types(BuiltIn::Restart);
    let start = past_colon(ts, next);
    if let Ok(((inner, span), end)) = read_braces_or_bare(ts, start, params, BuiltIn::Restart) {
        let value = FieldValueV::Struct(inner, span);
        lemma_single_sets(schema_of(built_in), fields, "restart"@, value, end);
    }
}

/// A service after its `healthcheck` statement has what the statement's braces or
/// bare value say, and nothing else is different.
pub proof fn law_healthcheck_is_what_its_statement_says(
    ts: Seq<TokenV>,
    p: int,
    params: Option<Seq<ParamV>>,
    built_in: BuiltIn,
    fields: FieldsV,
    key: LiteralV,
    next: int,
)
    requires
        built_in == BuiltIn::Service || built_in == BuiltIn::Template,
        read_key(ts, p) == Ok::<(LiteralV, int), ParseErrorV>((key, next)),
        key.text() == "healthcheck"@,
        set_value(fields, "healthcheck"@) is None,
    ensures
        read_statement(ts, p, params, schema_of(built_in), fields) matches Ok((after, end)) ==> (
        read_braces_or_bare(ts, past_colon(ts, next), params, BuiltIn::Healthcheck) matches Ok(
            ((inner, span), at),
        ) && at == end && set_value(after, "healthcheck"@) == Some(FieldValueV::Struct(inner, span))
            && lowered_service_fields(after) == (ServiceFieldsV {
            healthcheck: Some(lowered_healthcheck(inner, span)),
            ..lowered_service_fields(fields)
        })),
{
    lemma_healthcheck_statement(ts, p, params, built_in, fields, key, next);
    if let Ok((after, end)) = read_statement(ts, p, params, schema_of(built_in), fields) {
        lemma_only_healthcheck(after, fields);
    }
}

proof fn lemma_healthcheck_statement(
    ts: Seq<TokenV>,
    p: int,
    params: Option<Seq<ParamV>>,
    built_in: BuiltIn,
    fields: FieldsV,
    key: LiteralV,
    next: int,
)
    requires
        built_in == BuiltIn::Service || built_in == BuiltIn::Template,
        read_key(ts, p) == Ok::<(LiteralV, int), ParseErrorV>((key, next)),
        key.text() == "healthcheck"@,
        set_value(fields, "healthcheck"@) is None,
    ensures
        read_statement(ts, p, params, schema_of(built_in), fields) matches Ok((after, end)) ==> (
        read_braces_or_bare(ts, past_colon(ts, next), params, BuiltIn::Healthcheck) matches Ok(
            ((inner, span), at),
        ) && at == end && alike_but(after, fields, "healthcheck"@) && set_value(after, "healthcheck"@) == Some(
            FieldValueV::Struct(inner, span),
        )),
{
    law_service_keywords(built_in);
    assert(takes(built_in, "healthcheck"@, FieldKind::Nested(BuiltIn::Healthcheck)));
    law_shapes_of_types(BuiltIn::Healthcheck);
    let start = past_colon(ts, next);
    if let Ok(((inner, span), end)) = read_braces_or_bare(ts, start, params, BuiltIn::Healthcheck) {
        let value = FieldValueV::Struct(inner, span);
        lemma_single_sets(schema_of(built_in), fields, "healthcheck"@, value, end);
    }
}

/// A nested body in braces, or a bare value that stands for one.
pub open spec fn read_braces_or_bare(
    ts: Seq<TokenV>,
    p: int,
    params: Option<Seq<ParamV>>,
    built_in: BuiltIn,
) -> Parsed<(FieldsV, Span)> {
    if ts[p].kind == TokenKind::LBrace {
        read_struct_body(ts, p, params, schema_of(built_in))
    } else {
        read_shorthand(ts, p, params, schema_of(built_in))
    }
}

/// A bare value stands for the type's primary field, where no comma
/// follows.
pub proof fn law_bare_values_are_primary(
    ts: Seq<TokenV>,
    p: int,
    params: Option<Seq<ParamV>>,
    lit: LiteralV,
    end: int,
)
    requires
        read_literal(ts, p, params) == Ok::<(LiteralV, int), ParseErrorV>((lit, end)),
        p < end < ts.len(),
        ts[end].kind != TokenKind::Comma,
    ensures
        read_shorthand(ts, p, params, schema_of(BuiltIn::Image)) == bare(ts, "ref"@, lit, end),
        read_shorthand(ts, p, params, schema_of(BuiltIn::Build)) == bare(ts, "context"@, lit, end),
        read_shorthand(ts, p, params, schema_of(BuiltIn::Expose)) == bare(ts, "port"@, lit, end),
        read_shorthand(ts, p, params, schema_of(BuiltIn::Restart)) == bare(
            ts,
            "policy"@,
            lit,
            end,
        ),
{
    law_other_keywords();
    law_shapes_of_types(BuiltIn::Image);
    law_shapes_of_types(BuiltIn::Build);
    law_shapes_of_types(BuiltIn::Expose);
    law_shapes_of_types(BuiltIn::Restart);
    assert(takes(BuiltIn::Image, "ref"@, FieldKind::Scalar));
    assert(takes(BuiltIn::Build, "context"@, FieldKind::Scalar));
    assert(takes(BuiltIn::Expose, "port"@, FieldKind::Scalar));
    assert(takes(BuiltIn::Restart, "policy"@, FieldKind::Scalar));
}

/// A single value under a key, and where it stands.
pub open spec fn bare(ts: Seq<TokenV>, key: Seq<char>, lit: LiteralV, end: int) -> Parsed<
    (FieldsV, Span),
> {
    Ok(
        (
            (seq![(key, FieldValueV::Scalar(lit))], joined(lit.span(), ts[end - 1].span)),
            end,
        ),
    )
}

/// A body with one statement in its braces sets what that statement sets.
pub proof fn law_a_body_of_one_statement(
    ts: Seq<TokenV>,
    p: int,
    params: Option<Seq<ParamV>>,
    schema: TypeSchemaV,
    after: FieldsV,
    end: int,
)
    requires
        0 <= p,
        ts[p].kind == TokenKind::LBrace,
        ts[p + 1].kind != TokenKind::RBrace,
        read_statement(ts, p + 1, params, schema, Seq::empty()) == Ok::<
            (FieldsV, int),
            ParseErrorV,
        >((after, end)),
        p + 1 < end,
        end + 1 < ts.len(),
        ts[end].kind == TokenKind::RBrace,
    ensures
        read_struct_body(ts, p, params, schema) == Ok::<((FieldsV, Span), int), ParseErrorV>(
            ((after, joined(ts[p].span, ts[end].span)), end + 1),
        ),
{
    reveal_with_fuel(read_statements, 2);
}

/// The literal that a name or a string by itself stands for.
pub open spec fn plain(tok: TokenV) -> LiteralV {
    if tok.kind == TokenKind::Str {
        LiteralV::Str(tok.content->Ok_0, tok.span)
    } else {
        LiteralV::Ident(tok.lexeme, tok.span)
    }
}

/// Whether `n` names or strings stand from `p` on, with commas between them
/// and a closing bracket behind the last.
pub open spec fn names_up_to_bracket(ts: Seq<TokenV>, p: int, n: int) -> bool {
    &&& 0 <= p
    &&& n > 0
    &&& p + 2 * n < ts.len()
    &&& forall|i: int|
        0 <= i < n ==> {
            ||| (#[trigger] ts[p + 2 * i]).kind == TokenKind::Ident
            ||| ts[p + 2 * i].kind == TokenKind::Str && ts[p + 2 * i].content is Ok
        }
    &&& forall|i: int|
        0 <= i < n - 1 ==> (#[trigger] ts[p + 2 * i + 1]).kind == TokenKind::Comma
    &&& ts[p + 2 * n - 1].kind == TokenKind::RBracket
}

proof fn lemma_names_read(
    ts: Seq<TokenV>,
    p: int,
    n: int,
    i: int,
    params: Option<Seq<ParamV>>,
    before: Seq<LiteralV>,
)
    requires
        names_up_to_bracket(ts, p, n),
        0 <= i < n,
        before == Seq::new(i as nat, |k: int| plain(ts[p + 2 * k])),
    ensures
        read_items::<References>(ts, p + 2 * i, params, before) == Ok::<
            (Seq<LiteralV>, int),
            ParseErrorV,
        >((Seq::new(n as nat, |k: int| plain(ts[p + 2 * k])), p + 2 * n - 1)),
    decreases n - i,
{
    let at = p + 2 * i;
    assert(ts[at].kind == TokenKind::Ident
        || ts[at].kind == TokenKind::Str && ts[at].content is Ok);
    if i < n - 1 {
        assert(ts[p + 2 * i + 1].kind == TokenKind::Comma);
    }
    assert(ts[at + 1].kind == TokenKind::Comma || ts[at + 1].kind == TokenKind::RBracket);
    assert(read_reference(ts, at, params) == Ok::<(LiteralV, int), ParseErrorV>(
        (plain(ts[at]), at + 1),
    ));
    let next = before.push(plain(ts[at]));
    assert(next =~= Seq::new((i + 1) as nat, |k: int| plain(ts[p + 2 * k])));
    if i < n - 1 {
        lemma_names_read(ts, p, n, i + 1, params, next);
        assert(p + 2 * (i + 1) == at + 2);
    }
}

/// A bracketed list of names and strings reads as exactly those, in order.
pub proof fn law_bracketed_names_read_in_order(
    ts: Seq<TokenV>,
    p: int,
    n: int,
    params: Option<Seq<ParamV>>,
)
    requires
        ts[p].kind == TokenKind::LBracket,
        names_up_to_bracket(ts, p + 1, n),
    ensures
        read_bracketed::<References>(ts, p, params) == Ok::<
            ((Seq<LiteralV>, Span), int),
            ParseErrorV,
        >(
            (
                (
                    Seq::new(n as nat, |k: int| plain(ts[p + 1 + 2 * k])),
                    joined(ts[p].span, ts[p + 2 * n].span),
                ),
                p + 2 * n + 1,
            ),
        ),
{
    assert(Seq::<LiteralV>::empty() =~= Seq::new(0, |k: int| plain(ts[p + 1 + 2 * k])));
    lemma_names_read(ts, p + 1, n, 0, params, Seq::empty());
    assert(ts[p + 1 + 2 * 0].kind == TokenKind::Ident || ts[p + 1 + 2 * 0].kind == TokenKind::Str);
}

/// A service whose only statement is one of `networks`, `dns` and
/// `env_file` with a bracketed list has exactly that list under exactly
/// that field, and nothing else.
pub proof fn law_a_service_of_one_reference_list(
    ts: Seq<TokenV>,
    p: int,
    n: int,
    params: Option<Seq<ParamV>>,
    built_in: BuiltIn,
)
    requires
        built_in == BuiltIn::Service || built_in == BuiltIn::Template,
        0 <= p,
        ts[p].kind == TokenKind::LBrace,
        ts[p + 1].kind == TokenKind::Ident,
        ts[p + 1].lexeme == "networks"@ || ts[p + 1].lexeme == "dns"@ || ts[p + 1].lexeme
            == "env_file"@,
        ts[p + 2].kind == TokenKind::LBracket,
        names_up_to_bracket(ts, p + 3, n),
        ts[p + 3 + 2 * n].kind == TokenKind::RBrace,
        p + 4 + 2 * n < ts.len(),
    ensures
        read_struct_body(ts, p, params, schema_of(built_in)) matches Ok(((fields, _), end)) && end
            == p + 4 + 2 * n && ({
            let xs = Seq::new(n as nat, |k: int| plain(ts[p + 3 + 2 * k]));
            let service = lowered_service_fields(fields);
            let bare = lowered_service_fields(Seq::empty());
            &&& nothing_set(bare)
            &&& ts[p + 1].lexeme == "networks"@ ==> service == (ServiceFieldsV {
                networks: xs,
                ..bare
            })
            &&& ts[p + 1].lexeme == "dns"@ ==> service == (ServiceFieldsV { dns: xs, ..bare })
            &&& ts[p + 1].lexeme == "env_file"@ ==> service == (ServiceFieldsV {
                env_file: xs,
                ..bare
            })
        }),
{
    let key = LiteralV::Ident(ts[p + 1].lexeme, ts[p + 1].span);
    let xs = Seq::new(n as nat, |k: int| plain(ts[p + 3 + 2 * k]));
    let end = p + 3 + 2 * n;
    law_bracketed_names_read_in_order(ts, p + 2, n, params);
    assert(xs =~= Seq::new(n as nat, |k: int| plain(ts[p + 2 + 1 + 2 * k])));
    assert(read_list::<References>(ts, p + 2, params) == Ok::<(Seq<LiteralV>, int), ParseErrorV>(
        (xs, end),
    ));
    law_reference_lists_grow_under_their_keyword(
        ts,
        p + 1,
        params,
        built_in,
        Seq::empty(),
        key,
        p + 2,
        xs,
        end,
    );
    let after = read_statement(ts, p + 1, params, schema_of(built_in), Seq::empty())->Ok_0.0;
    law_a_body_of_one_statement(ts, p, params, schema_of(built_in), after, end);
    assert(Seq::<LiteralV>::empty() + xs =~= xs);
}

/// What each token reads as by itself: a string as its content, a numeral
/// as its value with its digits, a name that no dot follows as that name.
pub proof fn law_values_read_as_written(ts: Seq<TokenV>, p: int, params: Option<Seq<ParamV>>)
    ensures
        ts[p].kind == TokenKind::Str && ts[p].content is Ok ==> read_literal(ts, p, params)
            == Ok::<(LiteralV, int), ParseErrorV>(
            (LiteralV::Str(ts[p].content->Ok_0, ts[p].span), p + 1),
        ),
        ts[p].kind == TokenKind::Ident && ts[p + 1].kind != TokenKind::Dot ==> read_literal(
            ts,
            p,
            params,
        ) == Ok::<(LiteralV, int), ParseErrorV>(
            (LiteralV::Ident(ts[p].lexeme, ts[p].span), p + 1),
        ),
        ts[p].kind == TokenKind::Number && numeral_value(ts[p].lexeme) is Some ==> read_literal(
            ts,
            p,
            params,
        ) == Ok::<(LiteralV, int), ParseErrorV>(
            (
                LiteralV::Number {
                    text: ts[p].lexeme,
                    value: numeral_value(ts[p].lexeme)->Some_0,
                    span: ts[p].span,
                },
                p + 1,
            ),
        ),
        ts[p].kind == TokenKind::Number && numeral_value(ts[p].lexeme) is None ==> read_literal(
            ts,
            p,
            params,
        ) == Err::<(LiteralV, int), ParseErrorV>(
            ParseErrorV::NumberOutOfRange { text: ts[p].lexeme, span: ts[p].span },
        ),
{
}

/// Dotted values: `decl.field` and `alias.decl.field` read a field,
/// `alias.name` in a reference names an imported declaration, and `$param`
/// a parameter that the template declares.
pub proof fn law_dotted_values_read_as_written(
    ts: Seq<TokenV>,
    p: int,
    params: Option<Seq<ParamV>>,
)
    requires
        0 <= p,
    ensures
        ts[p].kind == TokenKind::Ident && ts[p + 1].kind == TokenKind::Dot && ts[p + 2].kind
            == TokenKind::Ident && ts[p + 3].kind != TokenKind::Dot ==> read_literal(ts, p, params)
            == Ok::<(LiteralV, int), ParseErrorV>(
            (
                LiteralV::Field(
                    Box::new(
                        FieldAccessV {
                            base: LiteralV::Ident(ts[p].lexeme, ts[p].span),
                            field: IdentV { name: ts[p + 2].lexeme, span: ts[p + 2].span },
                            span: joined(ts[p].span, ts[p + 2].span),
                        },
                    ),
                ),
                p + 3,
            ),
        ),
        ts[p].kind == TokenKind::Ident && ts[p + 1].kind == TokenKind::Dot && ts[p + 2].kind
            == TokenKind::Ident && ts[p + 3].kind == TokenKind::Dot && ts[p + 4].kind
            == TokenKind::Ident ==> read_literal(ts, p, params) == Ok::<
            (LiteralV, int),
            ParseErrorV,
        >(
            (
                LiteralV::Field(
                    Box::new(
                        FieldAccessV {
                            base: LiteralV::Qualified(
                                QualifiedRefV {
                                    qualifier: IdentV { name: ts[p].lexeme, span: ts[p].span },
                                    name: ts[p + 2].lexeme,
                                    name_span: ts[p + 2].span,
                                    span: joined(ts[p].span, ts[p + 2].span),
                                },
                            ),
                            field: IdentV { name: ts[p + 4].lexeme, span: ts[p + 4].span },
                            span: joined(
                                joined(ts[p].span, ts[p + 2].span),
                                ts[p + 4].span,
                            ),
                        },
                    ),
                ),
                p + 5,
            ),
        ),
        ts[p].kind == TokenKind::Ident && ts[p + 1].kind == TokenKind::Dot && ts[p + 2].kind
            == TokenKind::Ident ==> read_reference(ts, p, params) == Ok::<
            (LiteralV, int),
            ParseErrorV,
        >(
            (
                LiteralV::Qualified(
                    QualifiedRefV {
                        qualifier: IdentV { name: ts[p].lexeme, span: ts[p].span },
                        name: ts[p + 2].lexeme,
                        name_span: ts[p + 2].span,
                        span: joined(ts[p].span, ts[p + 2].span),
                    },
                ),
                p + 3,
            ),
        ),
        ts[p].kind == TokenKind::Dollar && ts[p + 1].kind == TokenKind::Ident && ts[p + 2].kind
            != TokenKind::Dot ==> match params {
            None => read_literal(ts, p, params) is Err && read_reference(ts, p, params) is Err,
            Some(declared) => if exists|k: int|
                0 <= k < declared.len() && (#[trigger] declared[k]).name.name == ts[p + 1].lexeme {
                let lit = LiteralV::Param(
                    ts[p + 1].lexeme,
                    joined(ts[p].span, ts[p + 1].span),
                );
                &&& read_literal(ts, p, params) == Ok::<(LiteralV, int), ParseErrorV>((lit, p + 2))
                &&& read_reference(ts, p, params) == Ok::<(LiteralV, int), ParseErrorV>(
                    (lit, p + 2),
                )
            } else {
                read_literal(ts, p, params) is Err && read_reference(ts, p, params) is Err
            },
        },
{
    if let Some(declared) = params {
        lemma_declares(declared, ts[p + 1].lexeme, 0);
    }
}

proof fn lemma_declares(params: Seq<ParamV>, name: Seq<char>, i: int)
    requires
        0 <= i,
    ensures
        declares_param(params, name, i) <==> exists|k: int|
            i <= k < params.len() && (#[trigger] params[k]).name.name == name,
    decreases params.len() - i,
{
    if i < params.len() {
        lemma_declares(params, name, i + 1);
        if params[i].name.name == name {
            assert(params[i].name.name == name);
        }
    }
}

/// A declaration reads as the kind its keyword says, under the name behind
/// it, with the fields of its body.
#[verifier::spinoff_prover]
#[verifier::rlimit(60)]
pub proof fn law_declarations_read_by_their_keyword(
    ts: Seq<TokenV>,
    p: int,
    fields: FieldsV,
    span: Span,
    end: int,
)
    requires
        0 <= p,
        ts[p].kind == TokenKind::Ident,
        ts[p + 1].kind == TokenKind::Ident,
    ensures
        ({
            let name = IdentV { name: ts[p + 1].lexeme, span: ts[p + 1].span };
            let whole = joined(ts[p].span, span);
            let read = Ok::<((FieldsV, Span), int), ParseErrorV>(((fields, span), end));
            &&& ts[p].lexeme == "service"@ && read_struct_body(
                ts,
                p + 2,
                None,
                schema_of(BuiltIn::Service),
            ) == read ==> read_decl(ts, p) == Ok::<(TopDeclV, int), ParseErrorV>(
                (
                    TopDeclV::Service(
                        ServiceV { name, fields: lowered_service_fields(fields), span: whole },
                    ),
                    end,
                ),
            )
            &&& ts[p].lexeme == "network"@ && read_struct_body(
                ts,
                p + 2,
                None,
                schema_of(BuiltIn::Network),
            ) == read ==> read_decl(ts, p) == Ok::<(TopDeclV, int), ParseErrorV>(
                (TopDeclV::Network(lowered_network(name, fields, whole)), end),
            )
            &&& ts[p].lexeme == "volume"@ && read_struct_body(
                ts,
                p + 2,
                None,
                schema_of(BuiltIn::VolumeDecl),
            ) == read ==> read_decl(ts, p) == Ok::<(TopDeclV, int), ParseErrorV>(
                (TopDeclV::Volume(lowered_volume(name, fields, whole)), end),
            )
        }),
{
    reveal_strlit("network");
    reveal_strlit("volume");
    reveal_strlit("service");
    reveal_strlit("use");
    assert("network"@.len() == 7 && "volume"@.len() == 6 && "service"@.len() == 7 && "use"@.len()
        == 3);
    assert("network"@[0] == 'n' && "service"@[0] == 's');
    law_shapes_of_types(BuiltIn::Service);
}

/// A `use` and a template read as they are written.
#[verifier::spinoff_prover]
#[verifier::rlimit(60)]
pub proof fn law_uses_and_templates_read_as_written(
    ts: Seq<TokenV>,
    p: int,
    fields: FieldsV,
    span: Span,
    end: int,
)
    requires
        0 <= p,
    ensures
        ts[p].kind == TokenKind::Ident && ts[p].lexeme == "use"@ && ts[p + 1].kind == TokenKind::Str
            && ts[p + 1].content is Ok && ts[p + 2].kind == TokenKind::Ident && ts[p + 2].lexeme
            == "as"@ && ts[p + 3].kind == TokenKind::Ident ==> read_decl(ts, p) == Ok::<
            (TopDeclV, int),
            ParseErrorV,
        >(
            (
                TopDeclV::Use(
                    UseDeclV {
                        path: LiteralV::Str(ts[p + 1].content->Ok_0, ts[p + 1].span),
                        alias: IdentV { name: ts[p + 3].lexeme, span: ts[p + 3].span },
                        span: joined(ts[p].span, ts[p + 3].span),
                    },
                ),
                p + 4,
            ),
        ),
        ts[p].kind == TokenKind::Template && ts[p + 1].kind == TokenKind::Ident && ts[p + 2].kind
            == TokenKind::LBrace && read_struct_body(
            ts,
            p + 2,
            Some(Seq::empty()),
            schema_of(BuiltIn::Template),
        ) == Ok::<((FieldsV, Span), int), ParseErrorV>(((fields, span), end)) ==> read_decl(ts, p)
            == Ok::<(TopDeclV, int), ParseErrorV>(
            (
                TopDeclV::Template(
                    TemplateDeclV {
                        name: IdentV { name: ts[p + 1].lexeme, span: ts[p + 1].span },
                        params: Seq::empty(),
                        fields: lowered_service_fields(fields),
                        span: joined(ts[p].span, span),
                    },
                ),
                end,
            ),
        ),
{
}

} // verus!
