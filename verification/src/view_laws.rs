//! That the view of a value shows each of its fields under its own name.

use vstd::prelude::*;

use crate::ast::{
    ArrowMap, ArrowMapEntry, Build, DependsOnEntry, EnvEntry, EnvMap, Expose, Healthcheck, Ident,
    Image, LabelEntry, LabelMap, Network, Param, Program, QualifiedRef, RawEntry, RawMap, Restart,
    Service, ServiceFields, TemplateDecl, TemplateInvocation, UseDecl, Volume, VolumeDriverOpt,
};

verus! {

/// Of a name, a reference, a parameter and a dependency.
pub proof fn law_views_of_references(
    ident: Ident,
    qualified_ref: QualifiedRef,
    param: Param,
    depends_on_entry: DependsOnEntry,
)
    ensures
        ident.deep_view().name == ident.name.deep_view(),
        ident.deep_view().span == ident.span.deep_view(),
        qualified_ref.deep_view().qualifier == qualified_ref.qualifier.deep_view(),
        qualified_ref.deep_view().name == qualified_ref.name.deep_view(),
        qualified_ref.deep_view().name_span == qualified_ref.name_span.deep_view(),
        qualified_ref.deep_view().span == qualified_ref.span.deep_view(),
        param.deep_view().name == param.name.deep_view(),
        depends_on_entry.deep_view().reference == depends_on_entry.reference.deep_view(),
        depends_on_entry.deep_view().condition == depends_on_entry.condition.deep_view(),
        depends_on_entry.deep_view().span == depends_on_entry.span.deep_view(),
{
}

/// Of each kind of declaration, and of an invocation.
pub proof fn law_views_of_declarations(
    network: Network,
    volume_driver_opt: VolumeDriverOpt,
    volume: Volume,
    template_invocation: TemplateInvocation,
    service: Service,
    template_decl: TemplateDecl,
    use_decl: UseDecl,
    program: Program,
)
    ensures
        network.deep_view().name == network.name.deep_view(),
        network.deep_view().external == network.external.deep_view(),
        network.deep_view().real_name == network.real_name.deep_view(),
        network.deep_view().span == network.span.deep_view(),
        volume_driver_opt.deep_view().key == volume_driver_opt.key.deep_view(),
        volume_driver_opt.deep_view().value == volume_driver_opt.value.deep_view(),
        volume_driver_opt.deep_view().span == volume_driver_opt.span.deep_view(),
        volume.deep_view().name == volume.name.deep_view(),
        volume.deep_view().external == volume.external.deep_view(),
        volume.deep_view().real_name == volume.real_name.deep_view(),
        volume.deep_view().driver == volume.driver.deep_view(),
        volume.deep_view().driver_opts == volume.driver_opts.deep_view(),
        volume.deep_view().span == volume.span.deep_view(),
        template_invocation.deep_view().qualifier == template_invocation.qualifier.deep_view(),
        template_invocation.deep_view().name == template_invocation.name.deep_view(),
        template_invocation.deep_view().args == template_invocation.args.deep_view(),
        template_invocation.deep_view().span == template_invocation.span.deep_view(),
        service.deep_view().name == service.name.deep_view(),
        service.deep_view().fields == service.fields.deep_view(),
        service.deep_view().span == service.span.deep_view(),
        template_decl.deep_view().name == template_decl.name.deep_view(),
        template_decl.deep_view().params == template_decl.params.deep_view(),
        template_decl.deep_view().fields == template_decl.fields.deep_view(),
        template_decl.deep_view().span == template_decl.span.deep_view(),
        use_decl.deep_view().path == use_decl.path.deep_view(),
        use_decl.deep_view().alias == use_decl.alias.deep_view(),
        use_decl.deep_view().span == use_decl.span.deep_view(),
        program.deep_view().decls == program.decls.deep_view(),
{
}

/// Of the fields of a service that have fields of their own.
pub proof fn law_views_of_parts(
    image: Image,
    build: Build,
    expose: Expose,
    restart: Restart,
    healthcheck: Healthcheck,
)
    ensures
        image.deep_view().reference == image.reference.deep_view(),
        image.deep_view().span == image.span.deep_view(),
        build.deep_view().context == build.context.deep_view(),
        build.deep_view().dockerfile == build.dockerfile.deep_view(),
        build.deep_view().span == build.span.deep_view(),
        expose.deep_view().port == expose.port.deep_view(),
        expose.deep_view().span == expose.span.deep_view(),
        restart.deep_view().policy == restart.policy.deep_view(),
        restart.deep_view().span == restart.span.deep_view(),
        healthcheck.deep_view().test == healthcheck.test.deep_view(),
        healthcheck.deep_view().interval == healthcheck.interval.deep_view(),
        healthcheck.deep_view().timeout == healthcheck.timeout.deep_view(),
        healthcheck.deep_view().retries == healthcheck.retries.deep_view(),
        healthcheck.deep_view().start_period == healthcheck.start_period.deep_view(),
        healthcheck.deep_view().start_interval == healthcheck.start_interval.deep_view(),
        healthcheck.deep_view().disable == healthcheck.disable.deep_view(),
        healthcheck.deep_view().span == healthcheck.span.deep_view(),
{
}

/// Of the map fields of a service, and of their entries.
pub proof fn law_views_of_maps(
    arrow_map_entry: ArrowMapEntry,
    arrow_map: ArrowMap,
    env_entry: EnvEntry,
    env_map: EnvMap,
    label_entry: LabelEntry,
    label_map: LabelMap,
    raw_entry: RawEntry,
    raw_map: RawMap,
)
    ensures
        arrow_map_entry.deep_view().host == arrow_map_entry.host.deep_view(),
        arrow_map_entry.deep_view().container == arrow_map_entry.container.deep_view(),
        arrow_map_entry.deep_view().read_only == arrow_map_entry.read_only.deep_view(),
        arrow_map_entry.deep_view().span == arrow_map_entry.span.deep_view(),
        arrow_map.deep_view().entries == arrow_map.entries.deep_view(),
        env_entry.deep_view().key == env_entry.key.deep_view(),
        env_entry.deep_view().value == env_entry.value.deep_view(),
        env_entry.deep_view().span == env_entry.span.deep_view(),
        env_map.deep_view().entries == env_map.entries.deep_view(),
        label_entry.deep_view().key == label_entry.key.deep_view(),
        label_entry.deep_view().value == label_entry.value.deep_view(),
        label_entry.deep_view().span == label_entry.span.deep_view(),
        label_map.deep_view().entries == label_map.entries.deep_view(),
        raw_entry.deep_view().key == raw_entry.key.deep_view(),
        raw_entry.deep_view().value == raw_entry.value.deep_view(),
        raw_entry.deep_view().span == raw_entry.span.deep_view(),
        raw_map.deep_view().entries == raw_map.entries.deep_view(),
{
}

/// Of the fields of a service.
pub proof fn law_views_of_services(
    service_fields: ServiceFields,
)
    ensures
        service_fields.deep_view().image == service_fields.image.deep_view(),
        service_fields.deep_view().build == service_fields.build.deep_view(),
        service_fields.deep_view().expose == service_fields.expose.deep_view(),
        service_fields.deep_view().restart == service_fields.restart.deep_view(),
        service_fields.deep_view().healthcheck == service_fields.healthcheck.deep_view(),
        service_fields.deep_view().publish == service_fields.publish.deep_view(),
        service_fields.deep_view().volumes == service_fields.volumes.deep_view(),
        service_fields.deep_view().env == service_fields.env.deep_view(),
        service_fields.deep_view().labels == service_fields.labels.deep_view(),
        service_fields.deep_view().raw == service_fields.raw.deep_view(),
        service_fields.deep_view().depends_on == service_fields.depends_on.deep_view(),
        service_fields.deep_view().networks == service_fields.networks.deep_view(),
        service_fields.deep_view().dns == service_fields.dns.deep_view(),
        service_fields.deep_view().env_file == service_fields.env_file.deep_view(),
        service_fields.deep_view().privileged == service_fields.privileged.deep_view(),
        service_fields.deep_view().devices == service_fields.devices.deep_view(),
        service_fields.deep_view().container_name == service_fields.container_name.deep_view(),
        service_fields.deep_view().command == service_fields.command.deep_view(),
        service_fields.deep_view().entrypoint == service_fields.entrypoint.deep_view(),
        service_fields.deep_view().with == service_fields.with.deep_view(),
{
}

} // verus!
