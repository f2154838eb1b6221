use hl_parser::schema::{
    allows_qualified_reference, moved_field, resolve_field, supports_raw, top_level_type, BuiltIn,
    FieldKind, FieldResolution, SchemaKind,
};
use hl_parser::{DependsOnCondition, FileId, SourceMap, Span};

#[test]
fn three_types_stand_at_the_top() {
    assert_eq!(top_level_type("service").unwrap().built_in, BuiltIn::Service);
    assert_eq!(top_level_type("network").unwrap().built_in, BuiltIn::Network);
    assert_eq!(
        top_level_type("volume").unwrap().built_in,
        BuiltIn::VolumeDecl
    );
    assert!(top_level_type("image").is_none());
    assert!(top_level_type("Service").is_none());
}

#[test]
fn raw_belongs_in_services_and_templates() {
    assert!(supports_raw(&BuiltIn::Service.schema()));
    assert!(supports_raw(&BuiltIn::Template.schema()));
    assert!(!supports_raw(&BuiltIn::Expose.schema()));
    assert!(!supports_raw(&BuiltIn::Network.schema()));
}

#[test]
fn only_networks_and_volumes_may_be_qualified() {
    assert!(allows_qualified_reference("networks"));
    assert!(allows_qualified_reference("volume"));
    assert!(!allows_qualified_reference("dns"));
    assert!(!allows_qualified_reference("depends_on"));
    assert!(!allows_qualified_reference("env_file"));
}

#[test]
fn keys_resolve_by_the_enclosing_type() {
    let service = BuiltIn::Service.schema();
    assert!(matches!(
        resolve_field(&service, "image"),
        FieldResolution::Field(field) if matches!(field.kind, FieldKind::Nested(BuiltIn::Image))
    ));
    assert!(matches!(
        resolve_field(&service, "router"),
        FieldResolution::Moved(_)
    ));
    assert!(matches!(
        resolve_field(&service, "ports"),
        FieldResolution::Unknown
    ));
    assert!(matches!(
        resolve_field(&BuiltIn::Raw.schema(), "ports"),
        FieldResolution::RawPassthrough
    ));
    assert!(moved_field(&service, "traefik").is_some());
    assert!(moved_field(&service, "middleware").is_some());
    assert!(moved_field(&BuiltIn::Network.schema(), "router").is_none());
    assert_eq!(BuiltIn::Env.schema().kind, SchemaKind::Mapping);
}

#[test]
fn conditions_round_trip() {
    for text in [
        "service_started",
        "service_healthy",
        "service_completed_successfully",
    ] {
        let condition = DependsOnCondition::parse(text).expect("it is a condition");
        assert_eq!(condition.compose_value(), text);
    }
    assert!(DependsOnCondition::parse("healthy").is_none());
}

#[test]
fn paths_are_interned_once() {
    let mut files = SourceMap::default();
    let one = files.intern("a.hll");
    let two = files.intern("b.hll");
    assert_eq!(files.intern("a.hll"), one);
    assert_ne!(one, two);
    let span = Span {
        start: 0,
        end: 1,
        line: 12,
        col: 7,
        file: two,
    };
    assert_eq!(span.locate(Some(&files)), "b.hll:12:7");
    assert_eq!(span.locate(None), "12:7");
    let elsewhere = Span {
        file: FileId::Interned(9),
        ..span
    };
    assert_eq!(elsewhere.locate(Some(&files)), "12:7");
    assert_eq!(span.to(elsewhere).line, 12);
}
