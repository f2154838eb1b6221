use hl_parser::compose::ImportableDecl;
use hl_parser::schema::MapSide;
use hl_parser::{ComposeError, FileId, MapKeyCollision, Network, SourceMap, Span, Volume};

fn span(line: u32, col: u32) -> Span {
    Span {
        start: 0,
        end: 0,
        line,
        col,
        file: FileId::Anonymous,
    }
}

#[test]
fn display_with_a_source_map_names_each_location_s_file() {
    let mut files = SourceMap::default();
    let one = files.intern("t1.hll");
    let two = files.intern("t2.hll");
    let at = |line: u32, col: u32, file: FileId| Span {
        start: 0,
        end: 0,
        line,
        col,
        file,
    };
    let err = ComposeError::FieldCollision {
        field: "restart.policy",
        first_template: "x".to_string(),
        second_template: "y".to_string(),
        first: at(2, 11, one),
        second: at(2, 11, two),
    };
    assert_eq!(
        err.display(&files),
        "t2.hll:2:11: field `restart.policy` set by both template `x` (at t1.hll:2:11) \
         and template `y`—explicit templates must not conflict"
    );
    assert_eq!(
        err.message(),
        "2:11: field `restart.policy` set by both template `x` (at 2:11) and template `y`\
         —explicit templates must not conflict"
    );
}

#[test]
fn display_with_a_source_map_falls_back_for_anonymous_spans() {
    let mut files = SourceMap::default();
    files.intern("entry.hll");
    let err = ComposeError::UnknownTemplate {
        name: "base".to_string(),
        span: span(3, 2),
    };
    assert_eq!(
        err.display(&files),
        "3:2: unknown template `base`"
    );
}

#[test]
fn unknown_template_display() {
    let err = ComposeError::UnknownTemplate {
        name: "base".to_string(),
        span: span(3, 2),
    };
    assert_eq!(err.message(), "3:2: unknown template `base`");
}

#[test]
fn duplicate_template_name_display() {
    let err = ComposeError::DuplicateTemplateName {
        name: "base".to_string(),
        first: span(1, 1),
        second: span(4, 1),
    };
    assert_eq!(
        err.message(),
        "4:1: duplicate template `base` (first declared at 1:1)"
    );
}

#[test]
fn duplicate_service_name_display() {
    let err = ComposeError::DuplicateServiceName {
        name: "web".to_string(),
        first: span(1, 1),
        second: span(6, 1),
    };
    assert_eq!(
        err.message(),
        "6:1: duplicate service `web` (first declared at 1:1)"
    );
}

#[test]
fn duplicate_network_name_display() {
    let err = ComposeError::DuplicateNetworkName {
        name: "proxy".to_string(),
        first: span(2, 1),
        second: span(9, 1),
    };
    assert_eq!(
        err.message(),
        "9:1: duplicate network `proxy` (first declared at 2:1)"
    );
}

#[test]
fn duplicate_volume_name_display() {
    let err = ComposeError::DuplicateVolumeName {
        name: "data".to_string(),
        first: span(2, 1),
        second: span(9, 1),
    };
    assert_eq!(
        err.message(),
        "9:1: duplicate volume `data` (first declared at 2:1)"
    );
}

#[test]
fn template_cycle_display() {
    let err = ComposeError::TemplateCycle {
        chain: vec!["a".to_string(), "b".to_string(), "a".to_string()],
        span: span(2, 3),
    };
    assert_eq!(
        err.message(),
        "2:3: template composition cycle: a -> b -> a"
    );
}

#[test]
fn template_nesting_too_deep_display() {
    let err = ComposeError::TemplateNestingTooDeep {
        name: "t0".to_string(),
        limit: 64,
        span: span(1, 10),
    };
    assert_eq!(
        err.message(),
        "1:10: `with` nesting deeper than 64 levels (reached at template `t0`)"
    );
}

#[test]
fn unknown_template_argument_display() {
    let err = ComposeError::UnknownTemplateArgument {
        template: "t".to_string(),
        argument: "bogus".to_string(),
        span: span(5, 1),
    };
    assert_eq!(
        err.message(),
        "5:1: unknown argument `bogus` for template `t`"
    );
}

#[test]
fn missing_template_argument_display() {
    let err = ComposeError::MissingTemplateArgument {
        template: "t".to_string(),
        param: "name".to_string(),
        span: span(6, 1),
    };
    assert_eq!(
        err.message(),
        "6:1: missing required argument `name` for template `t`"
    );
}

#[test]
fn duplicate_template_argument_display() {
    let err = ComposeError::DuplicateTemplateArgument {
        template: "t".to_string(),
        argument: "name".to_string(),
        first: span(1, 5),
        second: span(1, 10),
    };
    assert_eq!(
        err.message(),
        "1:10: duplicate argument `name` for template `t` (first set at 1:5)"
    );
}

#[test]
fn template_argument_not_scalar_display() {
    let err = ComposeError::TemplateArgumentNotScalar {
        template: "t".to_string(),
        param: "name".to_string(),
        span: span(2, 2),
    };
    assert_eq!(
        err.message(),
        "2:2: argument `name` for template `t` must be a scalar value (a list/map can't fill a single-value field)"
    );
}

#[test]
fn argument_not_reference_shaped_display() {
    let err = ComposeError::ArgumentNotReferenceShaped {
        template: "t".to_string(),
        param: "net".to_string(),
        span: span(2, 2),
    };
    assert_eq!(
        err.message(),
        "2:2: argument `net` for template `t` must be reference-shaped (a bare identifier, a quoted string, or `alias.name`) — found a number"
    );
}

#[test]
fn argument_not_numeric_display() {
    let err = ComposeError::ArgumentNotNumeric {
        template: "t".to_string(),
        param: "port".to_string(),
        found: "a quoted string",
        span: span(2, 2),
    };
    assert_eq!(
        err.message(),
        "2:2: argument `port` for template `t` must be a number (found a quoted string)"
    );
}

#[test]
fn field_not_numeric_display() {
    let err = ComposeError::FieldNotNumeric {
        field: "expose.port",
        found: "a quoted string",
        span: span(3, 3),
    };
    assert_eq!(
        err.message(),
        "3:3: `expose.port` must be a number (found a quoted string)"
    );
}

#[test]
fn field_base_not_declared_display() {
    let err = ComposeError::FieldBaseNotDeclared {
        base: "proxy".to_string(),
        span: span(5, 17),
    };
    assert_eq!(
        err.message(),
        "5:17: `proxy` names no `network` or `volume` declared in this program, so \
         `proxy.name` has no name to read — declare one, or write `alias.proxy.name` to \
         read an imported declaration"
    );
}

#[test]
fn field_base_not_declaration_display() {
    let err = ComposeError::FieldBaseNotDeclaration {
        base: "jellyfin".to_string(),
        found: "a service",
        span: span(4, 10),
    };
    assert_eq!(
        err.message(),
        "4:10: `jellyfin` is a service, and only a `network` or `volume` declaration \
         carries a name to read — name one of those instead"
    );
}

#[test]
fn unknown_declaration_field_display() {
    let err = ComposeError::UnknownDeclarationField {
        kind: "network",
        decl: "proxy".to_string(),
        field: "ports".to_string(),
        readable: Network::readable_fields(),
        span: span(7, 16),
    };
    assert_eq!(
        err.message(),
        "7:16: `network proxy` has no field `ports` — a network exposes `name`"
    );
}

#[test]
fn unknown_declaration_field_lists_every_readable_field() {
    let err = ComposeError::UnknownDeclarationField {
        kind: "volume",
        decl: "media".to_string(),
        field: "ports".to_string(),
        readable: Volume::readable_fields(),
        span: span(7, 16),
    };
    assert_eq!(
        err.message(),
        "7:16: `volume media` has no field `ports` — a volume exposes `name` and `driver`"
    );
}

#[test]
fn declaration_field_unset_display() {
    let err = ComposeError::DeclarationFieldUnset {
        kind: "volume",
        decl: "media".to_string(),
        field: "driver".to_string(),
        span: span(4, 20),
    };
    assert_eq!(
        err.message(),
        "4:20: `volume media` sets no `driver`, so there is no value to read — set one on \
         the declaration, or write the value here directly"
    );
}

#[test]
fn declaration_field_not_a_value_display() {
    let err = ComposeError::DeclarationFieldNotAValue {
        kind: "network",
        decl: "proxy".to_string(),
        field: "external".to_string(),
        what: "a bare-presence flag rather than a value",
        span: span(9, 11),
    };
    assert_eq!(
        err.message(),
        "9:11: `network proxy`'s `external` is a bare-presence flag rather than a value, so \
         it can't fill a value here"
    );
}

#[test]
fn unknown_qualified_declaration_display() {
    let err = ComposeError::UnknownQualifiedDeclaration {
        alias: "traefik".to_string(),
        name: "proxy".to_string(),
        span: span(6, 10),
    };
    assert_eq!(
        err.message(),
        "6:10: no network or volume `proxy` in `traefik`"
    );
}

#[test]
fn argument_cant_carry_field_display() {
    let err = ComposeError::ArgumentCantCarryField {
        template: "caddy".to_string(),
        param: "net".to_string(),
        found: "a number",
        span: span(12, 15),
    };
    assert_eq!(
        err.message(),
        "12:15: argument `net` for template `caddy` must name a `network` or `volume` \
         declaration to read a field off it (found a number)"
    );
}

#[test]
fn interpolated_field_access_too_deep_display() {
    let err = ComposeError::InterpolatedFieldAccessTooDeep {
        text: "a.b.c.d".to_string(),
        span: span(9, 12),
    };
    assert_eq!(
        err.message(),
        "9:12: `{{a.b.c.d}}` has too many parts to be a field access — write \
         `{{declaration.name}}`, or `{{alias.declaration.name}}` for an imported \
         declaration"
    );
}

#[test]
fn field_collision_display() {
    let err = ComposeError::FieldCollision {
        field: "image",
        first_template: "a".to_string(),
        second_template: "b".to_string(),
        first: span(1, 1),
        second: span(2, 1),
    };
    assert_eq!(
        err.message(),
        "2:1: field `image` set by both template `a` (at 1:1) and template `b`—explicit templates must not conflict"
    );
}

#[test]
fn map_key_collision_display_key_side() {
    let err = ComposeError::MapKeyCollision(Box::new(MapKeyCollision {
        field: "env",
        side: MapSide::Key,
        key: "FOO".to_string(),
        first_template: "a".to_string(),
        second_template: "b".to_string(),
        first: span(1, 1),
        second: span(2, 1),
    }));
    assert_eq!(
        err.message(),
        "2:1: `env` key \"FOO\" set by both template `a` (at 1:1) and template `b`—explicit templates must not conflict"
    );
}

#[test]
fn map_key_collision_display_value_side() {
    let err = ComposeError::MapKeyCollision(Box::new(MapKeyCollision {
        field: "volume",
        side: MapSide::Value,
        key: "/data".to_string(),
        first_template: "a".to_string(),
        second_template: "b".to_string(),
        first: span(1, 1),
        second: span(2, 1),
    }));
    assert_eq!(
        err.message(),
        "2:1: `volume` value \"/data\" set by both template `a` (at 1:1) and template `b`—explicit templates must not conflict"
    );
}

#[test]
fn unknown_alias_display() {
    let err = ComposeError::UnknownAlias {
        alias: "traefik".to_string(),
        span: span(1, 3),
    };
    assert_eq!(err.message(), "1:3: unknown alias `traefik`");
}

#[test]
fn qualified_argument_not_a_value_display() {
    let err = ComposeError::QualifiedArgumentNotAValue {
        template: "linuxserver_app".to_string(),
        alias: "shared".to_string(),
        name: "proxy".to_string(),
        span: span(9, 22),
    }
    .message();
    assert_eq!(
        err,
        "9:22: `shared.proxy` names a declaration in `shared`, and template \
         `linuxserver_app` uses it where a plain value belongs — a declaration reference \
         can only be attached by `networks`, or read from (`{{param.name}}`), so pass the \
         field itself (`shared.proxy.name`) instead"
    );
}

#[test]
fn unsupported_qualified_reference_display() {
    let err = ComposeError::UnsupportedQualifiedReference {
        field: "dns",
        alias: "traefik".to_string(),
        span: span(1, 3),
    }
    .message();
    assert_eq!(
        err,
        "1:3: `dns` doesn't support a qualified reference yet (`traefik.` ...)"
    );
}

#[test]
fn unknown_qualified_network_display() {
    let err = ComposeError::UnknownQualifiedNetwork {
        alias: "traefik".to_string(),
        name: "proxy".to_string(),
        span: span(2, 2),
    };
    assert_eq!(err.message(), "2:2: no network `proxy` in `traefik`");
}

#[test]
fn colliding_imported_network_display() {
    let err = ComposeError::CollidingImportedNetwork {
        alias: "ext".to_string(),
        name: "proxy".to_string(),
        span: span(7, 13),
    };
    assert_eq!(
        err.message(),
        "7:13: `ext.proxy` collides with another network named `proxy` already in \
         scope — networks are resolved by their bare name, so the two can't be told \
         apart; rename one of them"
    );
}

#[test]
fn unknown_qualified_volume_display() {
    let err = ComposeError::UnknownQualifiedVolume {
        alias: "storage".to_string(),
        name: "media".to_string(),
        span: span(2, 2),
    };
    assert_eq!(err.message(), "2:2: no volume `media` in `storage`");
}

#[test]
fn colliding_imported_volume_display() {
    let err = ComposeError::CollidingImportedVolume {
        alias: "storage".to_string(),
        name: "media".to_string(),
        span: span(7, 10),
    };
    assert_eq!(
        err.message(),
        "7:10: `storage.media` collides with another volume named `media` already in \
         scope — volumes are resolved by their bare name, so the two can't be told \
         apart; rename one of them"
    );
}
