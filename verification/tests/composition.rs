use hl_parser::compose::SymbolTable;
use hl_parser::{
    compose, compose_with_resolver, parse, ComposeError, ComposeWarning, ComposedProgram,
    DependsOnCondition, FileId, Ident, LexError, Literal, Network, Program, Service, Span,
    SymbolResolver, TemplateDecl, Token, TokenKind, TopDecl, Volume, MAX_TEMPLATE_DEPTH,
};

fn span(line: u32, col: u32) -> Span {
    Span {
        start: 0,
        end: 0,
        line,
        col,
        file: FileId::Anonymous,
    }
}

/// Turns a source text into the tokens a lexer hands over.
fn tokens(source: &str) -> Vec<Token> {
    let chars: Vec<char> = source.chars().collect();
    let mut out = Vec::new();
    let mut i = 0;
    let mut line = 1;
    let mut line_start = 0;
    while i < chars.len() {
        let c = chars[i];
        if c == '\n' {
            line += 1;
            line_start = i + 1;
            i += 1;
            continue;
        }
        if c.is_whitespace() {
            i += 1;
            continue;
        }
        let start = i;
        let mut content = Ok(String::new());
        let mut inner = String::new();
        let kind = if c.is_ascii_alphabetic() || c == '_' {
            while i < chars.len()
                && (chars[i].is_ascii_alphanumeric()
                    || chars[i] == '_'
                    || (chars[i] == '-' && chars.get(i + 1) != Some(&'>')))
            {
                i += 1;
            }
            let word: String = chars[start..i].iter().collect();
            if word == "template" {
                TokenKind::Template
            } else {
                TokenKind::Ident
            }
        } else if c.is_ascii_digit() {
            while i < chars.len() && chars[i].is_ascii_digit() {
                i += 1;
            }
            TokenKind::Number
        } else if c == '"' {
            i += 1;
            while chars[i] != '"' {
                i += 1;
            }
            i += 1;
            inner = chars[start + 1..i - 1].iter().collect();
            content = if inner.contains('\\') {
                Err(LexError {
                    text: format!("{line}:{}: bad escape", start - line_start + 1),
                    span: span(line, (start - line_start + 1) as u32),
                })
            } else {
                Ok(inner.clone())
            };
            TokenKind::Str
        } else {
            let next = chars.get(i + 1).copied();
            let (kind, width) = match (c, next) {
                ('-', Some('>')) => (TokenKind::Arrow, 2),
                ('&', Some('&')) => (TokenKind::AmpAmp, 2),
                ('|', Some('|')) => (TokenKind::PipePipe, 2),
                ('{', _) => (TokenKind::LBrace, 1),
                ('}', _) => (TokenKind::RBrace, 1),
                ('[', _) => (TokenKind::LBracket, 1),
                (']', _) => (TokenKind::RBracket, 1),
                ('(', _) => (TokenKind::LParen, 1),
                (')', _) => (TokenKind::RParen, 1),
                (':', _) => (TokenKind::Colon, 1),
                ('=', _) => (TokenKind::Equals, 1),
                (',', _) => (TokenKind::Comma, 1),
                ('.', _) => (TokenKind::Dot, 1),
                ('$', _) => (TokenKind::Dollar, 1),
                ('!', _) => (TokenKind::Bang, 1),
                _ => panic!("no token starts with {c}"),
            };
            i += width;
            kind
        };
        let lexeme: String = chars[start..i].iter().collect();
        out.push(Token {
            kind,
            lexeme: if kind == TokenKind::Str { inner } else { lexeme },
            content,
            span: Span {
                start,
                end: i,
                line,
                col: (start - line_start + 1) as u32,
                file: FileId::Anonymous,
            },
        });
    }
    out.push(Token {
        kind: TokenKind::Eof,
        lexeme: String::new(),
        content: Ok(String::new()),
        span: Span {
            start: i,
            end: i,
            line,
            col: (i - line_start + 1) as u32,
            file: FileId::Anonymous,
        },
    });
    out
}

fn program(source: &str) -> Program {
    match parse(Ok(tokens(source))) {
        Ok(program) => program,
        Err(error) => panic!("{}", error.message()),
    }
}

fn composed(source: &str) -> ComposedProgram {
    match compose(program(source)) {
        Ok(done) => done,
        Err(error) => panic!("{}", error.message()),
    }
}

fn refused(source: &str) -> ComposeError {
    match compose(program(source)) {
        Ok(_) => panic!("this should not compose"),
        Err(error) => error,
    }
}

fn text(lit: &Option<Literal>) -> &str {
    lit.as_ref().expect("it is set").text()
}

fn env(service: &Service, key: &str) -> String {
    let entry = service
        .fields
        .env
        .entries
        .iter()
        .find(|e| e.key.text() == key)
        .expect("the key is set");
    entry.value.text().to_string()
}

fn image(service: &Service) -> &str {
    text(&service.fields.image.as_ref().expect("it has one").reference)
}

#[test]
fn a_program_without_templates_stays_as_it_is() {
    let source = "network proxy {\n}\nvolume media {\n}\nservice web {\n image \"nginx\"\n networks [proxy]\n}";
    let done = composed(source);
    assert_eq!(done.networks.len(), 1);
    assert_eq!(done.volumes.len(), 1);
    assert_eq!(done.services.len(), 1);
    assert_eq!(image(&done.services[0]), "nginx");
    assert!(done.warnings.is_empty());
    assert_eq!(done.clone(), done);
}

#[test]
fn a_template_fills_what_the_service_leaves_open() {
    let done = composed(
        "template base {\n image \"base\"\n restart always\n env A = 1\n env B = 2\n}\nservice web {\n with base\n image \"own\"\n env B = 3\n}",
    );
    let web = &done.services[0];
    assert_eq!(image(web), "own");
    assert_eq!(text(&web.fields.restart.as_ref().unwrap().policy), "always");
    assert_eq!(env(web, "A"), "1");
    assert_eq!(env(web, "B"), "3");
    assert!(web.fields.with.is_empty());
}

#[test]
fn arguments_fill_parameters() {
    let done = composed(
        "template app(tag, port, nets) {\n image \"app:{{tag}}\"\n expose $port\n networks [$nets]\n env TAG = $tag\n}\nservice web {\n with app { tag: \"1.2\", port: 80, nets: [a, b] }\n}",
    );
    let web = &done.services[0];
    assert_eq!(image(web), "app:1.2");
    assert_eq!(text(&web.fields.expose.as_ref().unwrap().port), "80");
    assert_eq!(env(web, "TAG"), "1.2");
    let networks: Vec<&str> = web.fields.networks.iter().map(|n| n.text()).collect();
    assert_eq!(networks, vec!["a", "b"]);
}

#[test]
fn templates_nest() {
    let done = composed(
        "template inner(x) {\n env X = $x\n}\ntemplate outer(y) {\n with inner { x: $y }\n env Y = $y\n}\nservice web {\n with outer { y: \"v\" }\n}",
    );
    assert_eq!(env(&done.services[0], "X"), "v");
    assert_eq!(env(&done.services[0], "Y"), "v");
}

#[test]
fn lists_from_every_tier_come_together_once() {
    let done = composed(
        "template a {\n networks [x, y]\n}\ntemplate b {\n networks [y, z]\n}\nservice web {\n with [a, b]\n networks [x, w]\n}",
    );
    let mut networks: Vec<&str> = done.services[0]
        .fields
        .networks
        .iter()
        .map(|n| n.text())
        .collect();
    networks.sort();
    assert_eq!(networks, vec!["w", "x", "y", "z"]);
}

#[test]
fn field_accesses_become_the_docker_name() {
    let done = composed(
        "network proxy {\n name: \"proxy_net\"\n}\nvolume media {\n driver: local\n}\ntemplate t(net) {\n env A = $net.name\n env B = \"n={{net.name}}\"\n}\nservice web {\n with t { net: proxy }\n env C = media.name\n env D = media.driver\n env E = \"{{proxy.name}}\"\n}",
    );
    let web = &done.services[0];
    assert_eq!(env(web, "A"), "proxy_net");
    assert_eq!(env(web, "B"), "n=proxy_net");
    assert_eq!(env(web, "C"), "media");
    assert_eq!(env(web, "D"), "local");
    assert_eq!(env(web, "E"), "proxy_net");
}

#[test]
fn agreeing_dependencies_merge_and_keep_the_condition() {
    let done = composed(
        "template a {\n depends_on [db { condition: service_healthy }]\n}\ntemplate b {\n depends_on [db { condition: service_healthy }]\n}\nservice web {\n with [a, b]\n}",
    );
    let entries = &done.services[0].fields.depends_on;
    assert_eq!(entries.len(), 1);
    assert_eq!(
        entries[0].effective_condition(),
        DependsOnCondition::ServiceHealthy
    );
}

#[test]
fn label_lists_come_together() {
    let done = composed(
        "template a {\n labels { tags: [\"x\"] }\n}\ntemplate b {\n labels { tags: [\"y\"] }\n}\nservice web {\n with [a, b]\n labels { tags: [\"z\"] }\n}",
    );
    let entries = &done.services[0].fields.labels.entries;
    assert_eq!(entries.len(), 1);
    let mut parts: Vec<String> = entries[0].value.text().split(',').map(String::from).collect();
    parts.sort();
    assert_eq!(parts, vec!["x", "y", "z"]);
}

#[test]
fn a_dollar_inside_a_string_is_warned_of_once() {
    let done = composed(
        "template t(host) {\n env A = \"$host\"\n}\nservice one {\n with t { host: \"h\" }\n}\nservice two {\n with t { host: \"h\" }\n}",
    );
    assert_eq!(env(&done.services[0], "A"), "$host");
    assert_eq!(done.warnings.len(), 1);
    assert!(matches!(
        &done.warnings[0],
        ComposeWarning::InertParameterInString { param, .. } if param == "host"
    ));
}

#[test]
fn a_name_parameter_in_a_string_is_warned_of() {
    let done = composed(
        "template t(name) {\n env A = \"{{name}}\"\n}\nservice web {\n with t { name: \"h\" }\n}",
    );
    assert!(matches!(
        &done.warnings[0],
        ComposeWarning::NameParameterNotInterpolated { .. }
    ));
    assert_eq!(env(&done.services[0], "A"), "{{name}}");
}

#[test]
fn templates_may_move_and_uses_are_inert() {
    let program = program(
        "template a {\n with b\n env A = 1\n}\ntemplate b {\n env B = 2\n}\nnetwork n {\n}\nservice s {\n with a\n}\nvolume v {\n}",
    );
    let mut moved = program.clone();
    let first = moved.decls.remove(0);
    moved.decls.push(first);
    let imports = match parse(Ok(tokens("use \"lib.hll\" as lib"))) {
        Ok(imports) => imports,
        Err(error) => panic!("{}", error.message()),
    };
    moved.decls.insert(1, imports.decls[0].clone());
    let done = compose(program).unwrap();
    assert_eq!(env(&done.services[0], "B"), "2");
    assert_eq!(compose(moved).unwrap(), done);
}

#[test]
fn names_are_declared_once() {
    assert!(matches!(
        refused("service a {\n}\nservice a {\n}"),
        ComposeError::DuplicateServiceName { .. }
    ));
    assert!(matches!(
        refused("network a {\n}\nnetwork a {\n}"),
        ComposeError::DuplicateNetworkName { .. }
    ));
    assert!(matches!(
        refused("volume a {\n}\nvolume a {\n}"),
        ComposeError::DuplicateVolumeName { .. }
    ));
    assert!(matches!(
        refused("template a {\n}\ntemplate a {\n}"),
        ComposeError::DuplicateTemplateName { .. }
    ));
    let done = composed("network a {\n}\nvolume a {\n}\nservice a {\n}\ntemplate a {\n}");
    assert_eq!(done.services.len(), 1);
}

#[test]
fn invocations_name_templates_and_their_parameters() {
    assert_eq!(
        refused("service web {\n with base\n}").message(),
        "2:7: unknown template `base`"
    );
    let t = "template t(a) {\n env A = $a\n}\n";
    assert!(matches!(
        refused(&format!("{t}service web {{\n with t {{ a: 1, b: 2 }}\n}}")),
        ComposeError::UnknownTemplateArgument { .. }
    ));
    assert!(matches!(
        refused(&format!("{t}service web {{\n with t\n}}")),
        ComposeError::MissingTemplateArgument { .. }
    ));
    assert!(matches!(
        refused(&format!("{t}service web {{\n with t {{ a: 1, a: 2 }}\n}}")),
        ComposeError::DuplicateTemplateArgument { .. }
    ));
    assert!(matches!(
        refused(&format!("{t}service web {{\n with t {{ a: [1] }}\n}}")),
        ComposeError::TemplateArgumentNotScalar { .. }
    ));
    assert!(matches!(
        refused("service web {\n with lib.base\n}"),
        ComposeError::UnknownAlias { .. }
    ));
}

#[test]
fn arguments_have_to_fit_the_field() {
    assert!(matches!(
        refused("template t(n) {\n networks [$n]\n}\nservice web {\n with t { n: 1 }\n}"),
        ComposeError::ArgumentNotReferenceShaped { .. }
    ));
    assert!(matches!(
        refused("template t(p) {\n expose $p\n}\nservice web {\n with t { p: \"x\" }\n}"),
        ComposeError::ArgumentNotNumeric { .. }
    ));
    assert!(matches!(
        refused("service web {\n expose \"x\"\n}"),
        ComposeError::FieldNotNumeric { .. }
    ));
    assert!(matches!(
        refused("template t(p) {\n env A = \"{{p}}\"\n}\nservice web {\n with t { p: { a: 1 } }\n}"),
        ComposeError::ArgumentNotInterpolable { .. }
    ));
    assert!(matches!(
        refused("template t(p) {\n env A = $p.name\n}\nservice web {\n with t { p: 1 }\n}"),
        ComposeError::ArgumentCantCarryField { .. }
    ));
}

#[test]
fn field_accesses_name_declarations_and_their_fields() {
    assert!(matches!(
        refused("service web {\n env A = proxy.name\n}"),
        ComposeError::FieldBaseNotDeclared { .. }
    ));
    assert!(matches!(
        refused("service web {\n env A = web.name\n}"),
        ComposeError::FieldBaseNotDeclaration { .. }
    ));
    assert!(matches!(
        refused("network proxy {\n}\nservice web {\n env A = proxy.ports\n}"),
        ComposeError::UnknownDeclarationField { .. }
    ));
    assert!(matches!(
        refused("volume media {\n}\nservice web {\n env A = media.driver\n}"),
        ComposeError::DeclarationFieldUnset { .. }
    ));
    assert!(matches!(
        refused("network proxy {\n}\nservice web {\n env A = proxy.external\n}"),
        ComposeError::DeclarationFieldNotAValue { .. }
    ));
    assert!(matches!(
        refused("service web {\n env A = \"{{a.b.c.d}}\"\n}"),
        ComposeError::InterpolatedFieldAccessTooDeep { .. }
    ));
}

#[test]
fn templates_must_not_conflict() {
    assert!(matches!(
        refused("template a {\n restart always\n}\ntemplate b {\n restart no\n}\nservice web {\n with [a, b]\n}"),
        ComposeError::FieldCollision { field: "restart.policy", .. }
    ));
    assert!(matches!(
        refused("template a {\n env A = 1\n}\ntemplate b {\n env A = 1\n}\nservice web {\n with [a, b]\n}"),
        ComposeError::MapKeyCollision(_)
    ));
    assert!(matches!(
        refused("template a {\n labels { k: [\"x\"] }\n}\nservice web {\n with a\n labels { k: \"y\" }\n}"),
        ComposeError::LabelShapeMismatch { .. }
    ));
}

#[test]
fn cycles_are_refused() {
    assert_eq!(
        refused("template a {\n with b\n}\ntemplate b {\n with a\n}\nservice web {\n with a\n}")
            .message(),
        "1:10: template composition cycle: a -> b -> a"
    );
}

#[test]
fn nesting_ends_at_the_limit() {
    let chain = |length: usize| {
        let mut source = String::new();
        for k in 0..length {
            if k + 1 < length {
                source.push_str(&format!("template t{k} {{\n with t{}\n}}\n", k + 1));
            } else {
                source.push_str(&format!("template t{k} {{\n env A = 1\n}}\n"));
            }
        }
        source.push_str("service web {\n with t0\n}");
        source
    };
    assert_eq!(
        env(&composed(&chain(MAX_TEMPLATE_DEPTH)).services[0], "A"),
        "1"
    );
    assert!(matches!(
        refused(&chain(MAX_TEMPLATE_DEPTH + 1)),
        ComposeError::TemplateNestingTooDeep { limit: 64, .. }
    ));
}

#[test]
fn qualified_references_need_an_alias() {
    assert!(matches!(
        refused("service web {\n networks [lib.proxy]\n}"),
        ComposeError::UnknownAlias { .. }
    ));
    assert!(matches!(
        refused("service web {\n dns [lib.proxy]\n}"),
        ComposeError::UnsupportedQualifiedReference { field: "dns", .. }
    ));
}

/// An entry file, in scope 0, that imports one library, in scope 1, as
/// `lib`.
struct TwoFiles {
    entry: Program,
    library: Program,
}

impl TwoFiles {
    fn file(&self, scope: u8) -> &Program {
        if scope == 0 {
            &self.entry
        } else {
            &self.library
        }
    }

    fn aliased(&self, scope: u8, qualifier: &Ident, span: Span) -> Result<u8, ComposeError> {
        if scope == 0 && qualifier.name == "lib" {
            Ok(1)
        } else {
            Err(ComposeError::UnknownAlias {
                alias: qualifier.name.clone(),
                span,
            })
        }
    }
}

impl SymbolResolver for TwoFiles {
    type Scope = u8;

    fn table(&self) -> SymbolTable<u8> {
        unreachable!("only contracts speak of the table")
    }

    fn resolve_template(
        &self,
        scope: u8,
        qualifier: Option<&Ident>,
        name: &str,
        span: Span,
    ) -> Result<(u8, &TemplateDecl), ComposeError> {
        let home = match qualifier {
            Some(q) => self.aliased(scope, q, q.span)?,
            None => scope,
        };
        for decl in &self.file(home).decls {
            if let TopDecl::Template(t) = decl {
                if t.name.name == name {
                    return Ok((home, t));
                }
            }
        }
        Err(ComposeError::UnknownTemplate {
            name: name.to_string(),
            span,
        })
    }

    fn resolve_qualified_network(
        &self,
        scope: u8,
        qualifier: &Ident,
        name: &str,
        span: Span,
    ) -> Result<&Network, ComposeError> {
        let home = self.aliased(scope, qualifier, span)?;
        for decl in &self.file(home).decls {
            if let TopDecl::Network(n) = decl {
                if n.name.name == name {
                    return Ok(n);
                }
            }
        }
        Err(ComposeError::UnknownQualifiedNetwork {
            alias: qualifier.name.clone(),
            name: name.to_string(),
            span,
        })
    }

    fn resolve_qualified_volume(
        &self,
        scope: u8,
        qualifier: &Ident,
        name: &str,
        span: Span,
    ) -> Result<&Volume, ComposeError> {
        let home = self.aliased(scope, qualifier, span)?;
        for decl in &self.file(home).decls {
            if let TopDecl::Volume(v) = decl {
                if v.name.name == name {
                    return Ok(v);
                }
            }
        }
        Err(ComposeError::UnknownQualifiedVolume {
            alias: qualifier.name.clone(),
            name: name.to_string(),
            span,
        })
    }
}

fn linked(entry: &str, library: &str) -> Result<ComposedProgram, ComposeError> {
    let files = TwoFiles {
        entry: program(entry),
        library: program(library),
    };
    let mut networks = Vec::new();
    let mut volumes = Vec::new();
    let mut services = Vec::new();
    for decl in &files.entry.decls {
        match decl {
            TopDecl::Network(n) => networks.push(n.clone()),
            TopDecl::Volume(v) => volumes.push(v.clone()),
            TopDecl::Service(s) => services.push((**s).clone()),
            _ => {}
        }
    }
    compose_with_resolver(networks, volumes, services, 0, &files)
}

const LIBRARY: &str = "network proxy {\n external\n name: \"shared_proxy\"\n}\nvolume media {\n}\nvolume proxy_data {\n}\ntemplate inner {\n env INNER = 1\n}\ntemplate base {\n with inner\n env NET = proxy_name\n}\ntemplate attach(net) {\n networks [$net]\n env NAME = $net.name\n}";

#[test]
fn imported_templates_mean_what_they_mean_at_home() {
    let done = linked("service web {\n with lib.base\n}", LIBRARY).unwrap();
    assert_eq!(env(&done.services[0], "INNER"), "1");
    assert!(matches!(
        linked("service web {\n with inner\n}", LIBRARY),
        Err(ComposeError::UnknownTemplate { .. })
    ));
}

#[test]
fn imported_declarations_join_the_program() {
    let done = linked(
        "network own {\n}\nservice web {\n networks [own, lib.proxy]\n volume lib.media -> \"/media\"\n env N = lib.proxy.name\n}",
        LIBRARY,
    )
    .unwrap();
    let names: Vec<&str> = done.networks.iter().map(|n| n.name.name.as_str()).collect();
    assert_eq!(names, vec!["own", "proxy"]);
    assert_eq!(done.volumes[0].name.name, "media");
    let networks: Vec<&str> = done.services[0]
        .fields
        .networks
        .iter()
        .map(|n| n.text())
        .collect();
    assert_eq!(networks, vec!["own", "proxy"]);
    assert_eq!(env(&done.services[0], "N"), "shared_proxy");
}

#[test]
fn a_declaration_can_be_an_argument() {
    let done = linked(
        "service web {\n with lib.attach { net: lib.proxy }\n}",
        LIBRARY,
    )
    .unwrap();
    assert_eq!(done.networks[0].name.name, "proxy");
    assert_eq!(env(&done.services[0], "NAME"), "shared_proxy");
    assert_eq!(done.services[0].fields.networks[0].text(), "proxy");
}

#[test]
fn imported_names_are_checked() {
    assert!(matches!(
        linked("service web {\n networks [lib.nope]\n}", LIBRARY),
        Err(ComposeError::UnknownQualifiedNetwork { .. })
    ));
    assert!(matches!(
        linked("service web {\n volume lib.nope -> \"/x\"\n}", LIBRARY),
        Err(ComposeError::UnknownQualifiedVolume { .. })
    ));
    assert!(matches!(
        linked("service web {\n env A = lib.nope.name\n}", LIBRARY),
        Err(ComposeError::UnknownQualifiedDeclaration { .. })
    ));
    assert!(matches!(
        linked("network proxy {\n}\nservice web {\n networks [lib.proxy]\n}", LIBRARY),
        Err(ComposeError::CollidingImportedNetwork { .. })
    ));
    assert!(matches!(
        linked("volume media {\n}\nservice web {\n volume lib.media -> \"/x\"\n}", LIBRARY),
        Err(ComposeError::CollidingImportedVolume { .. })
    ));
    assert!(matches!(
        linked(
            "template t(p) {\n env A = $p\n}\nservice web {\n with t { p: lib.proxy }\n}",
            LIBRARY
        ),
        Err(ComposeError::QualifiedArgumentNotAValue { .. })
    ));
}
