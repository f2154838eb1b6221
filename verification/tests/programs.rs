use hl_parser::match_expr::MAX_MATCH_EXPR_DEPTH;
use hl_parser::parser::Parser;
use hl_parser::{
    parse, parse_in_file, ArrowMapHost, Command, DependsOnCondition, FileId, LabelValue, LexError, Literal,
    MatchExpr, ParseError, Program, RawValue, Service, Span, Token, TokenKind, TopDecl,
    MAX_RAW_VALUE_DEPTH,
};

fn span(line: u32, col: u32) -> Span {
    Span {
        start: 0,
        end: 0,
        line,
        col,
        file: FileId::Anonymous,
    }
}

/// Turns a source text into the tokens a lexer hands over.
fn tokens(source: &str) -> Vec<Token> {
    let chars: Vec<char> = source.chars().collect();
    let mut out = Vec::new();
    let mut i = 0;
    let mut line = 1;
    let mut line_start = 0;
    while i < chars.len() {
        let c = chars[i];
        if c == '\n' {
            line += 1;
            line_start = i + 1;
            i += 1;
            continue;
        }
        if c.is_whitespace() {
            i += 1;
            continue;
        }
        let start = i;
        let mut content = Ok(String::new());
        let mut inner = String::new();
        let kind = if c.is_ascii_alphabetic() || c == '_' {
            while i < chars.len()
                && (chars[i].is_ascii_alphanumeric()
                    || chars[i] == '_'
                    || (chars[i] == '-' && chars.get(i + 1) != Some(&'>')))
            {
                i += 1;
            }
            let word: String = chars[start..i].iter().collect();
            if word == "template" {
                TokenKind::Template
            } else {
                TokenKind::Ident
            }
        } else if c.is_ascii_digit() {
            while i < chars.len() && chars[i].is_ascii_digit() {
                i += 1;
            }
            TokenKind::Number
        } else if c == '"' {
            i += 1;
            while chars[i] != '"' {
                i += 1;
            }
            i += 1;
            inner = chars[start + 1..i - 1].iter().collect();
            content = if inner.contains('\\') {
                Err(LexError {
                    text: format!("{line}:{}: bad escape", start - line_start + 1),
                    span: span(line, (start - line_start + 1) as u32),
                })
            } else {
                Ok(inner.clone())
            };
            TokenKind::Str
        } else {
            let next = chars.get(i + 1).copied();
            let (kind, width) = match (c, next) {
                ('-', Some('>')) => (TokenKind::Arrow, 2),
                ('&', Some('&')) => (TokenKind::AmpAmp, 2),
                ('|', Some('|')) => (TokenKind::PipePipe, 2),
                ('{', _) => (TokenKind::LBrace, 1),
                ('}', _) => (TokenKind::RBrace, 1),
                ('[', _) => (TokenKind::LBracket, 1),
                (']', _) => (TokenKind::RBracket, 1),
                ('(', _) => (TokenKind::LParen, 1),
                (')', _) => (TokenKind::RParen, 1),
                (':', _) => (TokenKind::Colon, 1),
                ('=', _) => (TokenKind::Equals, 1),
                (',', _) => (TokenKind::Comma, 1),
                ('.', _) => (TokenKind::Dot, 1),
                ('$', _) => (TokenKind::Dollar, 1),
                ('!', _) => (TokenKind::Bang, 1),
                _ => panic!("no token starts with {c}"),
            };
            i += width;
            kind
        };
        let lexeme: String = chars[start..i].iter().collect();
        out.push(Token {
            kind,
            lexeme: if kind == TokenKind::Str { inner } else { lexeme },
            content,
            span: Span {
                start,
                end: i,
                line,
                col: (start - line_start + 1) as u32,
                file: FileId::Anonymous,
            },
        });
    }
    out.push(Token {
        kind: TokenKind::Eof,
        lexeme: String::new(),
        content: Ok(String::new()),
        span: Span {
            start: i,
            end: i,
            line,
            col: (i - line_start + 1) as u32,
            file: FileId::Anonymous,
        },
    });
    out
}

fn program(source: &str) -> Program {
    match parse(Ok(tokens(source))) {
        Ok(program) => program,
        Err(error) => panic!("{}", error.message()),
    }
}

fn parse_error(source: &str) -> ParseError {
    match parse(Ok(tokens(source))) {
        Ok(_) => panic!("this should not parse"),
        Err(error) => error,
    }
}

fn service(program: &Program, at: usize) -> &Service {
    match &program.decls[at] {
        TopDecl::Service(service) => service,
        _ => panic!("not a service"),
    }
}

fn text(lit: &Option<Literal>) -> &str {
    lit.as_ref().expect("it is set").text()
}

#[test]
fn a_service_holds_what_its_fields_say() {
    let program = program(
        "service jellyfin {\n  image \"jellyfin/jellyfin:latest\"\n  expose 8096\n  restart unless-stopped\n}\n",
    );
    assert_eq!(program.decls.len(), 1);
    let jellyfin = service(&program, 0);
    assert_eq!(jellyfin.name.name, "jellyfin");
    assert_eq!(
        text(&jellyfin.fields.image.as_ref().unwrap().reference),
        "jellyfin/jellyfin:latest"
    );
    assert_eq!(
        jellyfin.fields.expose.as_ref().unwrap().port,
        Some(Literal::Number {
            text: "8096".to_string(),
            value: 8096,
            span: Span {
                start: 63,
                end: 67,
                line: 3,
                col: 10,
                file: FileId::Anonymous
            },
        })
    );
    assert_eq!(
        text(&jellyfin.fields.restart.as_ref().unwrap().policy),
        "unless-stopped"
    );
    assert!(jellyfin.fields.build.is_none());
}

#[test]
fn colon_and_braces_are_sugar() {
    let bare = program("service web {\n image \"nginx\"\n env A = \"1\"\n}");
    let full = program("service web {\n image: { ref: \"nginx\" }\n env: { A: \"1\" }\n}");
    assert_eq!(
        text(&service(&bare, 0).fields.image.as_ref().unwrap().reference),
        text(&service(&full, 0).fields.image.as_ref().unwrap().reference)
    );
    assert_eq!(service(&bare, 0).fields.env.entries[0].key.text(), "A");
    assert_eq!(service(&full, 0).fields.env.entries[0].key.text(), "A");
    assert_eq!(service(&full, 0).fields.env.entries[0].value.text(), "1");
}

#[test]
fn secondary_fields_follow_a_comma() {
    let program = program("service web {\n build \"./web\", dockerfile: \"Dockerfile.dev\"\n}");
    let build = service(&program, 0).fields.build.as_ref().unwrap();
    assert_eq!(text(&build.context), "./web");
    assert_eq!(text(&build.dockerfile), "Dockerfile.dev");
}

#[test]
fn maps_and_lists_accumulate_over_statements() {
    let program = program(
        "service web {\n env A = 1\n env B = 2\n networks [a, b]\n networks c\n publish 8080 -> 80\n volume data -> \"/data\" { read_only }\n volume \"/srv\" -> \"/srv\"\n}",
    );
    let fields = &service(&program, 0).fields;
    let keys: Vec<&str> = fields.env.entries.iter().map(|e| e.key.text()).collect();
    assert_eq!(keys, vec!["A", "B"]);
    let networks: Vec<&str> = fields.networks.iter().map(|n| n.text()).collect();
    assert_eq!(networks, vec!["a", "b", "c"]);
    assert_eq!(fields.publish.entries[0].host.text(), "8080");
    assert_eq!(fields.publish.entries[0].container.text(), "80");
    assert!(fields.volumes.entries[0].read_only);
    assert!(matches!(
        fields.volumes.entries[0].host,
        ArrowMapHost::Named(_)
    ));
    assert!(!fields.volumes.entries[1].read_only);
    assert!(matches!(
        fields.volumes.entries[1].host,
        ArrowMapHost::BindMount(_)
    ));
}

#[test]
fn depends_on_reads_conditions() {
    let program = program(
        "service web {\n depends_on [db { condition: service_healthy }, cache]\n}",
    );
    let entries = &service(&program, 0).fields.depends_on;
    assert_eq!(entries.len(), 2);
    assert_eq!(
        entries[0].effective_condition(),
        DependsOnCondition::ServiceHealthy
    );
    assert_eq!(
        entries[1].effective_condition(),
        DependsOnCondition::ServiceStarted
    );
    assert!(entries[1].condition.is_none());
}

#[test]
fn commands_are_a_value_or_a_list() {
    let program = program("service web {\n command \"npm start\"\n entrypoint: [\"sh\", \"-c\"]\n}");
    let fields = &service(&program, 0).fields;
    assert!(matches!(&fields.command, Some(Command::Shell(lit)) if lit.text() == "npm start"));
    match &fields.entrypoint {
        Some(hl_parser::Entrypoint::Exec(items, _)) => assert_eq!(items.len(), 2),
        _ => panic!("not a list"),
    }
}

#[test]
fn raw_values_nest() {
    let program = program("service web {\n raw { deploy: { replicas: 2, tags: [\"a\", \"b\"] } }\n}");
    let entry = &service(&program, 0).fields.raw.entries[0];
    assert_eq!(entry.key.text(), "deploy");
    match &entry.value {
        RawValue::Mapping(pairs, _) => {
            assert_eq!(pairs[0].0.text(), "replicas");
            assert!(matches!(&pairs[1].1, RawValue::List(items, _) if items.len() == 2));
        }
        _ => panic!("not a map"),
    }
}

#[test]
fn labels_hold_one_value_or_several() {
    let program = program("service web {\n labels { owner: \"me\", tags: [\"a\", \"b\"] }\n}");
    let entries = &service(&program, 0).fields.labels.entries;
    assert_eq!(entries[0].value.text(), "me");
    assert_eq!(entries[1].value.text(), "a,b");
    assert_eq!(entries[0].value.shape(), "a single value");
    assert_eq!(entries[1].value.shape(), "a list");
    let loud = entries[1]
        .value
        .join(|lit: &Literal| Ok::<String, ()>(lit.text().to_uppercase()));
    assert_eq!(loud, Ok("A,B".to_string()));
    let failed = entries[1].value.join(|lit: &Literal| {
        if lit.text() == "b" {
            Err("no b")
        } else {
            Ok(String::new())
        }
    });
    assert_eq!(failed, Err("no b"));
}

#[test]
fn label_literals_can_be_written_through() {
    let mut value = LabelValue::List(
        vec![
            Literal::Ident("a".to_string(), span(1, 1)),
            Literal::Ident("b".to_string(), span(1, 2)),
        ],
        span(1, 1),
    );
    for lit in value.literals_mut() {
        *lit = Literal::Str(format!("{}!", lit.text()), lit.span());
    }
    assert_eq!(value.text(), "a!,b!");
    let mut single = LabelValue::Scalar(Literal::Ident("c".to_string(), span(1, 1)));
    assert_eq!(single.literals_mut().len(), 1);
}

#[test]
fn a_field_access_has_three_spellings() {
    let program = program(
        "template t(net) {\n container_name: $net.name\n env A = proxy.name\n env B = traefik.proxy.name\n}",
    );
    let fields = match &program.decls[0] {
        TopDecl::Template(t) => &t.fields,
        _ => panic!("not a template"),
    };
    let dotted = |lit: &Literal| match lit {
        Literal::Field(access) => access.dotted(),
        _ => panic!("not a field access"),
    };
    assert_eq!(dotted(fields.container_name.as_ref().unwrap()), "$net.name");
    assert_eq!(dotted(&fields.env.entries[0].value), "proxy.name");
    assert_eq!(dotted(&fields.env.entries[1].value), "traefik.proxy.name");
}

#[test]
fn top_level_declarations_keep_their_order() {
    let program = program(
        "use \"lib.hll\" as lib\nnetwork proxy {\n external\n name: \"proxy_net\"\n}\nvolume media {\n driver: local\n driver_opts { type: nfs }\n}\ntemplate t {\n privileged\n}\nservice s {\n}\n",
    );
    assert_eq!(program.decls.len(), 5);
    match &program.decls[0] {
        TopDecl::Use(u) => {
            assert_eq!(u.path.text(), "lib.hll");
            assert_eq!(u.alias.name, "lib");
        }
        _ => panic!("not a use"),
    }
    match &program.decls[1] {
        TopDecl::Network(n) => {
            assert!(n.external.is_some());
            assert_eq!(n.docker_name(), "proxy_net");
        }
        _ => panic!("not a network"),
    }
    match &program.decls[2] {
        TopDecl::Volume(v) => {
            assert_eq!(v.docker_name(), "media");
            assert_eq!(v.driver_opts[0].key.text(), "type");
        }
        _ => panic!("not a volume"),
    }
    let copy = program.clone();
    assert_eq!(copy, program);
}

#[test]
fn every_place_lies_in_the_file() {
    let source = "use \"l\" as l\nnetwork n {\n name: \"x\"\n}\ntemplate t(a) {\n env A = $a\n}\nservice s {\n image \"i\"\n with t { a: [1, { b: c }] }\n volume v -> \"/v\"\n}";
    let program = match parse_in_file(Ok(tokens(source)), FileId::Interned(3)) {
        Ok(program) => program,
        Err(error) => panic!("{}", error.message()),
    };
    let shown = format!("{program:?}");
    assert!(shown.contains("Interned(3)"));
    assert!(!shown.contains("Anonymous"));
    let error = parse_in_file(Ok(tokens("widget w {\n}")), FileId::Interned(4)).unwrap_err();
    assert_eq!(error.span().file, FileId::Interned(4));
    let error = parse_in_file(
        Err(vec![LexError {
            text: "bad".to_string(),
            span: span(1, 1),
        }]),
        FileId::Interned(5),
    )
    .unwrap_err();
    assert_eq!(error.span().file, FileId::Interned(5));
}

#[test]
fn parsing_in_a_file_changes_places_only() {
    let source = "template t(a) {\n image \"i:{{a}}\"\n}\nservice s {\n with t { a: [1, b] }\n env A = n.name\n}";
    let own = format!("{:?}", program(source));
    let there = format!(
        "{:?}",
        parse_in_file(Ok(tokens(source)), FileId::Interned(7)).unwrap()
    );
    assert_ne!(own, there);
    assert_eq!(own.replace("Anonymous", "Interned(7)"), there);
    let wrong = "service s {\n env A = 1\n env A = 2\n}";
    let own = format!("{:?}", parse_error(wrong));
    let there = format!(
        "{:?}",
        parse_in_file(Ok(tokens(wrong)), FileId::Interned(7)).unwrap_err()
    );
    assert_eq!(own.replace("Anonymous", "Interned(7)"), there);
}

#[test]
fn labels_are_rendered_in_order_up_to_an_error() {
    let value = LabelValue::List(
        vec![
            Literal::Ident("a".to_string(), span(1, 1)),
            Literal::Ident("b".to_string(), span(1, 2)),
            Literal::Ident("c".to_string(), span(1, 3)),
        ],
        span(1, 1),
    );
    let seen = std::cell::RefCell::new(Vec::new());
    let numbered = value.join(|lit: &Literal| {
        seen.borrow_mut().push(lit.text().to_string());
        Ok::<String, ()>(seen.borrow().len().to_string())
    });
    assert_eq!(numbered, Ok("1,2,3".to_string()));
    let stopped = value.join(|lit: &Literal| {
        seen.borrow_mut().push(lit.text().to_string());
        if lit.text() == "b" {
            Err("stop")
        } else {
            Ok(String::new())
        }
    });
    assert_eq!(stopped, Err("stop"));
    assert_eq!(seen.into_inner(), vec!["a", "b", "c", "a", "b"]);
}

#[test]
fn lexer_errors_are_passed_on() {
    let error = parse(Err(vec![LexError {
        text: "1:1: bad".to_string(),
        span: span(1, 1),
    }]))
    .unwrap_err();
    assert_eq!(error.message(), "1:1: bad");
    assert_eq!(error.span(), span(1, 1));
    let escaped = parse_error("service web {\n image \"a\\q\"\n}");
    assert!(matches!(escaped, ParseError::Lex(_)));
    assert_eq!(escaped.message(), "2:8: bad escape");
}

#[test]
fn unexpected_tokens_are_named() {
    assert_eq!(
        parse_error("service {").message(),
        "1:9: expected an identifier, found `{`"
    );
    assert_eq!(
        parse_error("service web {\n image }").message(),
        "2:8: expected a value or `{`, found `}`"
    );
    assert_eq!(
        parse_error("service web {\n image \"a\" restart always\n}").message(),
        "2:12: expected a newline before the next field, found an identifier \"restart\""
    );
    assert_eq!(
        parse_error("service web {\n env { A: 1 B: 2 }\n}").message(),
        "2:13: expected a comma or a newline before the next entry, found an identifier \"B\""
    );
    assert_eq!(
        parse_error("service web {\n privileged: 1\n}").message(),
        "2:12: expected no value — this flag is set by bare presence only, found `:`"
    );
    assert_eq!(
        parse_error("service web {\n healthcheck 1\n}").message(),
        "2:14: expected `{`, found a number \"1\""
    );
}

#[test]
fn unknown_types_and_fields_are_named() {
    assert!(matches!(
        parse_error("widget w {\n}"),
        ParseError::UnknownTopLevelType { .. }
    ));
    assert!(matches!(
        parse_error("service web {\n ports 1\n}"),
        ParseError::UnknownField {
            raw_escape_hatch: true,
            ..
        }
    ));
    assert!(matches!(
        parse_error("service web {\n expose { bogus: 1 }\n}"),
        ParseError::UnknownField {
            raw_escape_hatch: false,
            ..
        }
    ));
    assert!(matches!(
        parse_error("service web {\n router api\n}"),
        ParseError::MovedField { .. }
    ));
    assert!(matches!(
        parse_error("service web {\n expose 80 as \"web.example.com\"\n}"),
        ParseError::RemovedExposeAsSugar { .. }
    ));
}

#[test]
fn duplicates_are_refused_where_they_stand() {
    assert_eq!(
        parse_error("service web {\n image \"a\"\n image \"b\"\n}").message(),
        "3:8: duplicate field `image` on `service` (first set at 2:8)"
    );
    assert_eq!(
        parse_error("service web {\n env A = 1\n env A = 2\n}").message(),
        "3:6: duplicate `env` entry: key \"A\" already set at 2:6"
    );
    assert_eq!(
        parse_error("service web {\n publish 1 -> 80\n publish 2 -> 80\n}").message(),
        "3:10: duplicate `publish` entry: value \"80\" already set at 2:10"
    );
    assert_eq!(
        parse_error("service web {\n labels { a: 1, a: 2 }\n}").message(),
        "2:17: duplicate `labels` entry: key \"a\" already set at 2:11"
    );
    assert_eq!(
        parse_error("service web {\n raw { a: { b: 1, b: 2 } }\n}").message(),
        "2:19: duplicate `raw` entry: key \"b\" already set at 2:13"
    );
    assert_eq!(
        parse_error("template t(a, a) {\n}").message(),
        "1:15: duplicate parameter `a` (first declared at 1:12)"
    );
}

#[test]
fn numbers_fit_in_sixty_four_bits() {
    let program = program("service web {\n expose 18446744073709551615\n}");
    assert!(matches!(
        service(&program, 0).fields.expose.as_ref().unwrap().port,
        Some(Literal::Number {
            value: u64::MAX,
            ..
        })
    ));
    assert!(matches!(
        parse_error("service web {\n expose 18446744073709551616\n}"),
        ParseError::NumberOutOfRange { .. }
    ));
}

#[test]
fn parameters_belong_to_their_template() {
    assert!(matches!(
        parse_error("service web {\n image $x\n}"),
        ParseError::ParamReferenceOutsideTemplate { .. }
    ));
    assert!(matches!(
        parse_error("template t(a) {\n image $b\n}"),
        ParseError::UnknownTemplateParam { .. }
    ));
    assert_eq!(program("template t(a) {\n image $a\n}").decls.len(), 1);
}

#[test]
fn raw_values_nest_no_deeper_than_the_limit() {
    let nested = |levels: usize| {
        format!(
            "service web {{\n raw {{ a: {}1{} }}\n}}",
            "[".repeat(levels),
            "]".repeat(levels)
        )
    };
    assert_eq!(program(&nested(MAX_RAW_VALUE_DEPTH - 1)).decls.len(), 1);
    assert!(matches!(
        parse_error(&nested(MAX_RAW_VALUE_DEPTH)),
        ParseError::RawValueTooDeep { limit: 128, .. }
    ));
}

#[test]
fn separators_and_conditions_are_checked() {
    assert!(matches!(
        parse_error("service web {\n env A 1\n}"),
        ParseError::MapEntryMissingSeparator { .. }
    ));
    assert!(matches!(
        parse_error("service web {\n depends_on [db { condition: ready }]\n}"),
        ParseError::InvalidDependsOnCondition { .. }
    ));
}

fn rule(source: &str) -> Result<MatchExpr, ParseError> {
    let tokens = tokens(source);
    let parser = Parser {
        tokens: &tokens,
        template_params: None,
    };
    parser.parse_match_expr_value(0).map(|(rule, _)| rule)
}

#[test]
fn operators_bind_in_order() {
    let read = rule(": Host(\"a\") || !Path(\"b\") && Header(\"c\", \"d\")").unwrap();
    match read {
        MatchExpr::Or { lhs, rhs, .. } => {
            assert!(matches!(*lhs, MatchExpr::Matcher { .. }));
            match *rhs {
                MatchExpr::And { lhs, rhs, .. } => {
                    assert!(matches!(*lhs, MatchExpr::Not { .. }));
                    assert!(matches!(&*rhs, MatchExpr::Matcher { args, .. } if args.len() == 2));
                }
                _ => panic!("not an and"),
            }
        }
        _ => panic!("not an or"),
    }
}

#[test]
fn parentheses_group() {
    let read = rule("(Host(\"a\") || Host(\"b\")) && Path(\"c\")").unwrap();
    assert!(matches!(read, MatchExpr::And { lhs, .. } if matches!(*lhs, MatchExpr::Group { .. })));
}

#[test]
fn rules_name_known_matchers() {
    assert_eq!(
        rule("Hots(\"a\")").unwrap_err(),
        ParseError::UnknownMatcher {
            name: "Hots".to_string(),
            span: Span {
                start: 0,
                end: 4,
                line: 1,
                col: 1,
                file: FileId::Anonymous
            },
        }
    );
    assert!(matches!(
        rule("Host(\"a\", \"b\")").unwrap_err(),
        ParseError::MatcherArity {
            name: "Host",
            expected: 1,
            found: 2,
            ..
        }
    ));
    assert_eq!(
        rule("web-secure").unwrap_err().message(),
        "1:1: expected a rule matcher — its arguments go in parentheses, as `Host(\"example.com\")`, found an identifier \"web-secure\""
    );
    assert_eq!(
        rule("&&").unwrap_err().message(),
        "1:1: expected a rule matcher, `!`, or `(` — for example `Host(\"example.com\")`, found `&&`"
    );
}

#[test]
fn rules_nest_no_deeper_than_the_limit() {
    let nested = |levels: usize| {
        format!(
            "{}Host(\"a\"){}",
            "(".repeat(levels),
            ")".repeat(levels)
        )
    };
    assert!(rule(&nested(MAX_MATCH_EXPR_DEPTH)).is_ok());
    assert!(matches!(
        rule(&nested(MAX_MATCH_EXPR_DEPTH + 1)),
        Err(ParseError::MatchExprTooDeep { limit: 128, .. })
    ));
    let chained = |operators: usize| format!("Host(\"a\"){}", " && Host(\"a\")".repeat(operators));
    assert!(rule(&chained(MAX_MATCH_EXPR_DEPTH)).is_ok());
    assert!(rule(&chained(MAX_MATCH_EXPR_DEPTH + 1)).is_err());
}
