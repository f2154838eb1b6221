use hl_parser::interp::resolve_with;

fn resolve(text: &str, lookup: impl Fn(&str) -> Option<String>) -> String {
    resolve_with(text, |b: &str| Ok::<_, ()>(lookup(b))).expect("infallible lookup")
}

#[test]
fn substitutes_a_resolved_binding() {
    assert_eq!(
        resolve("{{name}}.example.com", |_| Some("syncthing".to_string())),
        "syncthing.example.com"
    );
}

#[test]
fn leaves_a_deferred_binding_exactly_as_written() {
    assert_eq!(resolve("a {{name}} b", |_| None), "a {{name}} b");
}

#[test]
fn resolves_and_defers_within_one_string() {
    let out = resolve("{{host}}:{{name}}", |b| {
        if b == "host" {
            Some("example.com".to_string())
        } else {
            None
        }
    });
    assert_eq!(out, "example.com:{{name}}");
}

#[test]
fn passes_through_text_with_no_interpolation() {
    assert_eq!(resolve("plain text", |_| None), "plain text");
}

#[test]
fn resolves_multiple_occurrences() {
    assert_eq!(resolve("{{n}}-{{n}}", |_| Some("x".to_string())), "x-x");
}

#[test]
fn an_unclosed_open_brace_passes_through() {
    assert_eq!(resolve("a {{name", |_| Some("x".to_string())), "a {{name");
}

#[test]
fn a_lookup_error_stops_the_whole_resolution() {
    let err = resolve_with("{{a}}{{b}}", |b: &str| match b {
        "a" => Ok(Some("ok".to_string())),
        _ => Err("boom"),
    });
    assert_eq!(err, Err("boom"));
}

#[test]
fn bindings_are_asked_for_once_each_from_the_left() {
    let asked = std::cell::RefCell::new(Vec::new());
    let out = resolve_with("{{a}} {{ b }}{{a}} {{c", |b: &str| {
        asked.borrow_mut().push(b.to_string());
        Ok::<_, ()>(Some(asked.borrow().len().to_string()))
    });
    assert_eq!(out, Ok("1 23 {{c".to_string()));
    assert_eq!(asked.into_inner(), vec!["a", " b ", "a"]);
}

#[test]
fn nothing_is_asked_for_after_an_error() {
    let asked = std::cell::RefCell::new(Vec::new());
    let out = resolve_with("{{a}}{{b}}{{c}}", |b: &str| {
        asked.borrow_mut().push(b.to_string());
        if b == "b" {
            Err("b is unknown")
        } else {
            Ok(None)
        }
    });
    assert_eq!(out, Err("b is unknown"));
    assert_eq!(asked.into_inner(), vec!["a", "b"]);
}
