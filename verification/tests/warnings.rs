use hl_parser::{ComposeWarning, FileId, SourceMap, Span};

fn span(line: u32, col: u32, file: FileId) -> Span {
    Span {
        start: 0,
        end: 0,
        line,
        col,
        file,
    }
}

#[test]
fn inert_parameter_display_names_the_file() {
    let mut files = SourceMap::default();
    let lib = files.intern("shared/lib.hll");
    let warning = ComposeWarning::InertParameterInString {
        template: "traefik-http".to_string(),
        param: "host".to_string(),
        span: span(3, 43, lib),
    };
    assert_eq!(
        warning.display(&files),
        "shared/lib.hll:3:43: warning: `$host` inside a string is not a parameter reference \
         — it is emitted verbatim; write `{{host}}` to interpolate template `traefik-http`'s \
         `host` here"
    );
}

#[test]
fn name_parameter_display_falls_back_to_line_col() {
    let warning = ComposeWarning::NameParameterNotInterpolated {
        template: "t".to_string(),
        span: span(2, 3, FileId::Anonymous),
    };
    assert_eq!(
        warning.message(),
        "2:3: warning: `{{name}}` is the enclosing service's name, not template `t`'s `name` \
         parameter — write `$name` for the parameter, or rename it to interpolate it"
    );
}

#[test]
fn span_reports_the_location_it_renders() {
    let warning = ComposeWarning::NameParameterNotInterpolated {
        template: "t".to_string(),
        span: span(9, 2, FileId::Anonymous),
    };
    assert_eq!(warning.span().line, 9);
    assert_eq!(warning.span().col, 2);
}
