use hl_parser::matchers::{known_names, lookup, matchers};

#[test]
fn lookup_finds_a_matcher_by_its_exact_name() {
    let m = lookup("PathPrefix").expect("PathPrefix is a matcher");
    assert_eq!(m.arity, 1);
    assert!(m.http);
    assert!(!m.tcp);
}

#[test]
fn lookup_is_case_sensitive() {
    assert!(lookup("pathprefix").is_none());
    assert!(lookup("PATHPREFIX").is_none());
    assert!(lookup("Pathprefix").is_none());
}

#[test]
fn client_ip_is_the_one_matcher_both_namespaces_share() {
    let both: Vec<_> = matchers()
        .iter()
        .filter(|m| m.http && m.tcp)
        .map(|m| m.name)
        .collect();
    assert_eq!(both, vec!["ClientIP"]);
}

#[test]
fn every_matcher_is_legal_somewhere() {
    for m in matchers() {
        assert!(m.http || m.tcp, "{} is legal in neither namespace", m.name);
    }
}

#[test]
fn the_table_is_sorted_and_has_no_duplicates() {
    let names: Vec<_> = matchers().iter().map(|m| m.name).collect();
    let mut sorted = names.clone();
    sorted.sort_unstable();
    sorted.dedup();
    assert_eq!(names, sorted);
}

#[test]
fn known_names_lists_every_matcher_backtick_quoted() {
    let listed = known_names();
    for m in matchers() {
        assert!(listed.contains(&format!("`{}`", m.name)), "{listed}");
    }
}

#[test]
fn the_listed_names_are_those_a_lookup_finds() {
    let listed = known_names();
    let names: Vec<&str> = listed
        .split(", ")
        .map(|piece| &piece[1..piece.len() - 1])
        .collect();
    assert!(names.iter().all(|name| lookup(name).is_some()));
    let table: Vec<&str> = matchers().iter().map(|m| m.name).collect();
    assert_eq!(names, table);
}
