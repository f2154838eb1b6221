//! The rule matchers of Traefik, as one table.
//!
//! The names are Traefik's own, spelling and case included, and each
//! matcher takes an exact number of arguments.

use vstd::prelude::*;
use vstd::string::*;

use crate::deep::{no_items, push_to};
use crate::text::{join_texts, law_joined_texts_come_apart, pieces, same_text, texts_joined};

verus! {

/// One rule matcher.
#[derive(Debug, Clone, Copy)]
pub struct Matcher {
    /// Traefik's own spelling.
    pub name: &'static str,
    /// How many arguments the matcher takes.
    pub arity: usize,
    /// Whether it is legal on an HTTP router.
    pub http: bool,
    /// Whether it is legal on a TCP router.
    pub tcp: bool,
}

/// The view of [`Matcher`].
#[verifier::ext_equal]
pub struct MatcherV {
    pub name: Seq<char>,
    pub arity: usize,
    pub http: bool,
    pub tcp: bool,
}

impl DeepView for Matcher {
    type V = MatcherV;

    open spec fn deep_view(&self) -> MatcherV {
        MatcherV { name: self.name@, arity: self.arity, http: self.http, tcp: self.tcp }
    }
}

/// Every matcher, in the order of their names.
pub open spec fn matcher_table() -> Seq<MatcherV> {
    seq![
        MatcherV { name: "ALPN"@, arity: 1, http: false, tcp: true },
        MatcherV { name: "ClientIP"@, arity: 1, http: true, tcp: true },
        MatcherV { name: "Header"@, arity: 2, http: true, tcp: false },
        MatcherV { name: "HeaderRegexp"@, arity: 2, http: true, tcp: false },
        MatcherV { name: "Host"@, arity: 1, http: true, tcp: false },
        MatcherV { name: "HostRegexp"@, arity: 1, http: true, tcp: false },
        MatcherV { name: "HostSNI"@, arity: 1, http: false, tcp: true },
        MatcherV { name: "HostSNIRegexp"@, arity: 1, http: false, tcp: true },
        MatcherV { name: "Method"@, arity: 1, http: true, tcp: false },
        MatcherV { name: "Path"@, arity: 1, http: true, tcp: false },
        MatcherV { name: "PathPrefix"@, arity: 1, http: true, tcp: false },
        MatcherV { name: "PathRegexp"@, arity: 1, http: true, tcp: false },
        MatcherV { name: "Query"@, arity: 2, http: true, tcp: false },
        MatcherV { name: "QueryRegexp"@, arity: 2, http: true, tcp: false },
    ]
}

/// Every matcher, in the order of their names.
pub fn matchers() -> (r: Vec<Matcher>)
    ensures
        r.deep_view() == matcher_table(),
{
    let mut r: Vec<Matcher> = no_items();
    push_to(&mut r, Matcher { name: "ALPN", arity: 1, http: false, tcp: true });
    push_to(&mut r, Matcher { name: "ClientIP", arity: 1, http: true, tcp: true });
    push_to(&mut r, Matcher { name: "Header", arity: 2, http: true, tcp: false });
    push_to(&mut r, Matcher { name: "HeaderRegexp", arity: 2, http: true, tcp: false });
    push_to(&mut r, Matcher { name: "Host", arity: 1, http: true, tcp: false });
    push_to(&mut r, Matcher { name: "HostRegexp", arity: 1, http: true, tcp: false });
    push_to(&mut r, Matcher { name: "HostSNI", arity: 1, http: false, tcp: true });
    push_to(&mut r, Matcher { name: "HostSNIRegexp", arity: 1, http: false, tcp: true });
    push_to(&mut r, Matcher { name: "Method", arity: 1, http: true, tcp: false });
    push_to(&mut r, Matcher { name: "Path", arity: 1, http: true, tcp: false });
    push_to(&mut r, Matcher { name: "PathPrefix", arity: 1, http: true, tcp: false });
    push_to(&mut r, Matcher { name: "PathRegexp", arity: 1, http: true, tcp: false });
    push_to(&mut r, Matcher { name: "Query", arity: 2, http: true, tcp: false });
    push_to(&mut r, Matcher { name: "QueryRegexp", arity: 2, http: true, tcp: false });
    assert(r.deep_view() =~= matcher_table());
    r
}

/// The first matcher called `name` at or after index `i`.
pub open spec fn matcher_from(table: Seq<MatcherV>, name: Seq<char>, i: int) -> Option<MatcherV>
    decreases table.len() - i,
{
    if i >= table.len() {
        None
    } else if table[i].name == name {
        Some(table[i])
    } else {
        matcher_from(table, name, i + 1)
    }
}

/// The matcher called exactly `name`, if there is one.
pub open spec fn matcher_named(name: Seq<char>) -> Option<MatcherV> {
    matcher_from(matcher_table(), name, 0)
}

/// Looks a matcher up by its exact name.
pub fn lookup(name: &str) -> (r: Option<Matcher>)
    ensures
        r.deep_view() == matcher_named(name@),
{
    let table = matchers();
    let mut i: usize = 0;
    while i < table.len()
        invariant
            i <= table@.len(),
            table.deep_view() == matcher_table(),
            matcher_named(name@) == matcher_from(matcher_table(), name@, i as int),
        decreases table@.len() - i,
    {
        assert(matcher_table()[i as int] == table@[i as int].deep_view());
        if same_text(table[i].name, name) {
            return Some(table[i]);
        }
        i = i + 1;
    }
    None
}

/// Every matcher's name, each in backticks, with commas between them.
pub open spec fn known_names_text() -> Seq<char> {
    texts_joined(matcher_table().map_values(|m: MatcherV| "`"@ + m.name + "`"@), ", "@)
}

/// Lists every matcher's name, for a diagnostic.
pub fn known_names() -> (r: String)
    ensures
        r@ == known_names_text(),
{
    let table = matchers();
    let ghost quoted = matcher_table().map_values(|m: MatcherV| "`"@ + m.name + "`"@);
    let mut names: Vec<String> = no_items();
    let mut i: usize = 0;
    while i < table.len()
        invariant
            i <= table@.len(),
            table.deep_view() == matcher_table(),
            quoted == matcher_table().map_values(|m: MatcherV| "`"@ + m.name + "`"@),
            names.deep_view() == quoted.take(i as int),
        decreases table@.len() - i,
    {
        assert(matcher_table()[i as int] == table@[i as int].deep_view());
        let mut name = "`".to_owned();
        name.append(table[i].name);
        name.append("`");
        push_to(&mut names, name);
        assert(names.deep_view() =~= quoted.take(i + 1));
        i = i + 1;
    }
    assert(names.deep_view() =~= quoted);
    join_texts(&names, ", ")
}

proof fn lemma_names_differ(i: int, j: int)
    requires
        0 <= i < j < matcher_table().len(),
    ensures
        matcher_table()[i].name != matcher_table()[j].name,
{
    reveal_strlit("ALPN");
    reveal_strlit("ClientIP");
    reveal_strlit("Header");
    reveal_strlit("HeaderRegexp");
    reveal_strlit("Host");
    reveal_strlit("HostRegexp");
    reveal_strlit("HostSNI");
    reveal_strlit("HostSNIRegexp");
    reveal_strlit("Method");
    reveal_strlit("Path");
    reveal_strlit("PathPrefix");
    reveal_strlit("PathRegexp");
    reveal_strlit("Query");
    reveal_strlit("QueryRegexp");
    assert("ALPN"@.len() == 4);
    assert("ClientIP"@.len() == 8);
    assert("Header"@.len() == 6);
    assert("HeaderRegexp"@.len() == 12);
    assert("Host"@.len() == 4);
    assert("HostRegexp"@.len() == 10);
    assert("HostSNI"@.len() == 7);
    assert("HostSNIRegexp"@.len() == 13);
    assert("Method"@.len() == 6);
    assert("Path"@.len() == 4);
    assert("PathPrefix"@.len() == 10);
    assert("PathRegexp"@.len() == 10);
    assert("Query"@.len() == 5);
    assert("QueryRegexp"@.len() == 11);
    assert("ALPN"@[0] == 'A' && "Host"@[0] == 'H');
    assert("ALPN"@[0] == 'A' && "Path"@[0] == 'P');
    assert("Host"@[0] == 'H' && "Path"@[0] == 'P');
    assert("Header"@[0] == 'H' && "Method"@[0] == 'M');
    assert("HostRegexp"@[0] == 'H' && "PathPrefix"@[0] == 'P');
    assert("HostRegexp"@[0] == 'H' && "PathRegexp"@[0] == 'P');
    assert("PathPrefix"@[4] == 'P' && "PathRegexp"@[4] == 'R');
}

proof fn lemma_found_from(i: int, k: int)
    requires
        0 <= i <= k < matcher_table().len(),
    ensures
        matcher_from(matcher_table(), matcher_table()[k].name, i) == Some(matcher_table()[k]),
    decreases k - i,
{
    if i < k {
        lemma_names_differ(i, k);
        lemma_found_from(i + 1, k);
    }
}

/// No two matchers share a name, so each is found under its own.
pub proof fn law_every_matcher_is_found(k: int)
    requires
        0 <= k < matcher_table().len(),
    ensures
        matcher_named(matcher_table()[k].name) == Some(matcher_table()[k]),
{
    lemma_found_from(0, k);
}

/// Every matcher is legal in at least one namespace.
pub proof fn law_every_matcher_is_legal_somewhere(k: int)
    requires
        0 <= k < matcher_table().len(),
    ensures
        matcher_table()[k].http || matcher_table()[k].tcp,
{
}

/// `ClientIP` is the one matcher that both namespaces have.
pub proof fn law_client_ip_alone_is_shared(k: int)
    requires
        0 <= k < matcher_table().len(),
    ensures
        (matcher_table()[k].http && matcher_table()[k].tcp) == (matcher_table()[k].name
            == "ClientIP"@),
{
    if k != 1 {
        if k < 1 {
            lemma_names_differ(k, 1);
        } else {
            lemma_names_differ(1, k);
        }
    }
}

/// A text without its first and its last character.
pub open spec fn unquoted(s: Seq<char>) -> Seq<char> {
    s.subrange(1, s.len() - 1)
}

/// Whether `s` holds no comma at or after `i`.
pub open spec fn comma_free(s: Seq<char>, i: int) -> bool
    decreases s.len() - i,
{
    i >= s.len() || (s[i] != ',' && comma_free(s, i + 1))
}

proof fn lemma_comma_free(s: Seq<char>, i: int)
    requires
        0 <= i,
        comma_free(s, i),
    ensures
        forall|k: int| i <= k < s.len() ==> #[trigger] s[k] != ',',
    decreases s.len() - i,
{
    if i < s.len() {
        lemma_comma_free(s, i + 1);
    }
}

proof fn lemma_names_comma_free(k: int)
    requires
        0 <= k < matcher_table().len(),
    ensures
        comma_free(matcher_table()[k].name, 0),
{
    reveal_with_fuel(comma_free, 14);
    reveal_strlit("ALPN");
    reveal_strlit("ClientIP");
    reveal_strlit("Header");
    reveal_strlit("HeaderRegexp");
    reveal_strlit("Host");
    reveal_strlit("HostRegexp");
    reveal_strlit("HostSNI");
    reveal_strlit("HostSNIRegexp");
    reveal_strlit("Method");
    reveal_strlit("Path");
    reveal_strlit("PathPrefix");
    reveal_strlit("PathRegexp");
    reveal_strlit("Query");
    reveal_strlit("QueryRegexp");
    assert(comma_free("ALPN"@, 0));
    assert(comma_free("ClientIP"@, 0));
    assert(comma_free("Header"@, 0));
    assert(comma_free("HeaderRegexp"@, 0));
    assert(comma_free("Host"@, 0));
    assert(comma_free("HostRegexp"@, 0));
    assert(comma_free("HostSNI"@, 0));
    assert(comma_free("HostSNIRegexp"@, 0));
    assert(comma_free("Method"@, 0));
    assert(comma_free("Path"@, 0));
    assert(comma_free("PathPrefix"@, 0));
    assert(comma_free("PathRegexp"@, 0));
    assert(comma_free("Query"@, 0));
    assert(comma_free("QueryRegexp"@, 0));
}

proof fn lemma_found_in_table(name: Seq<char>, i: int)
    requires
        0 <= i,
    ensures
        matcher_from(matcher_table(), name, i) is Some ==> exists|k: int|
            i <= k < matcher_table().len() && (#[trigger] matcher_table()[k]).name == name,
    decreases matcher_table().len() - i,
{
    if i < matcher_table().len() {
        lemma_found_in_table(name, i + 1);
        if matcher_table()[i].name == name {
            assert(matcher_table()[i].name == name);
        }
    }
}

/// The listed names, taken apart at `, ` and without their backticks, are
/// the names of the table in order, and so exactly those that a lookup
/// finds.
pub proof fn law_known_names_are_those_found(name: Seq<char>)
    ensures
        pieces(known_names_text(), ", "@).map_values(|piece: Seq<char>| unquoted(piece))
            == matcher_table().map_values(|m: MatcherV| m.name),
        pieces(known_names_text(), ", "@).map_values(|piece: Seq<char>| unquoted(piece)).contains(
            name,
        ) <==> matcher_named(name) is Some,
{
    let quoted = matcher_table().map_values(|m: MatcherV| "`"@ + m.name + "`"@);
    let names = matcher_table().map_values(|m: MatcherV| m.name);
    reveal_strlit("`");
    reveal_strlit(", ");
    assert(", "@.len() == 2 && ", "@[0] == ',');
    assert("`"@.len() == 1 && "`"@[0] == '`');
    assert forall|i: int, k: int| 0 <= i < quoted.len() && 0 <= k < quoted[i].len() implies
        #[trigger] quoted[i][k] != ", "@[0] by {
        let inner = matcher_table()[i].name;
        lemma_names_comma_free(i);
        lemma_comma_free(inner, 0);
        if 1 <= k && k <= inner.len() {
            assert(quoted[i][k] == inner[k - 1]);
        } else if k == 0 {
            assert(quoted[i][k] == "`"@[0]);
        } else {
            assert(quoted[i][k] == "`"@[0]);
        }
    }
    law_joined_texts_come_apart(quoted, ", "@);
    let bare = quoted.map_values(|piece: Seq<char>| unquoted(piece));
    assert forall|i: int| 0 <= i < bare.len() implies bare[i] == names[i] by {
        assert(unquoted(quoted[i]) =~= matcher_table()[i].name);
    }
    assert(bare =~= names);
    if matcher_named(name) is Some {
        lemma_found_in_table(name, 0);
        let k = choose|k: int|
            0 <= k < matcher_table().len() && (#[trigger] matcher_table()[k]).name == name;
        assert(names[k] == name);
    }
    if names.contains(name) {
        let k = choose|k: int| 0 <= k < names.len() && names[k] == name;
        law_every_matcher_is_found(k);
    }
}

proof fn lemma_table_names()
    ensures
        matcher_table().len() == 14,
        matcher_table()[0].name == "ALPN"@,
        matcher_table()[1].name == "ClientIP"@,
        matcher_table()[2].name == "Header"@,
        matcher_table()[3].name == "HeaderRegexp"@,
        matcher_table()[4].name == "Host"@,
        matcher_table()[5].name == "HostRegexp"@,
        matcher_table()[6].name == "HostSNI"@,
        matcher_table()[7].name == "HostSNIRegexp"@,
        matcher_table()[8].name == "Method"@,
        matcher_table()[9].name == "Path"@,
        matcher_table()[10].name == "PathPrefix"@,
        matcher_table()[11].name == "PathRegexp"@,
        matcher_table()[12].name == "Query"@,
        matcher_table()[13].name == "QueryRegexp"@,
{
}

/// How many arguments each matcher takes: a header or query matcher a key
/// and a value, every other one.
pub proof fn law_matchers_take_one_or_two(name: Seq<char>)
    ensures
        matcher_named(name) matches Some(m) ==> m.name == name && (m.arity == 1 || m.arity == 2)
            && (m.arity == 2 <==> (name == "Header"@ || name == "HeaderRegexp"@ || name == "Query"@
            || name == "QueryRegexp"@)),
        matcher_named("Header"@) is Some,
        matcher_named("HeaderRegexp"@) is Some,
        matcher_named("Query"@) is Some,
        matcher_named("QueryRegexp"@) is Some,
{
    lemma_table_names();
    lemma_at_its_place(name);
    law_every_matcher_is_found(2);
    law_every_matcher_is_found(3);
    law_every_matcher_is_found(12);
    law_every_matcher_is_found(13);
    if let Some(m) = matcher_named(name) {
        let k = choose|k: int|
            0 <= k < matcher_table().len() && (#[trigger] matcher_table()[k]).name == name;
        law_every_matcher_is_found(k);
        assert forall|j: int| 0 <= j < matcher_table().len() && j != k implies (
        #[trigger] matcher_table()[j]).name != name by {
            if j < k {
                lemma_names_differ(j, k);
            } else {
                lemma_names_differ(k, j);
            }
        }
        assert(k != 2 ==> matcher_table()[2].name != name);
        assert(k != 3 ==> matcher_table()[3].name != name);
        assert(k != 12 ==> matcher_table()[12].name != name);
        assert(k != 13 ==> matcher_table()[13].name != name);
    }
}

proof fn lemma_at_its_place(name: Seq<char>)
    ensures
        matcher_named(name) is Some ==> exists|k: int|
            0 <= k < matcher_table().len() && (#[trigger] matcher_table()[k]).name == name,
{
    lemma_found_in_table(name, 0);
}

/// Which namespace each matcher belongs to: `ALPN` and those of the server
/// name to TCP alone, `ClientIP` to both, and every other to HTTP alone.
pub proof fn law_matchers_have_their_namespace(name: Seq<char>)
    ensures
        matcher_named(name) matches Some(m) ==> (m.tcp <==> (name == "ALPN"@ || name == "HostSNI"@
            || name == "HostSNIRegexp"@ || name == "ClientIP"@)) && (m.http <==> !(name == "ALPN"@
            || name == "HostSNI"@ || name == "HostSNIRegexp"@)),
{
    lemma_table_names();
    lemma_at_its_place(name);
    if let Some(m) = matcher_named(name) {
        let k = choose|k: int|
            0 <= k < matcher_table().len() && (#[trigger] matcher_table()[k]).name == name;
        law_every_matcher_is_found(k);
        assert forall|j: int| 0 <= j < matcher_table().len() && j != k implies (
        #[trigger] matcher_table()[j]).name != name by {
            if j < k {
                lemma_names_differ(j, k);
            } else {
                lemma_names_differ(k, j);
            }
        }
        assert(k != 0 ==> matcher_table()[0].name != name);
        assert(k != 1 ==> matcher_table()[1].name != name);
        assert(k != 6 ==> matcher_table()[6].name != name);
        assert(k != 7 ==> matcher_table()[7].name != name);
    }
}

} // verus!
