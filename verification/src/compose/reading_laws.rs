//! What reading a field off a declaration gives.

use vstd::prelude::*;
use vstd::string::*;

use crate::ast::{FieldAccessV, IdentV, LiteralV, Network, NetworkV, QualifiedRefV, Volume, VolumeV};
use crate::compose::access::{
    access_answers, access_resolved, access_spelled, access_text, AccessScope,
};
use crate::compose::resolver::{decl_index, DeclarationsV, FieldValueV, ImportableDecl, SymbolTable};
use crate::compose::substitute::char_at;
use crate::compose_error::ComposeErrorV;
use crate::interp::{law_one_binding_is_replaced, opens_nothing};
use crate::source::Span;

verus! {

proof fn lemma_field_names_differ()
    ensures
        "name"@ != "driver"@,
        "name"@ != "external"@,
        "name"@ != "driver_opts"@,
        "driver"@ != "external"@,
        "driver"@ != "driver_opts"@,
        "external"@ != "driver_opts"@,
{
    reveal_strlit("name");
    reveal_strlit("driver");
    reveal_strlit("external");
    reveal_strlit("driver_opts");
    assert("name"@.len() == 4 && "driver"@.len() == 6);
    assert("external"@.len() == 8 && "driver_opts"@.len() == 11);
}

/// What a literal is called: the content of a string, the digits of a
/// number, a bare name, and of what is dotted the last name.
pub proof fn law_literals_are_called_by_their_text(
    text: Seq<char>,
    value: u64,
    span: Span,
    q: QualifiedRefV,
    access: FieldAccessV,
)
    ensures
        LiteralV::Str(text, span).text() == text,
        LiteralV::Ident(text, span).text() == text,
        LiteralV::Param(text, span).text() == text,
        (LiteralV::Number { text, value, span }).text() == text,
        LiteralV::Str(text, span).span() == span,
        LiteralV::Ident(text, span).span() == span,
        LiteralV::Param(text, span).span() == span,
        (LiteralV::Number { text, value, span }).span() == span,
        LiteralV::Qualified(q).text() == q.name,
        LiteralV::Qualified(q).span() == q.span,
        LiteralV::Qualified(q).qualifier() == Some(q.qualifier),
        LiteralV::Field(Box::new(access)).text() == access.field.name,
        LiteralV::Field(Box::new(access)).span() == access.span,
        LiteralV::Field(Box::new(access)).qualifier() is None,
{
}

/// `name` read off a network or a volume is the text its declaration sets
/// with `name:`, and without such an override the declaration's own
/// identifier.
pub proof fn law_name_is_the_override_or_the_identifier(n: NetworkV, v: VolumeV, lit: LiteralV)
    ensures
        n.real_name == Some(lit) ==> Network::field_of(n, "name"@) == Some(
            FieldValueV::Held(lit.text()),
        ) && n.docker_name() == lit.text(),
        n.real_name is None ==> Network::field_of(n, "name"@) == Some(
            FieldValueV::Held(n.name.name),
        ) && n.docker_name() == n.name.name,
        v.real_name == Some(lit) ==> Volume::field_of(v, "name"@) == Some(
            FieldValueV::Held(lit.text()),
        ) && v.docker_name() == lit.text(),
        v.real_name is None ==> Volume::field_of(v, "name"@) == Some(
            FieldValueV::Held(v.name.name),
        ) && v.docker_name() == v.name.name,
{
    lemma_field_names_differ();
}

/// The other fields of a declaration: a volume's `driver` is the text it
/// sets, if it does; the others that there are hold no value; and there
/// are no more.
pub proof fn law_other_fields_of_declarations(
    n: NetworkV,
    v: VolumeV,
    lit: LiteralV,
    field: Seq<char>,
)
    ensures
        v.driver == Some(lit) ==> Volume::field_of(v, "driver"@) == Some(
            FieldValueV::Held(lit.text()),
        ),
        v.driver is None ==> Volume::field_of(v, "driver"@) == Some(FieldValueV::Unset),
        Network::field_of(n, "external"@) matches Some(FieldValueV::NotAValue(_)),
        Volume::field_of(v, "external"@) matches Some(FieldValueV::NotAValue(_)),
        Volume::field_of(v, "driver_opts"@) matches Some(FieldValueV::NotAValue(_)),
        field != "name"@ && field != "external"@ ==> Network::field_of(n, field) is None,
        field != "name"@ && field != "driver"@ && field != "external"@ && field != "driver_opts"@
            ==> Volume::field_of(v, field) is None,
        Network::name_of(n) == n.name.name,
        Volume::name_of(v) == v.name.name,
{
    lemma_field_names_differ();
}

/// What a diagnostic lists as readable is exactly what some declaration of
/// the kind holds a value under.
pub proof fn law_readable_fields_are_those_that_can_hold(field: Seq<char>, n: NetworkV, v: VolumeV)
    requires
        v.driver is Some,
    ensures
        Network::readable_texts().contains(field) <==> Network::field_of(n, field) matches Some(
            FieldValueV::Held(_),
        ),
        Volume::readable_texts().contains(field) <==> Volume::field_of(v, field) matches Some(
            FieldValueV::Held(_),
        ),
{
    lemma_field_names_differ();
    assert(Network::readable_texts()[0] == "name"@);
    assert(Volume::readable_texts()[0] == "name"@);
    assert(Volume::readable_texts()[1] == "driver"@);
}

proof fn lemma_declared<D: ImportableDecl>(decls: Seq<D::V>, name: Seq<char>, k: int, i: int)
    requires
        0 <= i <= k < decls.len(),
        D::name_of(decls[k]) == name,
        forall|j: int| i <= j < k ==> D::name_of(#[trigger] decls[j]) != name,
    ensures
        decl_index::<D>(decls, name, i) == k,
    decreases k - i,
{
    if i < k {
        lemma_declared::<D>(decls, name, k, i + 1);
    }
}

proof fn lemma_undeclared<D: ImportableDecl>(decls: Seq<D::V>, name: Seq<char>, i: int)
    requires
        0 <= i <= decls.len(),
        forall|j: int| i <= j < decls.len() ==> D::name_of(#[trigger] decls[j]) != name,
    ensures
        decl_index::<D>(decls, name, i) == decls.len(),
    decreases decls.len() - i,
{
    if i < decls.len() {
        lemma_undeclared::<D>(decls, name, i + 1);
    }
}

/// What reading a field off a network gives, or why it gives nothing.
pub open spec fn read_off_network(n: NetworkV, field: IdentV) -> Result<
    Option<Seq<char>>,
    ComposeErrorV,
> {
    if field.name == "name"@ {
        match n.real_name {
            Some(lit) => Ok(Some(lit.text())),
            None => Ok(Some(n.name.name)),
        }
    } else if field.name == "external"@ {
        Err(
            ComposeErrorV::DeclarationFieldNotAValue {
                kind: "network"@,
                decl: n.name.name,
                field: field.name,
                what: "a bare-presence flag rather than a value"@,
                span: field.span,
            },
        )
    } else {
        Err(
            ComposeErrorV::UnknownDeclarationField {
                kind: "network"@,
                decl: n.name.name,
                field: field.name,
                readable: seq!["name"@],
                span: field.span,
            },
        )
    }
}

/// What reading a field off a volume gives, or why it gives nothing.
pub open spec fn read_off_volume(v: VolumeV, field: IdentV) -> Result<
    Option<Seq<char>>,
    ComposeErrorV,
> {
    if field.name == "name"@ {
        match v.real_name {
            Some(lit) => Ok(Some(lit.text())),
            None => Ok(Some(v.name.name)),
        }
    } else if field.name == "driver"@ {
        match v.driver {
            Some(lit) => Ok(Some(lit.text())),
            None => Err(
                ComposeErrorV::DeclarationFieldUnset {
                    kind: "volume"@,
                    decl: v.name.name,
                    field: field.name,
                    span: field.span,
                },
            ),
        }
    } else if field.name == "external"@ || field.name == "driver_opts"@ {
        Err(
            ComposeErrorV::DeclarationFieldNotAValue {
                kind: "volume"@,
                decl: v.name.name,
                field: field.name,
                what: if field.name == "external"@ {
                    "a bare-presence flag rather than a value"@
                } else {
                    "a map of driver options rather than one value"@
                },
                span: field.span,
            },
        )
    } else {
        Err(
            ComposeErrorV::UnknownDeclarationField {
                kind: "volume"@,
                decl: v.name.name,
                field: field.name,
                readable: seq!["name"@, "driver"@],
                span: field.span,
            },
        )
    }
}

/// An access whose base names a network of the program reads that network;
/// one that names none but a volume reads that volume; and one that names
/// neither is refused, by whether it names a service.
pub proof fn law_bare_bases_read_the_program<S>(
    access: FieldAccessV,
    scope: S,
    table: SymbolTable<S>,
    decls: DeclarationsV,
    k: int,
)
    requires
        access.base is Ident || access.base is Str,
    ensures
        0 <= k < decls.networks.len() && decls.networks[k].name.name == access.base.text() && (
        forall|j: int| 0 <= j < k ==> (#[trigger] decls.networks[j]).name.name != access.base.text())
            ==> access_text(access, scope, table, decls) == read_off_network(
            decls.networks[k],
            access.field,
        ),
        (forall|j: int|
            0 <= j < decls.networks.len() ==> (#[trigger] decls.networks[j]).name.name
                != access.base.text()) && 0 <= k < decls.volumes.len()
            && decls.volumes[k].name.name == access.base.text() && (forall|j: int|
            0 <= j < k ==> (#[trigger] decls.volumes[j]).name.name != access.base.text())
            ==> access_text(access, scope, table, decls) == read_off_volume(
            decls.volumes[k],
            access.field,
        ),
        (forall|j: int|
            0 <= j < decls.networks.len() ==> (#[trigger] decls.networks[j]).name.name
                != access.base.text()) && (forall|j: int|
            0 <= j < decls.volumes.len() ==> (#[trigger] decls.volumes[j]).name.name
                != access.base.text()) ==> access_text(access, scope, table, decls) == Err::<
            Option<Seq<char>>,
            ComposeErrorV,
        >(
            if decls.services.contains(access.base.text()) {
                ComposeErrorV::FieldBaseNotDeclaration {
                    base: access.base.text(),
                    found: "a service"@,
                    span: access.span,
                }
            } else {
                ComposeErrorV::FieldBaseNotDeclared {
                    base: access.base.text(),
                    span: access.span,
                }
            },
        ),
{
    lemma_field_names_differ();
    let name = access.base.text();
    assert forall|j: int| 0 <= j < decls.networks.len() implies Network::name_of(
        #[trigger] decls.networks[j],
    ) == decls.networks[j].name.name by {}
    assert forall|j: int| 0 <= j < decls.volumes.len() implies Volume::name_of(
        #[trigger] decls.volumes[j],
    ) == decls.volumes[j].name.name by {}
    if 0 <= k < decls.networks.len() && decls.networks[k].name.name == name && (forall|j: int|
        0 <= j < k ==> (#[trigger] decls.networks[j]).name.name != name) {
        lemma_declared::<Network>(decls.networks, name, k, 0);
    }
    if forall|j: int|
        0 <= j < decls.networks.len() ==> (#[trigger] decls.networks[j]).name.name != name {
        lemma_undeclared::<Network>(decls.networks, name, 0);
        if 0 <= k < decls.volumes.len() && decls.volumes[k].name.name == name && (forall|j: int|
            0 <= j < k ==> (#[trigger] decls.volumes[j]).name.name != name) {
            lemma_declared::<Volume>(decls.volumes, name, k, 0);
        }
        if forall|j: int|
            0 <= j < decls.volumes.len() ==> (#[trigger] decls.volumes[j]).name.name != name {
            lemma_undeclared::<Volume>(decls.volumes, name, 0);
        }
    }
}

/// An access with a qualified base reads the network that the alias and
/// the name reach, or else the volume; one with a parameter for its base
/// waits.
pub proof fn law_qualified_bases_read_the_import<S>(
    access: FieldAccessV,
    q: QualifiedRefV,
    scope: S,
    table: SymbolTable<S>,
    decls: DeclarationsV,
)
    ensures
        access.base is Param ==> access_text(access, scope, table, decls) == Ok::<
            Option<Seq<char>>,
            ComposeErrorV,
        >(None),
        access.base == LiteralV::Qualified(q) ==> match (table.networks)(
            scope,
            q.qualifier,
            q.name,
            q.span,
        ) {
            Ok(n) => access_text(access, scope, table, decls) == read_off_network(n, access.field),
            Err(ComposeErrorV::UnknownQualifiedNetwork { .. }) => match (table.volumes)(
                scope,
                q.qualifier,
                q.name,
                q.span,
            ) {
                Ok(v) => access_text(access, scope, table, decls) == read_off_volume(
                    v,
                    access.field,
                ),
                Err(ComposeErrorV::UnknownQualifiedVolume { .. }) => access_text(
                    access,
                    scope,
                    table,
                    decls,
                ) == Err::<Option<Seq<char>>, ComposeErrorV>(
                    ComposeErrorV::UnknownQualifiedDeclaration {
                        alias: q.qualifier.name,
                        name: q.name,
                        span: access.span,
                    },
                ),
                Err(other) => access_text(access, scope, table, decls) == Err::<
                    Option<Seq<char>>,
                    ComposeErrorV,
                >(other),
            },
            Err(other) => access_text(access, scope, table, decls) == Err::<
                Option<Seq<char>>,
                ComposeErrorV,
            >(other),
        },
{
    lemma_field_names_differ();
}

/// Whether a text holds no dot.
pub open spec fn dotless(s: Seq<char>) -> bool {
    forall|k: int| 0 <= k < s.len() ==> #[trigger] s[k] != '.'
}

proof fn lemma_char_found(s: Seq<char>, c: char, from: int, at: int)
    requires
        0 <= from <= at <= s.len(),
        at < s.len() ==> s[at] == c,
        forall|k: int| from <= k < at ==> #[trigger] s[k] != c,
    ensures
        char_at(s, c, from) == at,
    decreases at - from,
{
    if from < at {
        lemma_char_found(s, c, from + 1, at);
    }
}

proof fn lemma_char_past(s: Seq<char>, c: char, from: int)
    requires
        from >= s.len(),
    ensures
        char_at(s, c, from) == s.len(),
{
}

/// `decl.field` spells an access to a declaration of the program,
/// `alias.decl.field` one to an imported declaration, a text without a dot
/// none at all, and more dots are too many.
pub proof fn law_dotted_bindings_spell_accesses(
    alias: Seq<char>,
    decl: Seq<char>,
    field: Seq<char>,
    rest: Seq<char>,
    span: Span,
)
    requires
        dotless(alias),
        dotless(decl),
        dotless(field),
    ensures
        access_spelled(field, span) == Ok::<Option<FieldAccessV>, ComposeErrorV>(None),
        access_spelled(decl + seq!['.'] + field, span) == Ok::<
            Option<FieldAccessV>,
            ComposeErrorV,
        >(
            Some(
                FieldAccessV {
                    base: LiteralV::Ident(decl, span),
                    field: IdentV { name: field, span },
                    span,
                },
            ),
        ),
        access_spelled(alias + seq!['.'] + decl + seq!['.'] + field, span) == Ok::<
            Option<FieldAccessV>,
            ComposeErrorV,
        >(
            Some(
                FieldAccessV {
                    base: LiteralV::Qualified(
                        QualifiedRefV {
                            qualifier: IdentV { name: alias, span },
                            name: decl,
                            name_span: span,
                            span,
                        },
                    ),
                    field: IdentV { name: field, span },
                    span,
                },
            ),
        ),
        access_spelled(
            alias + seq!['.'] + decl + seq!['.'] + field + seq!['.'] + rest,
            span,
        ) == Err::<Option<FieldAccessV>, ComposeErrorV>(
            ComposeErrorV::InterpolatedFieldAccessTooDeep {
                text: alias + seq!['.'] + decl + seq!['.'] + field + seq!['.'] + rest,
                span,
            },
        ),
{
    lemma_char_found(field, '.', 0, field.len() as int);
    let two = decl + seq!['.'] + field;
    let d = decl.len() as int;
    assert forall|k: int| 0 <= k < d implies #[trigger] two[k] != '.' by {
        assert(two[k] == decl[k]);
    }
    lemma_char_found(two, '.', 0, d);
    assert forall|k: int| d + 1 <= k < two.len() implies #[trigger] two[k] != '.' by {
        assert(two[k] == field[k - d - 1]);
    }
    lemma_char_found(two, '.', d + 1, two.len() as int);
    lemma_char_past(two, '.', two.len() as int + 1);
    assert(two.subrange(0, d) =~= decl);
    assert(two.subrange(d + 1, two.len() as int) =~= field);
    let a = alias.len() as int;
    let three = alias + seq!['.'] + decl + seq!['.'] + field;
    let four = three + seq!['.'] + rest;
    assert forall|k: int| 0 <= k < a implies #[trigger] three[k] != '.' && four[k] != '.' by {
        assert(three[k] == alias[k]);
        assert(four[k] == alias[k]);
    }
    assert forall|k: int| a + 1 <= k < a + 1 + d implies #[trigger] three[k] != '.' && four[k]
        != '.' by {
        assert(three[k] == decl[k - a - 1]);
        assert(four[k] == decl[k - a - 1]);
    }
    let f = a + 1 + d;
    assert forall|k: int| f + 1 <= k < three.len() implies #[trigger] three[k] != '.' && four[k]
        != '.' by {
        assert(three[k] == field[k - f - 1]);
        assert(four[k] == field[k - f - 1]);
    }
    lemma_char_found(three, '.', 0, a);
    lemma_char_found(three, '.', a + 1, f);
    lemma_char_found(three, '.', f + 1, three.len() as int);
    assert(three.subrange(0, a) =~= alias);
    assert(three.subrange(a + 1, f) =~= decl);
    assert(three.subrange(f + 1, three.len() as int) =~= field);
    assert forall|k: int| 0 <= k < a implies #[trigger] four[k] != '.' by {
        assert(three[k] != '.' && four[k] != '.');
    }
    assert forall|k: int| a + 1 <= k < f implies #[trigger] four[k] != '.' by {
        assert(three[k] != '.' && four[k] != '.');
    }
    assert forall|k: int| f + 1 <= k < three.len() implies #[trigger] four[k] != '.' by {
        assert(three[k] != '.' && four[k] != '.');
    }
    lemma_char_found(four, '.', 0, a);
    lemma_char_found(four, '.', a + 1, f);
    lemma_char_found(four, '.', f + 1, three.len() as int);
}

/// In a finished body a value that reads a field becomes the text read, as
/// a string in the same place, and so does a dotted binding in a string.
/// What reads no field is left alone.
pub proof fn law_accesses_become_the_text_read<S>(
    access: FieldAccessV,
    pre: Seq<char>,
    decl: Seq<char>,
    field: Seq<char>,
    post: Seq<char>,
    span: Span,
    scope: S,
    table: SymbolTable<S>,
    decls: DeclarationsV,
)
    requires
        opens_nothing(pre),
        opens_nothing(post),
        dotless(decl),
        dotless(field),
        forall|k: int| 0 <= k < decl.len() ==> #[trigger] decl[k] != '}' && decl[k] != '{',
        forall|k: int| 0 <= k < field.len() ==> #[trigger] field[k] != '}' && field[k] != '{',
    ensures
        access_text(access, scope, table, decls) matches Ok(Some(text)) ==> access_resolved(
            LiteralV::Field(Box::new(access)),
            AccessScope::Bound,
            scope,
            table,
            decls,
        ) == Ok::<LiteralV, ComposeErrorV>(LiteralV::Str(text, access.span)),
        access_text(
            FieldAccessV {
                base: LiteralV::Ident(decl, span),
                field: IdentV { name: field, span },
                span,
            },
            scope,
            table,
            decls,
        ) matches Ok(Some(text)) ==> access_resolved(
            LiteralV::Str(
                pre + seq!['{', '{'] + (decl + seq!['.'] + field) + seq!['}', '}'] + post,
                span,
            ),
            AccessScope::Bound,
            scope,
            table,
            decls,
        ) == Ok::<LiteralV, ComposeErrorV>(LiteralV::Str(pre + text + post, span)),
        forall|lit: LiteralV|
            !(lit is Field) && !(lit is Str) ==> (#[trigger] access_resolved(
                lit,
                AccessScope::Bound,
                scope,
                table,
                decls,
            )) == Ok::<LiteralV, ComposeErrorV>(lit),
{
    let binding = decl + seq!['.'] + field;
    law_dotted_bindings_spell_accesses(decl, decl, field, field, span);
    assert forall|k: int| 0 <= k < binding.len() implies #[trigger] binding[k] != '}' && binding[k]
        != '{' by {
        if k < decl.len() {
            assert(binding[k] == decl[k]);
        } else if k > decl.len() {
            assert(binding[k] == field[k - decl.len() - 1]);
        }
    }
    let lookup = access_answers(span, AccessScope::Bound, scope, table, decls);
    law_one_binding_is_replaced(pre, binding, post, lookup);
}

} // verus!
