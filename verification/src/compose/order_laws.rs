//! What the order of declarations means: of services, networks and
//! volumes it is kept, of templates it means nothing.

use vstd::prelude::*;
use vstd::seq_lib::*;

use crate::ast::{IdentV, Network, ProgramV, ServiceV, TemplateDeclV, TopDeclV, Volume};
use crate::compose::engine::{
    collected, collected_decl, collected_from, composed_program, service_index, template_index,
    CollectedV,
};
use crate::compose::laws::names_distinct;
use crate::compose::resolver::{decl_index, single_file_table, template_from, ImportableDecl};
use crate::source::Span;

verus! {

/// The declarations of a program by kind, each kind in its order. A `use`
/// is of none.
pub open spec fn by_kind(decls: Seq<TopDeclV>) -> CollectedV
    decreases decls.len(),
{
    if decls.len() == 0 {
        CollectedV {
            networks: Seq::empty(),
            volumes: Seq::empty(),
            services: Seq::empty(),
            templates: Seq::empty(),
        }
    } else {
        let before = by_kind(decls.drop_last());
        match decls.last() {
            TopDeclV::Network(n) => CollectedV { networks: before.networks.push(n), ..before },
            TopDeclV::Volume(v) => CollectedV { volumes: before.volumes.push(v), ..before },
            TopDeclV::Service(s) => CollectedV { services: before.services.push(s), ..before },
            TopDeclV::Template(t) => CollectedV { templates: before.templates.push(t), ..before },
            TopDeclV::Use(_) => before,
        }
    }
}

/// Whether no two declarations of one kind share a name.
pub open spec fn declared_once(decls: Seq<TopDeclV>) -> bool {
    names_distinct(by_kind(decls))
}

/// The declarations that are neither templates nor `use`s, in their order.
pub open spec fn kept_in_order(decls: Seq<TopDeclV>) -> Seq<TopDeclV> {
    decls.filter(|decl: TopDeclV| !(decl is Template) && !(decl is Use))
}

proof fn lemma_collected_last(decls: Seq<TopDeclV>, i: int, so_far: CollectedV)
    requires
        0 <= i < decls.len(),
    ensures
        collected_from(decls, i, so_far) == match collected_from(decls.drop_last(), i, so_far) {
            Ok(all) => collected_decl(all, decls.last()),
            Err(error) => Err(error),
        },
    decreases decls.len() - i,
{
    let before = decls.drop_last();
    if i + 1 < decls.len() {
        assert(before[i] == decls[i]);
        if let Ok(more) = collected_decl(so_far, decls[i]) {
            lemma_collected_last(decls, i + 1, more);
        }
    } else {
        reveal_with_fuel(collected_from, 3);
        assert(decls[i] == decls.last());
    }
}

proof fn lemma_service_free(services: Seq<ServiceV>, name: Seq<char>, i: int)
    requires
        0 <= i <= services.len(),
        forall|k: int| i <= k < services.len() ==> (#[trigger] services[k]).name.name != name,
    ensures
        service_index(services, name, i) == services.len(),
    decreases services.len() - i,
{
    if i < services.len() {
        lemma_service_free(services, name, i + 1);
    }
}

proof fn lemma_template_free(templates: Seq<TemplateDeclV>, name: Seq<char>, i: int)
    requires
        0 <= i <= templates.len(),
        forall|k: int| i <= k < templates.len() ==> (#[trigger] templates[k]).name.name != name,
    ensures
        template_index(templates, name, i) == templates.len(),
    decreases templates.len() - i,
{
    if i < templates.len() {
        lemma_template_free(templates, name, i + 1);
    }
}

proof fn lemma_decl_free<D: ImportableDecl>(decls: Seq<D::V>, name: Seq<char>, i: int)
    requires
        0 <= i <= decls.len(),
        forall|k: int| i <= k < decls.len() ==> D::name_of(#[trigger] decls[k]) != name,
    ensures
        decl_index::<D>(decls, name, i) == decls.len(),
    decreases decls.len() - i,
{
    if i < decls.len() {
        lemma_decl_free::<D>(decls, name, i + 1);
    }
}

proof fn lemma_once_before(decls: Seq<TopDeclV>)
    requires
        decls.len() > 0,
        declared_once(decls),
    ensures
        declared_once(decls.drop_last()),
        collected_decl(by_kind(decls.drop_last()), decls.last()) == Ok::<
            CollectedV,
            crate::compose_error::ComposeErrorV,
        >(by_kind(decls)),
{
    let before = by_kind(decls.drop_last());
    let all = by_kind(decls);
    assert forall|p: int, q: int| 0 <= p < q < before.networks.len() implies (
    #[trigger] before.networks[p]).name.name != (#[trigger] before.networks[q]).name.name by {
        assert(all.networks[p].name.name != all.networks[q].name.name);
    }
    assert forall|p: int, q: int| 0 <= p < q < before.volumes.len() implies (
    #[trigger] before.volumes[p]).name.name != (#[trigger] before.volumes[q]).name.name by {
        assert(all.volumes[p].name.name != all.volumes[q].name.name);
    }
    assert forall|p: int, q: int| 0 <= p < q < before.services.len() implies (
    #[trigger] before.services[p]).name.name != (#[trigger] before.services[q]).name.name by {
        assert(all.services[p].name.name != all.services[q].name.name);
    }
    assert forall|p: int, q: int| 0 <= p < q < before.templates.len() implies (
    #[trigger] before.templates[p]).name.name != (#[trigger] before.templates[q]).name.name by {
        assert(all.templates[p].name.name != all.templates[q].name.name);
    }
    match decls.last() {
        TopDeclV::Network(n) => {
            let last = before.networks.len() as int;
            assert forall|k: int| 0 <= k < before.networks.len() implies Network::name_of(
                #[trigger] before.networks[k],
            ) != n.name.name by {
                assert(all.networks[k].name.name != all.networks[last].name.name);
            }
            lemma_decl_free::<Network>(before.networks, n.name.name, 0);
        },
        TopDeclV::Volume(v) => {
            let last = before.volumes.len() as int;
            assert forall|k: int| 0 <= k < before.volumes.len() implies Volume::name_of(
                #[trigger] before.volumes[k],
            ) != v.name.name by {
                assert(all.volumes[k].name.name != all.volumes[last].name.name);
            }
            lemma_decl_free::<Volume>(before.volumes, v.name.name, 0);
        },
        TopDeclV::Service(s) => {
            let last = before.services.len() as int;
            assert forall|k: int| 0 <= k < before.services.len() implies (
            #[trigger] before.services[k]).name.name != s.name.name by {
                assert(all.services[k].name.name != all.services[last].name.name);
            }
            lemma_service_free(before.services, s.name.name, 0);
        },
        TopDeclV::Template(t) => {
            let last = before.templates.len() as int;
            assert forall|k: int| 0 <= k < before.templates.len() implies (
            #[trigger] before.templates[k]).name.name != t.name.name by {
                assert(all.templates[k].name.name != all.templates[last].name.name);
            }
            lemma_template_free(before.templates, t.name.name, 0);
        },
        TopDeclV::Use(_) => {},
    }
}

/// A program that declares each name once among the declarations of its
/// kind is accepted, each kind in its order.
pub proof fn law_distinct_names_are_accepted(decls: Seq<TopDeclV>)
    requires
        declared_once(decls),
    ensures
        collected(decls) == Ok::<CollectedV, crate::compose_error::ComposeErrorV>(by_kind(decls)),
    decreases decls.len(),
{
    if decls.len() > 0 {
        lemma_once_before(decls);
        law_distinct_names_are_accepted(decls.drop_last());
        lemma_collected_last(
            decls,
            0,
            CollectedV {
                networks: Seq::empty(),
                volumes: Seq::empty(),
                services: Seq::empty(),
                templates: Seq::empty(),
            },
        );
    }
}

proof fn lemma_template_found(templates: Seq<TemplateDeclV>, name: Seq<char>, i: int)
    requires
        0 <= i <= templates.len(),
    ensures
        match template_from(templates, name, i) {
            Some(found) => found.name.name == name && templates.contains(found),
            None => forall|k: int|
                i <= k < templates.len() ==> (#[trigger] templates[k]).name.name != name,
        },
    decreases templates.len() - i,
{
    if i < templates.len() {
        if templates[i].name.name == name {
            assert(templates.contains(templates[i]));
        } else {
            lemma_template_found(templates, name, i + 1);
        }
    }
}

/// Whether no two templates share a name.
pub open spec fn template_names_distinct(templates: Seq<TemplateDeclV>) -> bool {
    forall|p: int, q: int|
        0 <= p < q < templates.len() ==> (#[trigger] templates[p]).name.name != (
        #[trigger] templates[q]).name.name
}

proof fn lemma_same_templates(first: Seq<TemplateDeclV>, second: Seq<TemplateDeclV>)
    requires
        template_names_distinct(first),
        first.to_multiset() == second.to_multiset(),
    ensures
        template_names_distinct(second),
        forall|name: Seq<char>| #[trigger]
            template_from(first, name, 0) == template_from(second, name, 0),
{
    broadcast use group_to_multiset_ensures;

    assert forall|t: TemplateDeclV| #[trigger] first.contains(t) == second.contains(t) by {
        assert(first.contains(t) <==> first.to_multiset().count(t) > 0);
        assert(second.contains(t) <==> second.to_multiset().count(t) > 0);
    }
    assert(first.no_duplicates()) by {
        assert forall|p: int, q: int|
            0 <= p < first.len() && 0 <= q < first.len() && p != q implies first[p] != first[q] by {
            if p < q {
                assert(first[p].name.name != first[q].name.name);
            } else {
                assert(first[q].name.name != first[p].name.name);
            }
        }
    }
    first.lemma_multiset_has_no_duplicates();
    second.lemma_multiset_has_no_duplicates_conv();
    assert forall|a: TemplateDeclV, b: TemplateDeclV|
        #![trigger first.contains(a), first.contains(b)]
        first.contains(a) && first.contains(b) && a.name.name == b.name.name implies a == b by {
        let p = choose|p: int| 0 <= p < first.len() && first[p] == a;
        let q = choose|q: int| 0 <= q < first.len() && first[q] == b;
        if p < q {
            assert(first[p].name.name != first[q].name.name);
        } else if q < p {
            assert(first[q].name.name != first[p].name.name);
        }
    }
    assert forall|p: int, q: int| 0 <= p < q < second.len() implies (
    #[trigger] second[p]).name.name != (#[trigger] second[q]).name.name by {
        assert(second.contains(second[p]) && second.contains(second[q]));
        assert(first.contains(second[p]) && first.contains(second[q]));
        assert(second[p] != second[q]);
    }
    assert forall|name: Seq<char>| #[trigger]
        template_from(first, name, 0) == template_from(second, name, 0) by {
        lemma_template_found(first, name, 0);
        lemma_template_found(second, name, 0);
        if let Some(found) = template_from(first, name, 0) {
            assert(second.contains(found));
            let k = choose|k: int| 0 <= k < second.len() && second[k] == found;
            assert(second[k].name.name == name);
        }
        if let Some(found) = template_from(second, name, 0) {
            assert(first.contains(found));
            let k = choose|k: int| 0 <= k < first.len() && first[k] == found;
            assert(first[k].name.name == name);
        }
    }
}

proof fn lemma_same_tables(first: Seq<TemplateDeclV>, second: Seq<TemplateDeclV>)
    requires
        forall|name: Seq<char>| #[trigger]
            template_from(first, name, 0) == template_from(second, name, 0),
    ensures
        single_file_table(first) == single_file_table(second),
{
    let a = single_file_table(first);
    let b = single_file_table(second);
    assert forall|scope: usize, qualifier: Option<IdentV>, name: Seq<char>, span: Span|
        (#[trigger] (a.templates)(scope, qualifier, name, span)) == (b.templates)(
            scope,
            qualifier,
            name,
            span,
        ) by {
        assert(template_from(first, name, 0) == template_from(second, name, 0));
    }
    assert(a.templates =~= b.templates);
    assert(a.networks =~= b.networks);
    assert(a.volumes =~= b.volumes);
}

/// Composition sees a program's declarations by kind: the networks,
/// volumes and services each in their order, the templates in none, and no
/// `use` at all.
pub proof fn law_composition_sees_kinds(p: ProgramV, q: ProgramV)
    requires
        declared_once(p.decls),
        by_kind(p.decls).networks == by_kind(q.decls).networks,
        by_kind(p.decls).volumes == by_kind(q.decls).volumes,
        by_kind(p.decls).services == by_kind(q.decls).services,
        by_kind(p.decls).templates.to_multiset() == by_kind(q.decls).templates.to_multiset(),
    ensures
        composed_program(p) == composed_program(q),
{
    let a = by_kind(p.decls);
    let b = by_kind(q.decls);
    lemma_same_templates(a.templates, b.templates);
    assert(names_distinct(b));
    law_distinct_names_are_accepted(p.decls);
    law_distinct_names_are_accepted(q.decls);
    lemma_same_tables(a.templates, b.templates);
}

proof fn lemma_kept_kinds(decls: Seq<TopDeclV>)
    ensures
        by_kind(kept_in_order(decls)).networks == by_kind(decls).networks,
        by_kind(kept_in_order(decls)).volumes == by_kind(decls).volumes,
        by_kind(kept_in_order(decls)).services == by_kind(decls).services,
    decreases decls.len(),
{
    reveal(Seq::filter);
    let kept = kept_in_order(decls);
    if decls.len() > 0 {
        lemma_kept_kinds(decls.drop_last());
        let before = kept_in_order(decls.drop_last());
        if !(decls.last() is Template) && !(decls.last() is Use) {
            assert(kept == before.push(decls.last()));
            assert(kept.drop_last() =~= before);
        } else {
            assert(kept == before);
        }
    }
}

/// Moving template declarations to other places, and adding or removing
/// `use` declarations, leaves the outcome of composition as it was: a
/// template may be used before it is declared, and a `use` is inert.
pub proof fn law_templates_may_move_and_uses_are_inert(p: ProgramV, q: ProgramV)
    requires
        declared_once(p.decls),
        kept_in_order(p.decls) == kept_in_order(q.decls),
        by_kind(p.decls).templates.to_multiset() == by_kind(q.decls).templates.to_multiset(),
    ensures
        composed_program(p) == composed_program(q),
{
    lemma_kept_kinds(p.decls);
    lemma_kept_kinds(q.decls);
    law_composition_sees_kinds(p, q);
}

} // verus!
