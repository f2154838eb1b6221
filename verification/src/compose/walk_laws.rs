//! What a walk over a body does to it: every literal is rewritten, each in
//! its own place, and nothing else changes.

use vstd::prelude::*;

use crate::ast::{
    ArrowMapEntry, ArrowMapEntryV, ArrowMapHostV, Command, DependsOnEntry, DependsOnEntryV,
    Entrypoint, EnvEntry, EnvEntryV, Healthcheck, HealthcheckV, LabelEntry, LabelEntryV,
    LabelValueV, Literal, LiteralV, RawEntry, RawEntryV, RawValueV, ServiceFields, ServiceFieldsV,
    ShellOrExecV, TemplateInvocation, TemplateInvocationV,
};
use crate::compose::slots::{
    bound_basics, bound_dependencies, bound_dependencies_from, bound_entries, bound_items,
    bound_mounts, bound_raw, bound_raw_entries, bound_raw_items, bound_references,
    bound_references_from, bound_running, passed_items, passed_raw, passed_raw_entries,
    passed_raw_items, spliced, spliced_dependencies, spliced_list, LiteralPass, Slots, Walk,
};
use crate::compose::substitute::{bound_literal, bound_reference, spliced_item, CallV};
use crate::compose_error::ComposeErrorV;
use crate::warning::ComposeWarningV;

verus! {

/// How a literal before a walk and one after it are related.
pub type Relation = spec_fn(LiteralV, LiteralV) -> bool;

/// How a raw value before a walk and one after it are related.
pub type RawRelation = spec_fn(RawValueV, RawValueV) -> bool;

/// Whether two optional literals are both absent, or related.
pub open spec fn optional_related(
    a: Option<LiteralV>,
    b: Option<LiteralV>,
    rel: Relation,
) -> bool {
    match (a, b) {
        (Some(x), Some(y)) => rel(x, y),
        (None, None) => true,
        _ => false,
    }
}

/// Whether two lists are related, item by item.
pub open spec fn lists_related(a: Seq<LiteralV>, b: Seq<LiteralV>, rel: Relation) -> bool {
    &&& a.len() == b.len()
    &&& forall|i: int| 0 <= i < a.len() ==> rel(#[trigger] a[i], b[i])
}

/// Whether two commands are of one form, and related.
pub open spec fn commands_related(
    a: Option<ShellOrExecV>,
    b: Option<ShellOrExecV>,
    rel: Relation,
) -> bool {
    match (a, b) {
        (Some(ShellOrExecV::Shell(x)), Some(ShellOrExecV::Shell(y))) => rel(x, y),
        (Some(ShellOrExecV::Exec(x, s)), Some(ShellOrExecV::Exec(y, t))) => s == t
            && lists_related(x, y, rel),
        (None, None) => true,
        _ => false,
    }
}

/// Whether the single-value fields of two bodies are related, each to the
/// field of its own name, and stand where they stood.
pub open spec fn values_related(v: ServiceFieldsV, after: ServiceFieldsV, rel: Relation) -> bool {
    &&& match (v.image, after.image) {
        (Some(a), Some(b)) => a.span == b.span && optional_related(a.reference, b.reference, rel),
        (None, None) => true,
        _ => false,
    }
    &&& match (v.build, after.build) {
        (Some(a), Some(b)) => a.span == b.span && optional_related(a.context, b.context, rel)
            && optional_related(a.dockerfile, b.dockerfile, rel),
        (None, None) => true,
        _ => false,
    }
    &&& match (v.expose, after.expose) {
        (Some(a), Some(b)) => a.span == b.span && optional_related(a.port, b.port, rel),
        (None, None) => true,
        _ => false,
    }
    &&& match (v.restart, after.restart) {
        (Some(a), Some(b)) => a.span == b.span && optional_related(a.policy, b.policy, rel),
        (None, None) => true,
        _ => false,
    }
    &&& match (v.healthcheck, after.healthcheck) {
        (Some(a), Some(b)) => {
            &&& a.span == b.span
            &&& a.disable == b.disable
            &&& commands_related(a.test, b.test, rel)
            &&& optional_related(a.interval, b.interval, rel)
            &&& optional_related(a.timeout, b.timeout, rel)
            &&& optional_related(a.retries, b.retries, rel)
            &&& optional_related(a.start_period, b.start_period, rel)
            &&& optional_related(a.start_interval, b.start_interval, rel)
        },
        (None, None) => true,
        _ => false,
    }
    &&& optional_related(v.container_name, after.container_name, rel)
    &&& commands_related(v.command, after.command, rel)
    &&& commands_related(v.entrypoint, after.entrypoint, rel)
    &&& v.privileged == after.privileged
}

/// Whether a mount is related to another, with its path, or the volume it
/// names, its container side, and all else kept.
pub open spec fn mount_related(
    a: ArrowMapEntryV,
    b: ArrowMapEntryV,
    rel: Relation,
    named: Relation,
) -> bool {
    &&& a.read_only == b.read_only
    &&& a.span == b.span
    &&& rel(a.container, b.container)
    &&& match (a.host, b.host) {
        (ArrowMapHostV::BindMount(x), ArrowMapHostV::BindMount(y)) => rel(x, y),
        (ArrowMapHostV::Named(x), ArrowMapHostV::Named(y)) => named(x, y),
        _ => false,
    }
}

/// Whether mounts are related, one by one.
pub open spec fn mounts_related(
    a: Seq<ArrowMapEntryV>,
    b: Seq<ArrowMapEntryV>,
    rel: Relation,
    named: Relation,
) -> bool {
    &&& a.len() == b.len()
    &&& forall|i: int| 0 <= i < a.len() ==> mount_related(#[trigger] a[i], b[i], rel, named)
}

/// Whether raw entries are related, one by one.
pub open spec fn raw_entries_related(
    a: Seq<RawEntryV>,
    b: Seq<RawEntryV>,
    rel: Relation,
    raw: RawRelation,
) -> bool {
    &&& a.len() == b.len()
    &&& forall|i: int|
        0 <= i < a.len() ==> (#[trigger] a[i]).span == b[i].span && rel(a[i].key, b[i].key) && raw(
            a[i].value,
            b[i].value,
        )
}

/// Whether what two labels hold is of one shape, and related.
pub open spec fn label_values_related(a: LabelValueV, b: LabelValueV, rel: Relation) -> bool {
    match (a, b) {
        (LabelValueV::Scalar(x), LabelValueV::Scalar(y)) => rel(x, y),
        (LabelValueV::List(x, s), LabelValueV::List(y, t)) => s == t && lists_related(x, y, rel),
        _ => false,
    }
}

/// Whether the maps of two bodies, and their invocations, are related, each
/// to the field of its own name.
pub open spec fn maps_related(
    v: ServiceFieldsV,
    after: ServiceFieldsV,
    rel: Relation,
    named: Relation,
    raw: RawRelation,
) -> bool {
    &&& mounts_related(v.volumes.entries, after.volumes.entries, rel, named)
    &&& mounts_related(v.publish.entries, after.publish.entries, rel, named)
    &&& mounts_related(v.devices.entries, after.devices.entries, rel, named)
    &&& v.env.entries.len() == after.env.entries.len()
    &&& forall|i: int|
        0 <= i < v.env.entries.len() ==> {
            &&& (#[trigger] v.env.entries[i]).span == after.env.entries[i].span
            &&& rel(v.env.entries[i].key, after.env.entries[i].key)
            &&& rel(v.env.entries[i].value, after.env.entries[i].value)
        }
    &&& v.labels.entries.len() == after.labels.entries.len()
    &&& forall|i: int|
        0 <= i < v.labels.entries.len() ==> {
            &&& (#[trigger] v.labels.entries[i]).span == after.labels.entries[i].span
            &&& rel(v.labels.entries[i].key, after.labels.entries[i].key)
            &&& label_values_related(v.labels.entries[i].value, after.labels.entries[i].value, rel)
        }
    &&& raw_entries_related(v.raw.entries, after.raw.entries, rel, raw)
    &&& v.with.len() == after.with.len()
    &&& forall|i: int|
        0 <= i < v.with.len() ==> {
            &&& (#[trigger] v.with[i]).qualifier == after.with[i].qualifier
            &&& v.with[i].name == after.with[i].name
            &&& v.with[i].span == after.with[i].span
            &&& raw_entries_related(v.with[i].args.entries, after.with[i].args.entries, rel, raw)
        }
}

/// Whether the lists of two bodies are related, each to the field of its
/// own name.
pub open spec fn references_related(
    v: ServiceFieldsV,
    after: ServiceFieldsV,
    rel: Relation,
) -> bool {
    &&& lists_related(v.networks, after.networks, rel)
    &&& lists_related(v.dns, after.dns, rel)
    &&& lists_related(v.env_file, after.env_file, rel)
    &&& v.depends_on.len() == after.depends_on.len()
    &&& forall|i: int|
        0 <= i < v.depends_on.len() ==> {
            &&& (#[trigger] v.depends_on[i]).span == after.depends_on[i].span
            &&& v.depends_on[i].condition == after.depends_on[i].condition
            &&& rel(v.depends_on[i].reference, after.depends_on[i].reference)
        }
}

/// What a pass makes of a literal, as a relation.
pub open spec fn rewritten<P: LiteralPass>(pass: P::V) -> Relation {
    |a: LiteralV, b: LiteralV| P::rewrites(pass, a) == Ok::<LiteralV, ComposeErrorV>(b)
}

/// Whether every literal inside a raw value is related to the one in its
/// place in another.
pub open spec fn raw_related(a: RawValueV, b: RawValueV, rel: Relation) -> bool
    decreases a,
{
    match (a, b) {
        (RawValueV::Literal(x), RawValueV::Literal(y)) => rel(x, y),
        (RawValueV::List(x, s), RawValueV::List(y, t)) => {
            &&& s == t
            &&& x.len() == y.len()
            &&& forall|i: int| 0 <= i < x.len() ==> raw_related(#[trigger] x[i], y[i], rel)
        },
        (RawValueV::Mapping(x, s), RawValueV::Mapping(y, t)) => {
            &&& s == t
            &&& x.len() == y.len()
            &&& forall|i: int|
                0 <= i < x.len() ==> rel((#[trigger] x[i]).0, y[i].0) && raw_related(
                    x[i].1,
                    y[i].1,
                    rel,
                )
        },
        _ => false,
    }
}

proof fn lemma_passed_one_by_one<T: Walk<P>, P: LiteralPass>(
    items: Seq<T::V>,
    i: int,
    before: Seq<T::V>,
    pass: P::V,
)
    requires
        0 <= i <= items.len(),
        before.len() == i,
        forall|k: int|
            0 <= k < i ==> <T as Walk<P>>::passed(#[trigger] items[k], pass) == Ok::<
                T::V,
                ComposeErrorV,
            >(before[k]),
    ensures
        passed_items::<T, P>(items, i, before, pass) matches Ok(after) ==> after.len()
            == items.len() && forall|k: int|
            0 <= k < items.len() ==> <T as Walk<P>>::passed(#[trigger] items[k], pass) == Ok::<
                T::V,
                ComposeErrorV,
            >(after[k]),
    decreases items.len() - i,
{
    if i < items.len() {
        if let Ok(after) = <T as Walk<P>>::passed(items[i], pass) {
            lemma_passed_one_by_one::<T, P>(items, i + 1, before.push(after), pass);
        }
    }
}

proof fn lemma_raw_passed<P: LiteralPass>(value: RawValueV, pass: P::V)
    ensures
        passed_raw::<P>(value, pass) matches Ok(after) ==> raw_related(
            value,
            after,
            rewritten::<P>(pass),
        ),
    decreases value, 0int,
{
    match value {
        RawValueV::List(items, _) => {
            lemma_raw_items_passed::<P>(items, 0, Seq::empty(), pass);
        },
        RawValueV::Mapping(entries, _) => {
            lemma_raw_pairs_passed::<P>(entries, 0, Seq::empty(), pass);
        },
        _ => {},
    }
}

proof fn lemma_raw_items_passed<P: LiteralPass>(
    items: Seq<RawValueV>,
    i: int,
    before: Seq<RawValueV>,
    pass: P::V,
)
    requires
        0 <= i <= items.len(),
        before.len() == i,
        forall|k: int|
            0 <= k < i ==> raw_related(#[trigger] items[k], before[k], rewritten::<P>(pass)),
    ensures
        passed_raw_items::<P>(items, i, before, pass) matches Ok(after) ==> after.len()
            == items.len() && forall|k: int|
            0 <= k < items.len() ==> raw_related(
                #[trigger] items[k],
                after[k],
                rewritten::<P>(pass),
            ),
    decreases items, items.len() - i,
{
    if i < items.len() {
        lemma_raw_passed::<P>(items[i], pass);
        if let Ok(after) = passed_raw::<P>(items[i], pass) {
            lemma_raw_items_passed::<P>(items, i + 1, before.push(after), pass);
        }
    }
}

proof fn lemma_raw_pairs_passed<P: LiteralPass>(
    entries: Seq<(LiteralV, RawValueV)>,
    i: int,
    before: Seq<(LiteralV, RawValueV)>,
    pass: P::V,
)
    requires
        0 <= i <= entries.len(),
        before.len() == i,
        forall|k: int|
            0 <= k < i ==> rewritten::<P>(pass)((#[trigger] entries[k]).0, before[k].0)
                && raw_related(entries[k].1, before[k].1, rewritten::<P>(pass)),
    ensures
        passed_raw_entries::<P>(entries, i, before, pass) matches Ok(after) ==> after.len()
            == entries.len() && forall|k: int|
            0 <= k < entries.len() ==> rewritten::<P>(pass)((#[trigger] entries[k]).0, after[k].0)
                && raw_related(entries[k].1, after[k].1, rewritten::<P>(pass)),
    decreases entries, entries.len() - i,
{
    if i < entries.len() {
        lemma_raw_passed::<P>(entries[i].1, pass);
        if let Ok(key) = P::rewrites(pass, entries[i].0) {
            if let Ok(value) = passed_raw::<P>(entries[i].1, pass) {
                lemma_raw_pairs_passed::<P>(entries, i + 1, before.push((key, value)), pass);
            }
        }
    }
}

proof fn lemma_literals_passed<P: LiteralPass>(lits: Seq<LiteralV>, pass: P::V)
    ensures
        <Vec<Literal> as Walk<P>>::passed(lits, pass) matches Ok(after) ==> lists_related(
            lits,
            after,
            rewritten::<P>(pass),
        ),
{
    lemma_passed_one_by_one::<Literal, P>(lits, 0, Seq::empty(), pass);
}

proof fn lemma_command_passed<P: LiteralPass>(v: Option<ShellOrExecV>, pass: P::V)
    ensures
        <Option<Command> as Walk<P>>::passed(v, pass) matches Ok(after) ==> commands_related(
            v,
            after,
            rewritten::<P>(pass),
        ),
        <Option<Entrypoint> as Walk<P>>::passed(v, pass) matches Ok(after) ==> commands_related(
            v,
            after,
            rewritten::<P>(pass),
        ),
        <Option<crate::ast::HealthcheckTest> as Walk<P>>::passed(v, pass) matches Ok(after)
            ==> commands_related(v, after, rewritten::<P>(pass)),
{
    if let Some(ShellOrExecV::Exec(items, _)) = v {
        lemma_literals_passed::<P>(items, pass);
    }
}

proof fn lemma_mounts_passed<P: LiteralPass>(entries: Seq<ArrowMapEntryV>, pass: P::V)
    ensures
        <Vec<ArrowMapEntry> as Walk<P>>::passed(entries, pass) matches Ok(after) ==> mounts_related(
            entries,
            after,
            rewritten::<P>(pass),
            rewritten::<P>(pass),
        ),
{
    lemma_passed_one_by_one::<ArrowMapEntry, P>(entries, 0, Seq::empty(), pass);
    if let Ok(after) = <Vec<ArrowMapEntry> as Walk<P>>::passed(entries, pass) {
        assert forall|i: int| 0 <= i < entries.len() implies mount_related(
            #[trigger] entries[i],
            after[i],
            rewritten::<P>(pass),
            rewritten::<P>(pass),
        ) by {
            assert(<ArrowMapEntry as Walk<P>>::passed(entries[i], pass) is Ok);
        }
    }
}

proof fn lemma_raw_map_passed<P: LiteralPass>(entries: Seq<RawEntryV>, pass: P::V)
    ensures
        <Vec<RawEntry> as Walk<P>>::passed(entries, pass) matches Ok(after) ==> raw_entries_related(
            entries,
            after,
            rewritten::<P>(pass),
            |a: RawValueV, b: RawValueV| raw_related(a, b, rewritten::<P>(pass)),
        ),
{
    lemma_passed_one_by_one::<RawEntry, P>(entries, 0, Seq::empty(), pass);
    if let Ok(after) = <Vec<RawEntry> as Walk<P>>::passed(entries, pass) {
        assert forall|i: int| 0 <= i < entries.len() implies (#[trigger] entries[i]).span
            == after[i].span && rewritten::<P>(pass)(entries[i].key, after[i].key) && raw_related(
            entries[i].value,
            after[i].value,
            rewritten::<P>(pass),
        ) by {
            assert(<RawEntry as Walk<P>>::passed(entries[i], pass) is Ok);
            lemma_raw_passed::<P>(entries[i].value, pass);
        }
    }
}

proof fn lemma_values_passed<P: LiteralPass>(v: ServiceFieldsV, pass: P::V)
    ensures
        <ServiceFields as Walk<P>>::passed(v, pass) matches Ok(after) ==> values_related(
            v,
            after,
            rewritten::<P>(pass),
        ),
{
    lemma_command_passed::<P>(v.command, pass);
    lemma_command_passed::<P>(v.entrypoint, pass);
    if let Some(h) = v.healthcheck {
        lemma_command_passed::<P>(h.test, pass);
    }
}

proof fn lemma_maps_passed<P: LiteralPass>(v: ServiceFieldsV, pass: P::V)
    ensures
        <ServiceFields as Walk<P>>::passed(v, pass) matches Ok(after) ==> maps_related(
            v,
            after,
            rewritten::<P>(pass),
            rewritten::<P>(pass),
            |a: RawValueV, b: RawValueV| raw_related(a, b, rewritten::<P>(pass)),
        ),
{
    lemma_mounts_passed::<P>(v.volumes.entries, pass);
    lemma_mounts_passed::<P>(v.publish.entries, pass);
    lemma_mounts_passed::<P>(v.devices.entries, pass);
    lemma_raw_map_passed::<P>(v.raw.entries, pass);
    lemma_passed_one_by_one::<EnvEntry, P>(v.env.entries, 0, Seq::empty(), pass);
    lemma_passed_one_by_one::<LabelEntry, P>(v.labels.entries, 0, Seq::empty(), pass);
    lemma_passed_one_by_one::<TemplateInvocation, P>(v.with, 0, Seq::empty(), pass);
    if let Ok(after) = <ServiceFields as Walk<P>>::passed(v, pass) {
        assert forall|i: int| 0 <= i < v.env.entries.len() implies {
            &&& (#[trigger] v.env.entries[i]).span == after.env.entries[i].span
            &&& rewritten::<P>(pass)(v.env.entries[i].key, after.env.entries[i].key)
            &&& rewritten::<P>(pass)(v.env.entries[i].value, after.env.entries[i].value)
        } by {
            assert(<EnvEntry as Walk<P>>::passed(v.env.entries[i], pass) is Ok);
        }
        assert forall|i: int| 0 <= i < v.labels.entries.len() implies {
            &&& (#[trigger] v.labels.entries[i]).span == after.labels.entries[i].span
            &&& rewritten::<P>(pass)(v.labels.entries[i].key, after.labels.entries[i].key)
            &&& label_values_related(
                v.labels.entries[i].value,
                after.labels.entries[i].value,
                rewritten::<P>(pass),
            )
        } by {
            assert(<LabelEntry as Walk<P>>::passed(v.labels.entries[i], pass) is Ok);
            if let LabelValueV::List(items, _) = v.labels.entries[i].value {
                lemma_literals_passed::<P>(items, pass);
            }
        }
        assert forall|i: int| 0 <= i < v.with.len() implies {
            &&& (#[trigger] v.with[i]).qualifier == after.with[i].qualifier
            &&& v.with[i].name == after.with[i].name
            &&& v.with[i].span == after.with[i].span
            &&& raw_entries_related(
                v.with[i].args.entries,
                after.with[i].args.entries,
                rewritten::<P>(pass),
                |a: RawValueV, b: RawValueV| raw_related(a, b, rewritten::<P>(pass)),
            )
        } by {
            assert(<TemplateInvocation as Walk<P>>::passed(v.with[i], pass) is Ok);
            lemma_raw_map_passed::<P>(v.with[i].args.entries, pass);
        }
    }
}

proof fn lemma_lists_passed<P: LiteralPass>(v: ServiceFieldsV, pass: P::V)
    ensures
        <ServiceFields as Walk<P>>::passed(v, pass) matches Ok(after) ==> references_related(
            v,
            after,
            rewritten::<P>(pass),
        ),
{
    lemma_literals_passed::<P>(v.networks, pass);
    lemma_literals_passed::<P>(v.dns, pass);
    lemma_literals_passed::<P>(v.env_file, pass);
    lemma_passed_one_by_one::<DependsOnEntry, P>(v.depends_on, 0, Seq::empty(), pass);
    if let Ok(after) = <ServiceFields as Walk<P>>::passed(v, pass) {
        assert forall|i: int| 0 <= i < v.depends_on.len() implies {
            &&& (#[trigger] v.depends_on[i]).span == after.depends_on[i].span
            &&& v.depends_on[i].condition == after.depends_on[i].condition
            &&& rewritten::<P>(pass)(v.depends_on[i].reference, after.depends_on[i].reference)
        } by {
            assert(<DependsOnEntry as Walk<P>>::passed(v.depends_on[i], pass) is Ok);
        }
    }
}

/// A pass over a body rewrites every literal of it, each in its own place,
/// and changes nothing else.
pub proof fn law_a_pass_rewrites_in_place<P: LiteralPass>(v: ServiceFieldsV, pass: P::V)
    ensures
        <ServiceFields as Walk<P>>::passed(v, pass) matches Ok(after) ==> {
            &&& values_related(v, after, rewritten::<P>(pass))
            &&& maps_related(
                v,
                after,
                rewritten::<P>(pass),
                rewritten::<P>(pass),
                |a: RawValueV, b: RawValueV| raw_related(a, b, rewritten::<P>(pass)),
            )
            &&& references_related(v, after, rewritten::<P>(pass))
        },
{
    lemma_values_passed::<P>(v, pass);
    lemma_maps_passed::<P>(v, pass);
    lemma_lists_passed::<P>(v, pass);
}

/// What an invocation makes of a literal, as a relation.
pub open spec fn substituted(call: CallV) -> Relation {
    |a: LiteralV, b: LiteralV|
        bound_literal(a, call, Seq::empty()) matches Ok((after, _)) && after == b
}

/// What an invocation makes of a raw value, as a relation: a parameter
/// becomes the whole argument, and every other literal what it becomes
/// anywhere.
pub open spec fn raw_substituted(a: RawValueV, b: RawValueV, call: CallV) -> bool
    decreases a,
{
    match a {
        RawValueV::Literal(LiteralV::Param(name, _)) => match call.arg(name) {
            Some(arg) => b == arg,
            None => b == a,
        },
        RawValueV::Literal(x) => match b {
            RawValueV::Literal(y) => substituted(call)(x, y),
            _ => false,
        },
        RawValueV::List(x, s) => match b {
            RawValueV::List(y, t) => {
                &&& s == t
                &&& x.len() == y.len()
                &&& forall|i: int| 0 <= i < x.len() ==> raw_substituted(#[trigger] x[i], y[i], call)
            },
            _ => false,
        },
        RawValueV::Mapping(x, s) => match b {
            RawValueV::Mapping(y, t) => {
                &&& s == t
                &&& x.len() == y.len()
                &&& forall|i: int|
                    0 <= i < x.len() ==> substituted(call)((#[trigger] x[i]).0, y[i].0)
                        && raw_substituted(x[i].1, y[i].1, call)
            },
            _ => false,
        },
    }
}

/// Whether an invocation makes one thing of another, whatever was warned
/// of before.
spec fn becomes<T: Slots>(v: T::V, after: T::V, call: CallV) -> bool {
    exists|warnings: Seq<ComposeWarningV>|
        (#[trigger] T::bound(v, call, warnings)) matches Ok((x, _)) && x == after
}

proof fn lemma_bound_one_by_one<T: Slots>(
    items: Seq<T::V>,
    i: int,
    before: Seq<T::V>,
    call: CallV,
    warnings: Seq<ComposeWarningV>,
)
    requires
        0 <= i <= items.len(),
        before.len() == i,
        forall|k: int| 0 <= k < i ==> becomes::<T>(#[trigger] items[k], before[k], call),
    ensures
        bound_items::<T>(items, i, before, call, warnings) matches Ok((after, _)) ==> after.len()
            == items.len() && forall|k: int|
            0 <= k < items.len() ==> becomes::<T>(#[trigger] items[k], after[k], call),
    decreases items.len() - i,
{
    if i < items.len() {
        if let Ok((after, more)) = T::bound(items[i], call, warnings) {
            let next = before.push(after);
            assert(becomes::<T>(items[i], after, call));
            assert forall|k: int| 0 <= k < i + 1 implies becomes::<T>(
                #[trigger] items[k],
                next[k],
                call,
            ) by {
                if k < i {
                    assert(next[k] == before[k]);
                }
            }
            lemma_bound_one_by_one::<T>(items, i + 1, next, call, more);
        }
    }
}

proof fn lemma_raw_bound(value: RawValueV, call: CallV, warnings: Seq<ComposeWarningV>)
    ensures
        bound_raw(value, call, warnings) matches Ok((after, _)) ==> raw_substituted(
            value,
            after,
            call,
        ),
    decreases value, 0int,
{
    match value {
        RawValueV::List(items, _) => {
            lemma_raw_items_bound(items, 0, Seq::empty(), call, warnings);
        },
        RawValueV::Mapping(entries, _) => {
            lemma_raw_pairs_bound(entries, 0, Seq::empty(), call, warnings);
        },
        _ => {},
    }
}

proof fn lemma_raw_items_bound(
    items: Seq<RawValueV>,
    i: int,
    before: Seq<RawValueV>,
    call: CallV,
    warnings: Seq<ComposeWarningV>,
)
    requires
        0 <= i <= items.len(),
        before.len() == i,
        forall|k: int| 0 <= k < i ==> raw_substituted(#[trigger] items[k], before[k], call),
    ensures
        bound_raw_items(items, i, before, call, warnings) matches Ok((after, _)) ==> after.len()
            == items.len() && forall|k: int|
            0 <= k < items.len() ==> raw_substituted(#[trigger] items[k], after[k], call),
    decreases items, items.len() - i,
{
    if i < items.len() {
        lemma_raw_bound(items[i], call, warnings);
        if let Ok((after, more)) = bound_raw(items[i], call, warnings) {
            lemma_raw_items_bound(items, i + 1, before.push(after), call, more);
        }
    }
}

proof fn lemma_raw_pairs_bound(
    entries: Seq<(LiteralV, RawValueV)>,
    i: int,
    before: Seq<(LiteralV, RawValueV)>,
    call: CallV,
    warnings: Seq<ComposeWarningV>,
)
    requires
        0 <= i <= entries.len(),
        before.len() == i,
        forall|k: int|
            0 <= k < i ==> substituted(call)((#[trigger] entries[k]).0, before[k].0)
                && raw_substituted(entries[k].1, before[k].1, call),
    ensures
        bound_raw_entries(entries, i, before, call, warnings) matches Ok((after, _)) ==> after.len()
            == entries.len() && forall|k: int|
            0 <= k < entries.len() ==> substituted(call)((#[trigger] entries[k]).0, after[k].0)
                && raw_substituted(entries[k].1, after[k].1, call),
    decreases entries, entries.len() - i,
{
    if i < entries.len() {
        if let Ok((key, more)) = bound_literal(entries[i].0, call, warnings) {
            lemma_raw_bound(entries[i].1, call, more);
            if let Ok((value, rest)) = bound_raw(entries[i].1, call, more) {
                lemma_raw_pairs_bound(entries, i + 1, before.push((key, value)), call, rest);
            }
        }
    }
}

proof fn lemma_literals_bound(lits: Seq<LiteralV>, call: CallV, warnings: Seq<ComposeWarningV>)
    ensures
        Vec::<Literal>::bound(lits, call, warnings) matches Ok((after, _)) ==> lists_related(
            lits,
            after,
            substituted(call),
        ),
{
    lemma_bound_one_by_one::<Literal>(lits, 0, Seq::empty(), call, warnings);
    if let Ok((after, _)) = Vec::<Literal>::bound(lits, call, warnings) {
        assert forall|i: int| 0 <= i < lits.len() implies substituted(call)(
            #[trigger] lits[i],
            after[i],
        ) by {
            assert(becomes::<Literal>(lits[i], after[i], call));
        }
    }
}

proof fn lemma_command_bound(
    v: Option<ShellOrExecV>,
    call: CallV,
    warnings: Seq<ComposeWarningV>,
)
    ensures
        Option::<Command>::bound(v, call, warnings) matches Ok((after, _)) ==> commands_related(
            v,
            after,
            substituted(call),
        ),
        Option::<Entrypoint>::bound(v, call, warnings) matches Ok((after, _)) ==> commands_related(
            v,
            after,
            substituted(call),
        ),
        Option::<crate::ast::HealthcheckTest>::bound(v, call, warnings) matches Ok((after, _))
            ==> commands_related(v, after, substituted(call)),
{
    if let Some(ShellOrExecV::Exec(items, _)) = v {
        lemma_literals_bound(items, call, warnings);
    }
}

proof fn lemma_health_bound(
    v: Option<HealthcheckV>,
    call: CallV,
    warnings: Seq<ComposeWarningV>,
)
    ensures
        Option::<Healthcheck>::bound(v, call, warnings) matches Ok((after, _)) ==> match (
            v,
            after,
        ) {
            (Some(a), Some(b)) => {
                &&& a.span == b.span
                &&& a.disable == b.disable
                &&& commands_related(a.test, b.test, substituted(call))
                &&& optional_related(a.interval, b.interval, substituted(call))
                &&& optional_related(a.timeout, b.timeout, substituted(call))
                &&& optional_related(a.retries, b.retries, substituted(call))
                &&& optional_related(a.start_period, b.start_period, substituted(call))
                &&& optional_related(a.start_interval, b.start_interval, substituted(call))
            },
            (None, None) => true,
            _ => false,
        },
{
    if let Some(h) = v {
        lemma_command_bound(h.test, call, warnings);
    }
}

proof fn lemma_basics_bound(v: ServiceFieldsV, call: CallV, warnings: Seq<ComposeWarningV>)
    ensures
        bound_basics(v, call, warnings) matches Ok((after, _)) ==> ({
            &&& after == (ServiceFieldsV {
                image: after.image,
                build: after.build,
                expose: after.expose,
                restart: after.restart,
                container_name: after.container_name,
                ..v
            })
            &&& match (v.image, after.image) {
                (Some(a), Some(b)) => a.span == b.span && optional_related(
                    a.reference,
                    b.reference,
                    substituted(call),
                ),
                (None, None) => true,
                _ => false,
            }
            &&& match (v.build, after.build) {
                (Some(a), Some(b)) => a.span == b.span && optional_related(
                    a.context,
                    b.context,
                    substituted(call),
                ) && optional_related(a.dockerfile, b.dockerfile, substituted(call)),
                (None, None) => true,
                _ => false,
            }
            &&& match (v.expose, after.expose) {
                (Some(a), Some(b)) => a.span == b.span && optional_related(
                    a.port,
                    b.port,
                    substituted(call),
                ),
                (None, None) => true,
                _ => false,
            }
            &&& match (v.restart, after.restart) {
                (Some(a), Some(b)) => a.span == b.span && optional_related(
                    a.policy,
                    b.policy,
                    substituted(call),
                ),
                (None, None) => true,
                _ => false,
            }
            &&& optional_related(v.container_name, after.container_name, substituted(call))
        }),
{
}

proof fn lemma_running_bound(v: ServiceFieldsV, call: CallV, warnings: Seq<ComposeWarningV>)
    ensures
        bound_running(v, call, warnings) matches Ok((after, _)) ==> ({
            &&& after == (ServiceFieldsV {
                command: after.command,
                entrypoint: after.entrypoint,
                healthcheck: after.healthcheck,
                ..v
            })
            &&& commands_related(v.command, after.command, substituted(call))
            &&& commands_related(v.entrypoint, after.entrypoint, substituted(call))
            &&& match (v.healthcheck, after.healthcheck) {
                (Some(a), Some(b)) => {
                    &&& a.span == b.span
                    &&& a.disable == b.disable
                    &&& commands_related(a.test, b.test, substituted(call))
                    &&& optional_related(a.interval, b.interval, substituted(call))
                    &&& optional_related(a.timeout, b.timeout, substituted(call))
                    &&& optional_related(a.retries, b.retries, substituted(call))
                    &&& optional_related(a.start_period, b.start_period, substituted(call))
                    &&& optional_related(a.start_interval, b.start_interval, substituted(call))
                },
                (None, None) => true,
                _ => false,
            }
        }),
{
    lemma_command_bound(v.command, call, warnings);
    if let Ok((_, w1)) = Option::<Command>::bound(v.command, call, warnings) {
        lemma_command_bound(v.entrypoint, call, w1);
        if let Ok((_, w2)) = Option::<Entrypoint>::bound(v.entrypoint, call, w1) {
            lemma_health_bound(v.healthcheck, call, w2);
        }
    }
}

proof fn lemma_mount_list_bound(
    entries: Seq<ArrowMapEntryV>,
    call: CallV,
    warnings: Seq<ComposeWarningV>,
)
    ensures
        Vec::<ArrowMapEntry>::bound(entries, call, warnings) matches Ok((after, _))
            ==> mounts_related(
            entries,
            after,
            substituted(call),
            |a: LiteralV, b: LiteralV| a == b,
        ),
{
    lemma_bound_one_by_one::<ArrowMapEntry>(entries, 0, Seq::empty(), call, warnings);
    if let Ok((after, _)) = Vec::<ArrowMapEntry>::bound(entries, call, warnings) {
        assert forall|i: int| 0 <= i < entries.len() implies mount_related(
            #[trigger] entries[i],
            after[i],
            substituted(call),
            |a: LiteralV, b: LiteralV| a == b,
        ) by {
            assert(becomes::<ArrowMapEntry>(entries[i], after[i], call));
        }
    }
}

proof fn lemma_mounts_bound(v: ServiceFieldsV, call: CallV, warnings: Seq<ComposeWarningV>)
    ensures
        bound_mounts(v, call, warnings) matches Ok((after, _)) ==> ({
            &&& after == (ServiceFieldsV {
                volumes: after.volumes,
                publish: after.publish,
                devices: after.devices,
                ..v
            })
            &&& mounts_related(
                v.volumes.entries,
                after.volumes.entries,
                substituted(call),
                |a: LiteralV, b: LiteralV| a == b,
            )
            &&& mounts_related(
                v.publish.entries,
                after.publish.entries,
                substituted(call),
                |a: LiteralV, b: LiteralV| a == b,
            )
            &&& mounts_related(
                v.devices.entries,
                after.devices.entries,
                substituted(call),
                |a: LiteralV, b: LiteralV| a == b,
            )
        }),
{
    lemma_mount_list_bound(v.volumes.entries, call, warnings);
    if let Ok((_, w1)) = Vec::<ArrowMapEntry>::bound(v.volumes.entries, call, warnings) {
        lemma_mount_list_bound(v.publish.entries, call, w1);
        if let Ok((_, w2)) = Vec::<ArrowMapEntry>::bound(v.publish.entries, call, w1) {
            lemma_mount_list_bound(v.devices.entries, call, w2);
        }
    }
}

proof fn lemma_raw_map_bound(
    entries: Seq<RawEntryV>,
    call: CallV,
    warnings: Seq<ComposeWarningV>,
)
    ensures
        Vec::<RawEntry>::bound(entries, call, warnings) matches Ok((after, _))
            ==> raw_entries_related(
            entries,
            after,
            substituted(call),
            |a: RawValueV, b: RawValueV| raw_substituted(a, b, call),
        ),
{
    lemma_bound_one_by_one::<RawEntry>(entries, 0, Seq::empty(), call, warnings);
    if let Ok((after, _)) = Vec::<RawEntry>::bound(entries, call, warnings) {
        assert forall|i: int| 0 <= i < entries.len() implies (#[trigger] entries[i]).span
            == after[i].span && substituted(call)(entries[i].key, after[i].key) && raw_substituted(
            entries[i].value,
            after[i].value,
            call,
        ) by {
            assert(becomes::<RawEntry>(entries[i], after[i], call));
            let w = choose|w: Seq<ComposeWarningV>|
                (#[trigger] RawEntry::bound(entries[i], call, w)) matches Ok((x, _)) && x
                    == after[i];
            if let Ok((_, more)) = bound_literal(entries[i].key, call, w) {
                lemma_raw_bound(entries[i].value, call, more);
            }
        }
    }
}

proof fn lemma_env_bound(
    entries: Seq<EnvEntryV>,
    call: CallV,
    warnings: Seq<ComposeWarningV>,
)
    ensures
        Vec::<EnvEntry>::bound(entries, call, warnings) matches Ok((after, _)) ==> after.len()
            == entries.len() && forall|i: int|
            0 <= i < entries.len() ==> {
                &&& (#[trigger] entries[i]).span == after[i].span
                &&& substituted(call)(entries[i].key, after[i].key)
                &&& substituted(call)(entries[i].value, after[i].value)
            },
{
    lemma_bound_one_by_one::<EnvEntry>(entries, 0, Seq::empty(), call, warnings);
    if let Ok((after, _)) = Vec::<EnvEntry>::bound(entries, call, warnings) {
        assert forall|i: int| 0 <= i < entries.len() implies {
            &&& (#[trigger] entries[i]).span == after[i].span
            &&& substituted(call)(entries[i].key, after[i].key)
            &&& substituted(call)(entries[i].value, after[i].value)
        } by {
            assert(becomes::<EnvEntry>(entries[i], after[i], call));
        }
    }
}

proof fn lemma_labels_bound(
    entries: Seq<LabelEntryV>,
    call: CallV,
    warnings: Seq<ComposeWarningV>,
)
    ensures
        Vec::<LabelEntry>::bound(entries, call, warnings) matches Ok((after, _)) ==> after.len()
            == entries.len() && forall|i: int|
            0 <= i < entries.len() ==> {
                &&& (#[trigger] entries[i]).span == after[i].span
                &&& substituted(call)(entries[i].key, after[i].key)
                &&& label_values_related(entries[i].value, after[i].value, substituted(call))
            },
{
    lemma_bound_one_by_one::<LabelEntry>(entries, 0, Seq::empty(), call, warnings);
    if let Ok((after, _)) = Vec::<LabelEntry>::bound(entries, call, warnings) {
        assert forall|i: int| 0 <= i < entries.len() implies {
            &&& (#[trigger] entries[i]).span == after[i].span
            &&& substituted(call)(entries[i].key, after[i].key)
            &&& label_values_related(entries[i].value, after[i].value, substituted(call))
        } by {
            assert(becomes::<LabelEntry>(entries[i], after[i], call));
            let w = choose|w: Seq<ComposeWarningV>|
                (#[trigger] LabelEntry::bound(entries[i], call, w)) matches Ok((x, _)) && x
                    == after[i];
            if let Ok((_, more)) = bound_literal(entries[i].key, call, w) {
                if let LabelValueV::List(items, _) = entries[i].value {
                    lemma_literals_bound(items, call, more);
                }
            }
        }
    }
}

proof fn lemma_invocations_bound(
    with: Seq<TemplateInvocationV>,
    call: CallV,
    warnings: Seq<ComposeWarningV>,
)
    ensures
        Vec::<TemplateInvocation>::bound(with, call, warnings) matches Ok((after, _))
            ==> after.len() == with.len() && forall|i: int|
            0 <= i < with.len() ==> {
                &&& (#[trigger] with[i]).qualifier == after[i].qualifier
                &&& with[i].name == after[i].name
                &&& with[i].span == after[i].span
                &&& raw_entries_related(
                    with[i].args.entries,
                    after[i].args.entries,
                    substituted(call),
                    |a: RawValueV, b: RawValueV| raw_substituted(a, b, call),
                )
            },
{
    lemma_bound_one_by_one::<TemplateInvocation>(with, 0, Seq::empty(), call, warnings);
    if let Ok((after, _)) = Vec::<TemplateInvocation>::bound(with, call, warnings) {
        assert forall|i: int| 0 <= i < with.len() implies {
            &&& (#[trigger] with[i]).qualifier == after[i].qualifier
            &&& with[i].name == after[i].name
            &&& with[i].span == after[i].span
            &&& raw_entries_related(
                with[i].args.entries,
                after[i].args.entries,
                substituted(call),
                |a: RawValueV, b: RawValueV| raw_substituted(a, b, call),
            )
        } by {
            assert(becomes::<TemplateInvocation>(with[i], after[i], call));
            let w = choose|w: Seq<ComposeWarningV>|
                (#[trigger] TemplateInvocation::bound(with[i], call, w)) matches Ok((x, _)) && x
                    == after[i];
            lemma_raw_map_bound(with[i].args.entries, call, w);
        }
    }
}

proof fn lemma_entries_bound(v: ServiceFieldsV, call: CallV, warnings: Seq<ComposeWarningV>)
    ensures
        bound_entries(v, call, warnings) matches Ok((after, _)) ==> ({
            &&& after == (ServiceFieldsV {
                env: after.env,
                labels: after.labels,
                raw: after.raw,
                with: after.with,
                ..v
            })
            &&& after.env.entries.len() == v.env.entries.len()
            &&& forall|i: int|
                0 <= i < v.env.entries.len() ==> {
                    &&& (#[trigger] v.env.entries[i]).span == after.env.entries[i].span
                    &&& substituted(call)(v.env.entries[i].key, after.env.entries[i].key)
                    &&& substituted(call)(v.env.entries[i].value, after.env.entries[i].value)
                }
            &&& after.labels.entries.len() == v.labels.entries.len()
            &&& forall|i: int|
                0 <= i < v.labels.entries.len() ==> {
                    &&& (#[trigger] v.labels.entries[i]).span == after.labels.entries[i].span
                    &&& substituted(call)(v.labels.entries[i].key, after.labels.entries[i].key)
                    &&& label_values_related(
                        v.labels.entries[i].value,
                        after.labels.entries[i].value,
                        substituted(call),
                    )
                }
            &&& raw_entries_related(
                v.raw.entries,
                after.raw.entries,
                substituted(call),
                |a: RawValueV, b: RawValueV| raw_substituted(a, b, call),
            )
            &&& after.with.len() == v.with.len()
            &&& forall|i: int|
                0 <= i < v.with.len() ==> {
                    &&& (#[trigger] v.with[i]).qualifier == after.with[i].qualifier
                    &&& v.with[i].name == after.with[i].name
                    &&& v.with[i].span == after.with[i].span
                    &&& raw_entries_related(
                        v.with[i].args.entries,
                        after.with[i].args.entries,
                        substituted(call),
                        |a: RawValueV, b: RawValueV| raw_substituted(a, b, call),
                    )
                }
        }),
{
    lemma_env_bound(v.env.entries, call, warnings);
    if let Ok((_, w1)) = Vec::<EnvEntry>::bound(v.env.entries, call, warnings) {
        lemma_labels_bound(v.labels.entries, call, w1);
        if let Ok((_, w2)) = Vec::<LabelEntry>::bound(v.labels.entries, call, w1) {
            lemma_raw_map_bound(v.raw.entries, call, w2);
            if let Ok((_, w3)) = Vec::<RawEntry>::bound(v.raw.entries, call, w2) {
                lemma_invocations_bound(v.with, call, w3);
            }
        }
    }
}

/// Substituting an invocation's arguments into a body reaches every literal
/// of it, each in its own place, and changes nothing else; a volume that a
/// mount names is no literal. The lists of references have a law of their
/// own.
pub proof fn law_substitution_reaches_every_place(
    v: ServiceFieldsV,
    call: CallV,
    warnings: Seq<ComposeWarningV>,
)
    ensures
        ServiceFields::bound(v, call, warnings) matches Ok((after, _)) ==> {
            &&& values_related(v, after, substituted(call))
            &&& maps_related(
                v,
                after,
                substituted(call),
                |a: LiteralV, b: LiteralV| a == b,
                |a: RawValueV, b: RawValueV| raw_substituted(a, b, call),
            )
        },
{
    if let Ok((after, _)) = ServiceFields::bound(v, call, warnings) {
        lemma_basics_bound(v, call, warnings);
        let (v1, w1) = bound_basics(v, call, warnings)->Ok_0;
        lemma_running_bound(v1, call, w1);
        let (v2, w2) = bound_running(v1, call, w1)->Ok_0;
        lemma_mounts_bound(v2, call, w2);
        let (v3, w3) = bound_mounts(v2, call, w2)->Ok_0;
        lemma_entries_bound(v3, call, w3);
        let (v4, w4) = bound_entries(v3, call, w3)->Ok_0;
        assert(after == (ServiceFieldsV {
            networks: after.networks,
            dns: after.dns,
            env_file: after.env_file,
            depends_on: after.depends_on,
            ..v4
        }));
    }
}

/// A list behind another, where both came about.
pub open spec fn behind_each<T>(
    before: Seq<T>,
    r: Result<(Seq<T>, Seq<ComposeWarningV>), ComposeErrorV>,
) -> Result<(Seq<T>, Seq<ComposeWarningV>), ComposeErrorV> {
    match r {
        Ok((rest, warnings)) => Ok((before + rest, warnings)),
        Err(error) => Err(error),
    }
}

proof fn lemma_references_prefix(
    items: Seq<LiteralV>,
    i: int,
    before: Seq<LiteralV>,
    call: CallV,
    warnings: Seq<ComposeWarningV>,
)
    requires
        0 <= i,
    ensures
        bound_references_from(items, i, before, call, warnings) == behind_each(
            before,
            bound_references_from(items, i, Seq::empty(), call, warnings),
        ),
    decreases items.len() - i,
{
    if i < items.len() {
        match spliced_list(items[i], call) {
            Some((param, list)) => {
                lemma_spliced_prefix(list, 0, before, param, call);
                if let Ok(more) = spliced(list, 0, Seq::empty(), param, call) {
                    lemma_references_prefix(items, i + 1, before + more, call, warnings);
                    lemma_references_prefix(items, i + 1, more, call, warnings);
                    if let Ok((rest, _)) = bound_references_from(
                        items,
                        i + 1,
                        Seq::empty(),
                        call,
                        warnings,
                    ) {
                        assert(before + more + rest =~= before + (more + rest));
                    }
                }
            },
            None => {
                if let Ok((lit, after)) = bound_reference(items[i], call, warnings) {
                    let unit = lit;
                    lemma_references_prefix(items, i + 1, before.push(unit), call, after);
                    lemma_references_prefix(items, i + 1, Seq::empty().push(unit), call, after);
                    if let Ok((rest, _)) = bound_references_from(
                        items,
                        i + 1,
                        Seq::empty(),
                        call,
                        after,
                    ) {
                        assert(before.push(unit) + rest =~= before + (Seq::empty().push(unit)
                            + rest));
                    }
                }
            },
        }
    } else {
        assert(before + Seq::<LiteralV>::empty() =~= before);
    }
}

proof fn lemma_references_of_two(
    a: Seq<LiteralV>,
    b: Seq<LiteralV>,
    i: int,
    before: Seq<LiteralV>,
    call: CallV,
    warnings: Seq<ComposeWarningV>,
)
    requires
        0 <= i <= a.len(),
    ensures
        bound_references_from(a + b, i, before, call, warnings) == match bound_references_from(
            a,
            i,
            before,
            call,
            warnings,
        ) {
            Ok((x, more)) => bound_references_from(b, 0, x, call, more),
            Err(error) => Err(error),
        },
    decreases a.len() - i,
{
    let s = a + b;
    if i < a.len() {
        assert(s[i] == a[i]);
        match spliced_list(a[i], call) {
            Some((param, list)) => {
                if let Ok(more) = spliced(list, 0, before, param, call) {
                    lemma_references_of_two(a, b, i + 1, more, call, warnings);
                }
            },
            None => {
                if let Ok((lit, after)) = bound_reference(a[i], call, warnings) {
                    let unit = lit;
                    lemma_references_of_two(a, b, i + 1, before.push(unit), call, after);
                }
            },
        }
    } else {
        lemma_references_shift(a, b, 0, before, call, warnings);
    }
}

proof fn lemma_references_shift(
    a: Seq<LiteralV>,
    b: Seq<LiteralV>,
    j: int,
    before: Seq<LiteralV>,
    call: CallV,
    warnings: Seq<ComposeWarningV>,
)
    requires
        0 <= j <= b.len(),
    ensures
        bound_references_from(a + b, a.len() + j, before, call, warnings) == bound_references_from(
            b,
            j,
            before,
            call,
            warnings,
        ),
    decreases b.len() - j,
{
    let s = a + b;
    if j < b.len() {
        assert(s[a.len() + j] == b[j]);
        match spliced_list(b[j], call) {
            Some((param, list)) => {
                if let Ok(more) = spliced(list, 0, before, param, call) {
                    lemma_references_shift(a, b, j + 1, more, call, warnings);
                }
            },
            None => {
                if let Ok((lit, after)) = bound_reference(b[j], call, warnings) {
                    let unit = lit;
                    lemma_references_shift(a, b, j + 1, before.push(unit), call, after);
                }
            },
        }
    }
}

proof fn lemma_spliced_prefix(
    list: Seq<RawValueV>,
    j: int,
    before: Seq<LiteralV>,
    param: Seq<char>,
    call: CallV,
)
    requires
        0 <= j,
    ensures
        spliced(list, j, before, param, call) == match spliced(
            list,
            j,
            Seq::empty(),
            param,
            call,
        ) {
            Ok(more) => Ok(before + more),
            Err(error) => Err(error),
        },
    decreases list.len() - j,
{
    if j < list.len() {
        if let Ok(lit) = spliced_item(list[j], param, call) {
            let unit = lit;
            lemma_spliced_prefix(list, j + 1, before.push(unit), param, call);
            lemma_spliced_prefix(list, j + 1, Seq::empty().push(unit), param, call);
            if let Ok(rest) = spliced(list, j + 1, Seq::empty(), param, call) {
                assert(before.push(unit) + rest =~= before + (Seq::empty().push(unit) + rest));
            }
        }
    } else {
        assert(before + Seq::<LiteralV>::empty() =~= before);
    }
}

proof fn lemma_dependencies_prefix(
    items: Seq<DependsOnEntryV>,
    i: int,
    before: Seq<DependsOnEntryV>,
    call: CallV,
    warnings: Seq<ComposeWarningV>,
)
    requires
        0 <= i,
    ensures
        bound_dependencies_from(items, i, before, call, warnings) == behind_each(
            before,
            bound_dependencies_from(items, i, Seq::empty(), call, warnings),
        ),
    decreases items.len() - i,
{
    if i < items.len() {
        match spliced_list(items[i].reference, call) {
            Some((param, list)) => {
                lemma_spliced_dependencies_prefix(list, 0, before, items[i], param, call);
                if let Ok(more) = spliced_dependencies(
                    list,
                    0,
                    Seq::empty(),
                    items[i],
                    param,
                    call,
                ) {
                    lemma_dependencies_prefix(items, i + 1, before + more, call, warnings);
                    lemma_dependencies_prefix(items, i + 1, more, call, warnings);
                    if let Ok((rest, _)) = bound_dependencies_from(
                        items,
                        i + 1,
                        Seq::empty(),
                        call,
                        warnings,
                    ) {
                        assert(before + more + rest =~= before + (more + rest));
                    }
                }
            },
            None => {
                if let Ok((lit, after)) = bound_reference(items[i].reference, call, warnings) {
                    let unit = DependsOnEntryV { reference: lit, ..items[i] };
                    lemma_dependencies_prefix(items, i + 1, before.push(unit), call, after);
                    lemma_dependencies_prefix(items, i + 1, Seq::empty().push(unit), call, after);
                    if let Ok((rest, _)) = bound_dependencies_from(
                        items,
                        i + 1,
                        Seq::empty(),
                        call,
                        after,
                    ) {
                        assert(before.push(unit) + rest =~= before + (Seq::empty().push(unit)
                            + rest));
                    }
                }
            },
        }
    } else {
        assert(before + Seq::<DependsOnEntryV>::empty() =~= before);
    }
}

proof fn lemma_dependencies_of_two(
    a: Seq<DependsOnEntryV>,
    b: Seq<DependsOnEntryV>,
    i: int,
    before: Seq<DependsOnEntryV>,
    call: CallV,
    warnings: Seq<ComposeWarningV>,
)
    requires
        0 <= i <= a.len(),
    ensures
        bound_dependencies_from(a + b, i, before, call, warnings) == match bound_dependencies_from(
            a,
            i,
            before,
            call,
            warnings,
        ) {
            Ok((x, more)) => bound_dependencies_from(b, 0, x, call, more),
            Err(error) => Err(error),
        },
    decreases a.len() - i,
{
    let s = a + b;
    if i < a.len() {
        assert(s[i] == a[i]);
        match spliced_list(a[i].reference, call) {
            Some((param, list)) => {
                if let Ok(more) = spliced_dependencies(list, 0, before, a[i], param, call) {
                    lemma_dependencies_of_two(a, b, i + 1, more, call, warnings);
                }
            },
            None => {
                if let Ok((lit, after)) = bound_reference(a[i].reference, call, warnings) {
                    let unit = DependsOnEntryV { reference: lit, ..a[i] };
                    lemma_dependencies_of_two(a, b, i + 1, before.push(unit), call, after);
                }
            },
        }
    } else {
        lemma_dependencies_shift(a, b, 0, before, call, warnings);
    }
}

proof fn lemma_dependencies_shift(
    a: Seq<DependsOnEntryV>,
    b: Seq<DependsOnEntryV>,
    j: int,
    before: Seq<DependsOnEntryV>,
    call: CallV,
    warnings: Seq<ComposeWarningV>,
)
    requires
        0 <= j <= b.len(),
    ensures
        bound_dependencies_from(
            a + b,
            a.len() + j,
            before,
            call,
            warnings,
        ) == bound_dependencies_from(
            b,
            j,
            before,
            call,
            warnings,
        ),
    decreases b.len() - j,
{
    let s = a + b;
    if j < b.len() {
        assert(s[a.len() + j] == b[j]);
        match spliced_list(b[j].reference, call) {
            Some((param, list)) => {
                if let Ok(more) = spliced_dependencies(list, 0, before, b[j], param, call) {
                    lemma_dependencies_shift(a, b, j + 1, more, call, warnings);
                }
            },
            None => {
                if let Ok((lit, after)) = bound_reference(b[j].reference, call, warnings) {
                    let unit = DependsOnEntryV { reference: lit, ..b[j] };
                    lemma_dependencies_shift(a, b, j + 1, before.push(unit), call, after);
                }
            },
        }
    }
}

proof fn lemma_spliced_dependencies_prefix(
    list: Seq<RawValueV>,
    j: int,
    before: Seq<DependsOnEntryV>,
    entry: DependsOnEntryV,
    param: Seq<char>,
    call: CallV,
)
    requires
        0 <= j,
    ensures
        spliced_dependencies(list, j, before, entry, param, call) == match spliced_dependencies(
            list,
            j,
            Seq::empty(),
            entry, param,
            call,
        ) {
            Ok(more) => Ok(before + more),
            Err(error) => Err(error),
        },
    decreases list.len() - j,
{
    if j < list.len() {
        if let Ok(lit) = spliced_item(list[j], param, call) {
            let unit = DependsOnEntryV { reference: lit, ..entry };
            lemma_spliced_dependencies_prefix(list, j + 1, before.push(unit), entry, param, call);
            lemma_spliced_dependencies_prefix(
                list,
                j + 1,
                Seq::empty().push(unit),
                entry,
                param,
                call,
            );
            if let Ok(rest) = spliced_dependencies(list, j + 1, Seq::empty(), entry, param, call) {
                assert(before.push(unit) + rest =~= before + (Seq::empty().push(unit) + rest));
            }
        }
    } else {
        assert(before + Seq::<DependsOnEntryV>::empty() =~= before);
    }
}

/// Substituting into a list of references does it piece by piece: what
/// becomes of two lists one behind the other is what becomes of each.
pub proof fn law_reference_lists_bind_piecewise(
    a: Seq<LiteralV>,
    b: Seq<LiteralV>,
    c: Seq<DependsOnEntryV>,
    d: Seq<DependsOnEntryV>,
    call: CallV,
    warnings: Seq<ComposeWarningV>,
)
    ensures
        bound_references(a + b, call, warnings) == match bound_references(a, call, warnings) {
            Ok((x, more)) => behind_each(x, bound_references(b, call, more)),
            Err(error) => Err(error),
        },
        bound_dependencies(c + d, call, warnings) == match bound_dependencies(c, call, warnings) {
            Ok((x, more)) => behind_each(x, bound_dependencies(d, call, more)),
            Err(error) => Err(error),
        },
{
    lemma_references_of_two(a, b, 0, Seq::empty(), call, warnings);
    if let Ok((x, more)) = bound_references(a, call, warnings) {
        lemma_references_prefix(b, 0, x, call, more);
    }
    lemma_dependencies_of_two(c, d, 0, Seq::empty(), call, warnings);
    if let Ok((x, more)) = bound_dependencies(c, call, warnings) {
        lemma_dependencies_prefix(d, 0, x, call, more);
    }
}

/// Whether no item of a list is a number, a list or a map.
pub open spec fn names_only(items: Seq<RawValueV>) -> bool {
    forall|i: int|
        0 <= i < items.len() ==> (#[trigger] items[i] matches RawValueV::Literal(lit) && !(
        lit is Number))
}

proof fn lemma_names_spliced(
    items: Seq<RawValueV>,
    j: int,
    param: Seq<char>,
    call: CallV,
    entry: DependsOnEntryV,
)
    requires
        0 <= j <= items.len(),
        names_only(items),
    ensures
        spliced(
            items,
            j,
            Seq::new(j as nat, |k: int| items[k]->Literal_0),
            param,
            call,
        ) == Ok::<Seq<LiteralV>, ComposeErrorV>(
            Seq::new(items.len(), |k: int| items[k]->Literal_0),
        ),
        spliced_dependencies(
            items,
            j,
            Seq::new(
                j as nat,
                |k: int| DependsOnEntryV { reference: items[k]->Literal_0, ..entry },
            ),
            entry,
            param,
            call,
        ) == Ok::<Seq<DependsOnEntryV>, ComposeErrorV>(
            Seq::new(
                items.len(),
                |k: int| DependsOnEntryV { reference: items[k]->Literal_0, ..entry },
            ),
        ),
    decreases items.len() - j,
{
    let lits = Seq::new(j as nat, |k: int| items[k]->Literal_0);
    let entries = Seq::new(
        j as nat,
        |k: int| DependsOnEntryV { reference: items[k]->Literal_0, ..entry },
    );
    if j < items.len() {
        let lit = items[j]->Literal_0;
        assert(items[j] == RawValueV::Literal(lit));
        assert(lits.push(lit) =~= Seq::new((j + 1) as nat, |k: int| items[k]->Literal_0));
        assert(entries.push(DependsOnEntryV { reference: lit, ..entry }) =~= Seq::new(
            (j + 1) as nat,
            |k: int| DependsOnEntryV { reference: items[k]->Literal_0, ..entry },
        ));
        lemma_names_spliced(items, j + 1, param, call, entry);
    }
}

/// A parameter in a list of references for which a list is given becomes
/// the items of that list, in order and in its place; a dependency keeps
/// its condition for each of them. Any other reference becomes one.
pub proof fn law_given_lists_are_spliced(
    call: CallV,
    name: Seq<char>,
    span: crate::source::Span,
    items: Seq<RawValueV>,
    place: crate::source::Span,
    entry: DependsOnEntryV,
    lit: LiteralV,
    warnings: Seq<ComposeWarningV>,
)
    requires
        names_only(items),
        call.arg(name) == Some(RawValueV::List(items, place)),
        entry.reference == LiteralV::Param(name, span),
        !(lit is Param),
    ensures
        bound_references(seq![LiteralV::Param(name, span)], call, warnings) == Ok::<
            (Seq<LiteralV>, Seq<ComposeWarningV>),
            ComposeErrorV,
        >((Seq::new(items.len(), |k: int| items[k]->Literal_0), warnings)),
        bound_dependencies(seq![entry], call, warnings) matches Ok((after, _)) && after.len()
            == items.len() && (forall|k: int|
            0 <= k < items.len() ==> {
                &&& (#[trigger] after[k]).reference == items[k]->Literal_0
                &&& after[k].condition == entry.condition
                &&& after[k].span == entry.span
            }),
        bound_references(seq![lit], call, warnings) matches Ok((after, _)) ==> lists_related(
            seq![lit],
            after,
            substituted(call),
        ),
{
    reveal_with_fuel(bound_references_from, 2);
    reveal_with_fuel(bound_dependencies_from, 2);
    lemma_names_spliced(items, 0, name, call, entry);
    assert(Seq::<LiteralV>::empty() =~= Seq::new(0, |k: int| items[k]->Literal_0));
    assert(Seq::<DependsOnEntryV>::empty() =~= Seq::new(
        0,
        |k: int| DependsOnEntryV { reference: items[k]->Literal_0, ..entry },
    ));
}

/// The lists of a body are substituted into each under its own name.
pub proof fn law_lists_bind_under_their_names(
    v: ServiceFieldsV,
    call: CallV,
    warnings: Seq<ComposeWarningV>,
)
    ensures
        ServiceFields::bound(v, call, warnings) matches Ok((after, _)) ==> {
            &&& exists|w: Seq<ComposeWarningV>|
                (#[trigger] bound_references(v.networks, call, w)) matches Ok((x, _)) && x
                    == after.networks
            &&& exists|w: Seq<ComposeWarningV>|
                (#[trigger] bound_references(v.dns, call, w)) matches Ok((x, _)) && x == after.dns
            &&& exists|w: Seq<ComposeWarningV>|
                (#[trigger] bound_references(v.env_file, call, w)) matches Ok((x, _)) && x
                    == after.env_file
            &&& exists|w: Seq<ComposeWarningV>|
                (#[trigger] bound_dependencies(v.depends_on, call, w)) matches Ok((x, _)) && x
                    == after.depends_on
        },
{
    if let Ok((after, _)) = ServiceFields::bound(v, call, warnings) {
        let (v1, w1) = bound_basics(v, call, warnings)->Ok_0;
        let (v2, w2) = bound_running(v1, call, w1)->Ok_0;
        let (v3, w3) = bound_mounts(v2, call, w2)->Ok_0;
        let (v4, w4) = bound_entries(v3, call, w3)->Ok_0;
        assert(v4.networks == v.networks && v4.dns == v.dns && v4.env_file == v.env_file
            && v4.depends_on == v.depends_on);
        let (_, x1) = bound_references(v.networks, call, w4)->Ok_0;
        let (_, x2) = bound_references(v.dns, call, x1)->Ok_0;
        let (_, x3) = bound_references(v.env_file, call, x2)->Ok_0;
        assert(bound_references(v.networks, call, w4) is Ok);
        assert(bound_references(v.dns, call, x1) is Ok);
        assert(bound_references(v.env_file, call, x2) is Ok);
        assert(bound_dependencies(v.depends_on, call, x3) is Ok);
    }
}

} // verus!
