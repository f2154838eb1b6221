//! What merging does to each field of a body, one by one: a value set
//! under a field stays under that field, and what a tier leaves unset stays
//! as it was.

use vstd::prelude::*;
use vstd::string::*;

use crate::ast::{
    ArrowMapEntry, ArrowMapEntryV, BuildV, DependsOnEntry, DependsOnEntryV, EnvEntry, EnvEntryV,
    HealthcheckV, LabelEntry, LabelEntryV, LiteralV, RawEntry, RawEntryV, ServiceFieldsV,
    ShellOrExecV,
};
use crate::compose::merge::{
    final_values, key_index, merged_basics, merged_commands, merged_dependencies, merged_dependency,
    merged_entry, merged_labels, merged_map, merged_probe, merged_scalars, merged_starting,
    merged_tier, merged_timing, text_index, with_distinct, Keyed, MergeAccV, Placed, TierV,
};
use crate::compose::merge_laws::{own_keys_distinct, texts_distinct};
use crate::compose_error::{ComposeErrorV, MapKeyCollisionV};
use crate::schema::MapSide;
use crate::source::Span;

verus! {

/// A value over another: the upper one, where there is one.
pub open spec fn over<T>(upper: Option<T>, lower: Option<T>) -> Option<T> {
    if upper is Some {
        upper
    } else {
        lower
    }
}

/// The part of a nested field that `part` picks, where the field is set.
pub open spec fn inside_of<S, T>(field: Option<S>, part: spec_fn(S) -> Option<T>) -> Option<T> {
    match field {
        Some(inner) => part(inner),
        None => None,
    }
}

/// Whether each single-value field of `after` is that of `upper` over that
/// of `lower`.
pub open spec fn single_values_layered(
    after: ServiceFieldsV,
    upper: ServiceFieldsV,
    lower: ServiceFieldsV,
) -> bool {
    &&& inside_of(after.image, |x: crate::ast::ImageV| x.reference) == over(
        inside_of(upper.image, |x: crate::ast::ImageV| x.reference),
        inside_of(lower.image, |x: crate::ast::ImageV| x.reference),
    )
    &&& inside_of(after.build, |x: BuildV| x.context) == over(
        inside_of(upper.build, |x: BuildV| x.context),
        inside_of(lower.build, |x: BuildV| x.context),
    )
    &&& inside_of(after.build, |x: BuildV| x.dockerfile) == over(
        inside_of(upper.build, |x: BuildV| x.dockerfile),
        inside_of(lower.build, |x: BuildV| x.dockerfile),
    )
    &&& inside_of(after.expose, |x: crate::ast::ExposeV| x.port) == over(
        inside_of(upper.expose, |x: crate::ast::ExposeV| x.port),
        inside_of(lower.expose, |x: crate::ast::ExposeV| x.port),
    )
    &&& inside_of(after.restart, |x: crate::ast::RestartV| x.policy) == over(
        inside_of(upper.restart, |x: crate::ast::RestartV| x.policy),
        inside_of(lower.restart, |x: crate::ast::RestartV| x.policy),
    )
    &&& inside_of(after.healthcheck, |x: HealthcheckV| x.test) == over(
        inside_of(upper.healthcheck, |x: HealthcheckV| x.test),
        inside_of(lower.healthcheck, |x: HealthcheckV| x.test),
    )
    &&& inside_of(after.healthcheck, |x: HealthcheckV| x.interval) == over(
        inside_of(upper.healthcheck, |x: HealthcheckV| x.interval),
        inside_of(lower.healthcheck, |x: HealthcheckV| x.interval),
    )
    &&& inside_of(after.healthcheck, |x: HealthcheckV| x.timeout) == over(
        inside_of(upper.healthcheck, |x: HealthcheckV| x.timeout),
        inside_of(lower.healthcheck, |x: HealthcheckV| x.timeout),
    )
    &&& inside_of(after.healthcheck, |x: HealthcheckV| x.retries) == over(
        inside_of(upper.healthcheck, |x: HealthcheckV| x.retries),
        inside_of(lower.healthcheck, |x: HealthcheckV| x.retries),
    )
    &&& inside_of(after.healthcheck, |x: HealthcheckV| x.start_period) == over(
        inside_of(upper.healthcheck, |x: HealthcheckV| x.start_period),
        inside_of(lower.healthcheck, |x: HealthcheckV| x.start_period),
    )
    &&& inside_of(after.healthcheck, |x: HealthcheckV| x.start_interval) == over(
        inside_of(upper.healthcheck, |x: HealthcheckV| x.start_interval),
        inside_of(lower.healthcheck, |x: HealthcheckV| x.start_interval),
    )
    &&& inside_of(after.healthcheck, |x: HealthcheckV| x.disable) == over(
        inside_of(upper.healthcheck, |x: HealthcheckV| x.disable),
        inside_of(lower.healthcheck, |x: HealthcheckV| x.disable),
    )
    &&& after.container_name == over(upper.container_name, lower.container_name)
    &&& after.command == over(upper.command, lower.command)
    &&& after.entrypoint == over(upper.entrypoint, lower.entrypoint)
    &&& after.privileged == over(upper.privileged, lower.privileged)
}

proof fn lemma_scalars_layered(acc: MergeAccV, own: ServiceFieldsV)
    ensures
        merged_scalars(acc, own, TierV::Own) matches Ok(after) && single_values_layered(
            after.fields(),
            own,
            acc.fields(),
        ) && after.networks == acc.networks && after.dns == acc.dns && after.env_file
            == acc.env_file && after.volumes == acc.volumes && after.publish == acc.publish
            && after.devices == acc.devices && after.env == acc.env && after.labels == acc.labels
            && after.depends_on == acc.depends_on && after.raw == acc.raw,
{
    let basics = merged_basics(acc, own, TierV::Own);
    assert(basics is Ok);
    let timing = merged_timing(basics->Ok_0, own, TierV::Own);
    assert(timing is Ok);
    let starting = merged_starting(timing->Ok_0, own, TierV::Own);
    assert(starting is Ok);
    let probe = merged_probe(starting->Ok_0, own, TierV::Own);
    assert(probe is Ok);
    let commands = merged_commands(probe->Ok_0, own, TierV::Own);
    assert(commands is Ok);
}

/// The body's own values win field by field: where the body sets a
/// single-value field, that very field has that value after the merge, and
/// where it leaves it unset, the value that was there.
pub proof fn law_own_fields_win_one_by_one(acc: MergeAccV, own: ServiceFieldsV)
    ensures
        merged_tier(acc, own, TierV::Own) matches Ok(after) ==> single_values_layered(
            after.fields(),
            own,
            acc.fields(),
        ),
{
    lemma_scalars_layered(acc, own);
}

/// Whether two bodies set one single-value field both.
pub open spec fn share_a_value(a: ServiceFieldsV, b: ServiceFieldsV) -> bool {
    ||| inside_of(
        a.image,
        |x: crate::ast::ImageV| x.reference,
    ) is Some && inside_of(b.image, |x: crate::ast::ImageV| x.reference) is Some
    ||| inside_of(
        a.build,
        |x: BuildV| x.context,
    ) is Some && inside_of(b.build, |x: BuildV| x.context) is Some
    ||| inside_of(
        a.build,
        |x: BuildV| x.dockerfile,
    ) is Some && inside_of(b.build, |x: BuildV| x.dockerfile) is Some
    ||| inside_of(
        a.expose,
        |x: crate::ast::ExposeV| x.port,
    ) is Some && inside_of(b.expose, |x: crate::ast::ExposeV| x.port) is Some
    ||| inside_of(
        a.restart,
        |x: crate::ast::RestartV| x.policy,
    ) is Some && inside_of(b.restart, |x: crate::ast::RestartV| x.policy) is Some
    ||| inside_of(
        a.healthcheck,
        |x: HealthcheckV| x.interval,
    ) is Some && inside_of(b.healthcheck, |x: HealthcheckV| x.interval) is Some
    ||| inside_of(
        a.healthcheck,
        |x: HealthcheckV| x.timeout,
    ) is Some && inside_of(b.healthcheck, |x: HealthcheckV| x.timeout) is Some
    ||| inside_of(
        a.healthcheck,
        |x: HealthcheckV| x.retries,
    ) is Some && inside_of(b.healthcheck, |x: HealthcheckV| x.retries) is Some
    ||| inside_of(
        a.healthcheck,
        |x: HealthcheckV| x.start_period,
    ) is Some && inside_of(b.healthcheck, |x: HealthcheckV| x.start_period) is Some
    ||| inside_of(
        a.healthcheck,
        |x: HealthcheckV| x.start_interval,
    ) is Some && inside_of(b.healthcheck, |x: HealthcheckV| x.start_interval) is Some
    ||| inside_of(
        a.healthcheck,
        |x: HealthcheckV| x.test,
    ) is Some && inside_of(b.healthcheck, |x: HealthcheckV| x.test) is Some
    ||| inside_of(
        a.healthcheck,
        |x: HealthcheckV| x.disable,
    ) is Some && inside_of(b.healthcheck, |x: HealthcheckV| x.disable) is Some
    ||| a.container_name is Some && b.container_name is Some
    ||| a.command is Some && b.command is Some
    ||| a.entrypoint is Some && b.entrypoint is Some
    ||| a.privileged is Some && b.privileged is Some
}

/// Whether an error says that two templates set a field both, and where
/// each of them does.
pub open spec fn collide_at<T>(
    error: ComposeErrorV,
    name: Seq<char>,
    first_value: Option<T>,
    second_value: Option<T>,
    place: spec_fn(T) -> Span,
    t1: Seq<char>,
    t2: Seq<char>,
) -> bool {
    match (first_value, second_value) {
        (Some(x), Some(y)) => error == (ComposeErrorV::FieldCollision {
            field: name,
            first_template: t1,
            second_template: t2,
            first: place(x),
            second: place(y),
        }),
        _ => false,
    }
}

/// Whether an error names a single-value field that both bodies set, by
/// its path, and both places.
pub open spec fn names_the_shared_value(
    error: ComposeErrorV,
    a: ServiceFieldsV,
    b: ServiceFieldsV,
    t1: Seq<char>,
    t2: Seq<char>,
) -> bool {
    ||| collide_at(
        error,
        "image.ref"@,
        inside_of(a.image, |x: crate::ast::ImageV| x.reference),
        inside_of(b.image, |x: crate::ast::ImageV| x.reference),
        |x: LiteralV| x.span(),
        t1,
        t2,
    )
    ||| collide_at(
        error,
        "build.context"@,
        inside_of(a.build, |x: BuildV| x.context),
        inside_of(b.build, |x: BuildV| x.context),
        |x: LiteralV| x.span(),
        t1,
        t2,
    )
    ||| collide_at(
        error,
        "build.dockerfile"@,
        inside_of(a.build, |x: BuildV| x.dockerfile),
        inside_of(b.build, |x: BuildV| x.dockerfile),
        |x: LiteralV| x.span(),
        t1,
        t2,
    )
    ||| collide_at(
        error,
        "expose.port"@,
        inside_of(a.expose, |x: crate::ast::ExposeV| x.port),
        inside_of(b.expose, |x: crate::ast::ExposeV| x.port),
        |x: LiteralV| x.span(),
        t1,
        t2,
    )
    ||| collide_at(
        error,
        "restart.policy"@,
        inside_of(a.restart, |x: crate::ast::RestartV| x.policy),
        inside_of(b.restart, |x: crate::ast::RestartV| x.policy),
        |x: LiteralV| x.span(),
        t1,
        t2,
    )
    ||| collide_at(
        error,
        "healthcheck.interval"@,
        inside_of(a.healthcheck, |x: HealthcheckV| x.interval),
        inside_of(b.healthcheck, |x: HealthcheckV| x.interval),
        |x: LiteralV| x.span(),
        t1,
        t2,
    )
    ||| collide_at(
        error,
        "healthcheck.timeout"@,
        inside_of(a.healthcheck, |x: HealthcheckV| x.timeout),
        inside_of(b.healthcheck, |x: HealthcheckV| x.timeout),
        |x: LiteralV| x.span(),
        t1,
        t2,
    )
    ||| collide_at(
        error,
        "healthcheck.retries"@,
        inside_of(a.healthcheck, |x: HealthcheckV| x.retries),
        inside_of(b.healthcheck, |x: HealthcheckV| x.retries),
        |x: LiteralV| x.span(),
        t1,
        t2,
    )
    ||| collide_at(
        error,
        "healthcheck.start_period"@,
        inside_of(a.healthcheck, |x: HealthcheckV| x.start_period),
        inside_of(b.healthcheck, |x: HealthcheckV| x.start_period),
        |x: LiteralV| x.span(),
        t1,
        t2,
    )
    ||| collide_at(
        error,
        "healthcheck.start_interval"@,
        inside_of(a.healthcheck, |x: HealthcheckV| x.start_interval),
        inside_of(b.healthcheck, |x: HealthcheckV| x.start_interval),
        |x: LiteralV| x.span(),
        t1,
        t2,
    )
    ||| collide_at(
        error,
        "healthcheck.test"@,
        inside_of(a.healthcheck, |x: HealthcheckV| x.test),
        inside_of(b.healthcheck, |x: HealthcheckV| x.test),
        |x: ShellOrExecV| x.span(),
        t1,
        t2,
    )
    ||| collide_at(
        error,
        "healthcheck.disable"@,
        inside_of(a.healthcheck, |x: HealthcheckV| x.disable),
        inside_of(b.healthcheck, |x: HealthcheckV| x.disable),
        |x: Span| x,
        t1,
        t2,
    )
    ||| collide_at(
        error,
        "container_name"@,
        a.container_name,
        b.container_name,
        |x: LiteralV| x.span(),
        t1,
        t2,
    )
    ||| collide_at(
        error,
        "command"@,
        a.command,
        b.command,
        |x: ShellOrExecV| x.span(),
        t1,
        t2,
    )
    ||| collide_at(
        error,
        "entrypoint"@,
        a.entrypoint,
        b.entrypoint,
        |x: ShellOrExecV| x.span(),
        t1,
        t2,
    )
    ||| collide_at(
        error,
        "privileged"@,
        a.privileged,
        b.privileged,
        |x: Span| x,
        t1,
        t2,
    )
}

proof fn lemma_first_scalars(a: ServiceFieldsV, t1: Seq<char>)
    ensures
        merged_scalars(MergeAccV::none(), a, TierV::Explicit(t1)) matches Ok(after)
            && single_values_layered(after.fields(), a, MergeAccV::none().fields()),
{
}

#[verifier::rlimit(40)]
proof fn lemma_second_scalars(a: ServiceFieldsV, b: ServiceFieldsV, t1: Seq<char>, t2: Seq<char>)
    ensures
        merged_scalars(MergeAccV::none(), a, TierV::Explicit(t1)) matches Ok(acc) && (
        match merged_scalars(acc, b, TierV::Explicit(t2)) {
            Ok(after) => !share_a_value(a, b) && single_values_layered(after.fields(), b, a),
            Err(error) => share_a_value(a, b) && names_the_shared_value(error, a, b, t1, t2),
        }),
{
    lemma_first_scalars(a, t1);
    let acc = merged_scalars(MergeAccV::none(), a, TierV::Explicit(t1))->Ok_0;
    let tier = TierV::Explicit(t2);
    let basics = merged_basics(acc, b, tier);
    if basics is Ok {
        let timing = merged_timing(basics->Ok_0, b, tier);
        if timing is Ok {
            let starting = merged_starting(timing->Ok_0, b, tier);
            if starting is Ok {
                let probe = merged_probe(starting->Ok_0, b, tier);
            }
        }
    }
}

/// Whether one of `entries` has this key.
pub open spec fn has_key<V>(
    entries: Seq<V>,
    key: spec_fn(V) -> Seq<char>,
    text: Seq<char>,
) -> bool {
    exists|k: int| 0 <= k < entries.len() && key(#[trigger] entries[k]) == text
}

/// Whether no two of `entries` have one key.
pub open spec fn keys_differ<V>(entries: Seq<V>, key: spec_fn(V) -> Seq<char>) -> bool {
    forall|p: int, q: int|
        0 <= p < q < entries.len() ==> key(#[trigger] entries[p]) != key(#[trigger] entries[q])
}

/// Whether `after` is the map `lower` with the entries of `upper` laid over
/// it: each place of `lower` keeps its key, and its entry unless `upper`
/// has one under that key; what else there is comes from `upper`, and all
/// of `upper` is there.
pub open spec fn entries_layered<V>(
    after: Seq<V>,
    upper: Seq<V>,
    lower: Seq<V>,
    key: spec_fn(V) -> Seq<char>,
) -> bool {
    &&& lower.len() <= after.len()
    &&& forall|k: int|
        0 <= k < lower.len() ==> key(#[trigger] after[k]) == key(lower[k]) && (if has_key(
            upper,
            key,
            key(lower[k]),
        ) {
            upper.contains(after[k])
        } else {
            after[k] == lower[k]
        })
    &&& forall|k: int| lower.len() <= k < after.len() ==> upper.contains(#[trigger] after[k])
    &&& forall|j: int| 0 <= j < upper.len() ==> after.contains(#[trigger] upper[j])
    &&& lower.len() == 0 ==> after == upper
}

/// What holds of a map on the way, with the entries from `i` on still to
/// come.
spec fn partly_layered<E: Keyed>(
    after: Seq<(E::V, TierV)>,
    own: Seq<E::V>,
    i: int,
    held: Seq<(E::V, TierV)>,
) -> bool {
    &&& held.len() <= after.len()
    &&& forall|k: int|
        0 <= k < held.len() ==> E::key_of((#[trigger] after[k]).0) == E::key_of(held[k].0)
    &&& forall|k: int|
        0 <= k < held.len() ==> (#[trigger] after[k]).0 == held[k].0 || exists|j: int|
            i <= j < own.len() && #[trigger] own[j] == after[k].0
    &&& forall|k: int, j: int|
        0 <= k < held.len() && i <= j < own.len() && E::key_of(#[trigger] own[j]) == E::key_of(
            (#[trigger] held[k]).0,
        ) ==> after[k].0 == own[j]
    &&& forall|k: int|
        held.len() <= k < after.len() ==> exists|j: int|
            i <= j < own.len() && #[trigger] own[j] == (#[trigger] after[k]).0
    &&& forall|j: int|
        i <= j < own.len() ==> exists|k: int|
            0 <= k < after.len() && (#[trigger] after[k]).0 == #[trigger] own[j]
}

proof fn lemma_key_found<E: Keyed>(held: Seq<(E::V, TierV)>, key: Seq<char>, i: int)
    requires
        0 <= i <= held.len(),
    ensures
        i <= key_index::<E>(held, key, i) <= held.len(),
        key_index::<E>(held, key, i) < held.len() ==> E::key_of(
            held[key_index::<E>(held, key, i)].0,
        ) == key,
        forall|k: int|
            i <= k < key_index::<E>(held, key, i) ==> E::key_of((#[trigger] held[k]).0) != key,
    decreases held.len() - i,
{
    if i < held.len() && E::key_of(held[i].0) != key {
        lemma_key_found::<E>(held, key, i + 1);
    }
}

spec fn held_keys_differ<E: Keyed>(held: Seq<(E::V, TierV)>) -> bool {
    forall|p: int, q: int|
        0 <= p < q < held.len() ==> E::key_of((#[trigger] held[p]).0) != E::key_of(
            (#[trigger] held[q]).0,
        )
}

proof fn lemma_own_map_layered<E: Keyed>(
    held: Seq<(E::V, TierV)>,
    field: Seq<char>,
    side: MapSide,
    own: Seq<E::V>,
    i: int,
)
    requires
        0 <= i <= own.len(),
        own_keys_distinct::<E>(own),
        held_keys_differ::<E>(held),
    ensures
        merged_map::<E>(held, field, side, own, i, TierV::Own) matches Ok(after)
            && partly_layered::<E>(after, own, i, held),
    decreases own.len() - i,
{
    if i < own.len() {
        let key = E::key_of(own[i]);
        lemma_key_found::<E>(held, key, 0);
        let at = key_index::<E>(held, key, 0);
        let next = merged_entry::<E>(held, field, side, own[i], TierV::Own)->Ok_0;
        lemma_own_map_layered::<E>(next, field, side, own, i + 1);
        let after = merged_map::<E>(held, field, side, own, i, TierV::Own)->Ok_0;
        assert(partly_layered::<E>(after, own, i + 1, next));
        assert forall|j: int| i + 1 <= j < own.len() implies E::key_of(
            #[trigger] own[j],
        ) != key by {
            assert(E::key_of(own[i]) != E::key_of(own[j]));
        }
        // The place of this entry is final.
        assert(after[at].0 == own[i]) by {
            assert(next[at].0 == own[i]);
            if after[at].0 != next[at].0 {
                let j = choose|j: int| i + 1 <= j < own.len() && #[trigger] own[j] == after[at].0;
                assert(E::key_of(own[j]) != key);
            }
        }
        assert forall|k: int| held.len() <= k < after.len() implies exists|j: int|
            i <= j < own.len() && #[trigger] own[j] == (#[trigger] after[k]).0 by {
            if k == at {
                assert(own[i] == after[k].0);
            } else {
                assert(k >= next.len());
                let j = choose|j: int|
                    i + 1 <= j < own.len() && #[trigger] own[j] == (#[trigger] after[k]).0;
                assert(own[j] == after[k].0);
            }
        }
        assert forall|j: int| i <= j < own.len() implies exists|k: int|
            0 <= k < after.len() && (#[trigger] after[k]).0 == #[trigger] own[j] by {
            if j == i {
                assert(after[at].0 == own[j]);
            } else {
                let k = choose|k: int|
                    0 <= k < after.len() && (#[trigger] after[k]).0 == #[trigger] own[j];
                assert(after[k].0 == own[j]);
            }
        }
        assert forall|k: int| 0 <= k < held.len() implies (#[trigger] after[k]).0 == held[k].0
            || exists|j: int| i <= j < own.len() && #[trigger] own[j] == after[k].0 by {
            if k == at {
                assert(own[i] == after[k].0);
            } else {
                assert(next[k] == held[k]);
                if after[k].0 != next[k].0 {
                    let j = choose|j: int| i + 1 <= j < own.len() && #[trigger] own[j] == after[k].0;
                    assert(own[j] == after[k].0);
                }
            }
        }
        assert forall|k: int, j: int|
            0 <= k < held.len() && i <= j < own.len() && E::key_of(#[trigger] own[j]) == E::key_of(
                (#[trigger] held[k]).0,
            ) implies after[k].0 == own[j] by {
            if j == i {
                if k < at {
                    assert(E::key_of(held[k].0) != key);
                } else if k > at {
                    assert(E::key_of(held[at].0) != E::key_of(held[k].0));
                }
            } else {
                assert(k != at);
                assert(next[k] == held[k]);
                assert(E::key_of(next[k].0) == E::key_of(own[j]));
            }
        }
        assert forall|k: int| 0 <= k < held.len() implies E::key_of((#[trigger] after[k]).0)
            == E::key_of(held[k].0) by {
            assert(E::key_of(after[k].0) == E::key_of(next[k].0));
        }
    }
}

proof fn lemma_fresh_map<E: Keyed>(
    held: Seq<(E::V, TierV)>,
    field: Seq<char>,
    side: MapSide,
    more: Seq<E::V>,
    i: int,
    tier: TierV,
)
    requires
        0 <= i <= more.len(),
        own_keys_distinct::<E>(more),
        forall|k: int, j: int|
            0 <= k < held.len() && i <= j < more.len() ==> E::key_of((#[trigger] held[k]).0)
                != E::key_of(#[trigger] more[j]),
    ensures
        merged_map::<E>(held, field, side, more, i, tier) matches Ok(after) && final_values(after)
            == final_values(held) + more.skip(i),
    decreases more.len() - i,
{
    if i < more.len() {
        lemma_key_found::<E>(held, E::key_of(more[i]), 0);
        let next = held.push((more[i], tier));
        assert forall|k: int, j: int|
            0 <= k < next.len() && i + 1 <= j < more.len() implies E::key_of((#[trigger] next[k]).0)
            != E::key_of(#[trigger] more[j]) by {
            if k == held.len() {
                assert(E::key_of(more[i]) != E::key_of(more[j]));
            } else {
                assert(next[k] == held[k]);
            }
        }
        lemma_fresh_map::<E>(next, field, side, more, i + 1, tier);
        assert(final_values(next) =~= final_values(held).push(more[i]));
        assert(final_values(held).push(more[i]) + more.skip(i + 1) =~= final_values(held)
            + more.skip(i));
    } else {
        assert(final_values(held) + more.skip(i) =~= final_values(held));
    }
}

proof fn lemma_own_map_over<E: Keyed>(
    held: Seq<(E::V, TierV)>,
    field: Seq<char>,
    side: MapSide,
    own: Seq<E::V>,
    key: spec_fn(E::V) -> Seq<char>,
)
    requires
        forall|v: E::V| #[trigger] key(v) == E::key_of(v),
        keys_differ(own, key),
        keys_differ(final_values(held), key),
    ensures
        merged_map::<E>(held, field, side, own, 0, TierV::Own) matches Ok(after)
            && entries_layered(final_values(after), own, final_values(held), key),
{
    let lower = final_values(held);
    assert forall|p: int, q: int| 0 <= p < q < own.len() implies E::key_of(#[trigger] own[p])
        != E::key_of(#[trigger] own[q]) by {
        assert(key(own[p]) != key(own[q]));
    }
    assert forall|p: int, q: int| 0 <= p < q < held.len() implies E::key_of(
        (#[trigger] held[p]).0,
    ) != E::key_of((#[trigger] held[q]).0) by {
        assert(key(lower[p]) != key(lower[q]));
    }
    lemma_own_map_layered::<E>(held, field, side, own, 0);
    let after = merged_map::<E>(held, field, side, own, 0, TierV::Own)->Ok_0;
    let values = final_values(after);
    assert forall|k: int| 0 <= k < lower.len() implies key(#[trigger] values[k]) == key(lower[k])
        && (if has_key(own, key, key(lower[k])) {
        own.contains(values[k])
    } else {
        values[k] == lower[k]
    }) by {
        assert(E::key_of(after[k].0) == E::key_of(held[k].0));
        if has_key(own, key, key(lower[k])) {
            let j = choose|j: int| 0 <= j < own.len() && key(#[trigger] own[j]) == key(lower[k]);
            assert(E::key_of(own[j]) == E::key_of(held[k].0));
            assert(own[j] == values[k]);
        } else if after[k].0 != held[k].0 {
            let j = choose|j: int| 0 <= j < own.len() && #[trigger] own[j] == after[k].0;
            assert(key(own[j]) == key(lower[k]));
        }
    }
    assert forall|k: int| lower.len() <= k < values.len() implies own.contains(
        #[trigger] values[k],
    ) by {
        let j = choose|j: int| 0 <= j < own.len() && #[trigger] own[j] == (#[trigger] after[k]).0;
        assert(own[j] == values[k]);
    }
    assert forall|j: int| 0 <= j < own.len() implies values.contains(#[trigger] own[j]) by {
        let k = choose|k: int| 0 <= k < after.len() && (#[trigger] after[k]).0 == #[trigger] own[j];
        assert(values[k] == own[j]);
    }
    if lower.len() == 0 {
        lemma_fresh_map::<E>(held, field, side, own, 0, TierV::Own);
        assert(lower + own.skip(0) =~= own);
    }
}

proof fn lemma_dependencies_as_map(
    held: Seq<(DependsOnEntryV, TierV)>,
    own: Seq<DependsOnEntryV>,
    i: int,
)
    requires
        0 <= i,
    ensures
        merged_dependencies(held, own, i, TierV::Own) == merged_map::<DependsOnEntry>(
            held,
            "depends_on"@,
            MapSide::Key,
            own,
            i,
            TierV::Own,
        ),
    decreases own.len() - i,
{
    if i < own.len() {
        if let Ok(next) = merged_dependency(held, own[i], TierV::Own) {
            lemma_dependencies_as_map(next, own, i + 1);
        }
    }
}

/// Whether no map field of a body but `labels` holds a key twice; the key
/// of a mount is its container side.
pub open spec fn map_keys_differ(fields: ServiceFieldsV) -> bool {
    &&& keys_differ(fields.volumes.entries, |e: ArrowMapEntryV| e.container.text())
    &&& keys_differ(fields.publish.entries, |e: ArrowMapEntryV| e.container.text())
    &&& keys_differ(fields.devices.entries, |e: ArrowMapEntryV| e.container.text())
    &&& keys_differ(fields.env.entries, |e: EnvEntryV| e.key.text())
    &&& keys_differ(fields.raw.entries, |e: RawEntryV| e.key.text())
    &&& keys_differ(fields.depends_on, |e: DependsOnEntryV| e.reference.text())
}

/// Whether each map field of `after` but `labels` is that of `lower` with
/// that of `upper` laid over it.
pub open spec fn maps_layered(
    after: ServiceFieldsV,
    upper: ServiceFieldsV,
    lower: ServiceFieldsV,
) -> bool {
    &&& entries_layered(
        after.volumes.entries,
        upper.volumes.entries,
        lower.volumes.entries,
        |e: ArrowMapEntryV| e.container.text(),
    )
    &&& entries_layered(
        after.publish.entries,
        upper.publish.entries,
        lower.publish.entries,
        |e: ArrowMapEntryV| e.container.text(),
    )
    &&& entries_layered(
        after.devices.entries,
        upper.devices.entries,
        lower.devices.entries,
        |e: ArrowMapEntryV| e.container.text(),
    )
    &&& entries_layered(
        after.env.entries,
        upper.env.entries,
        lower.env.entries,
        |e: EnvEntryV| e.key.text(),
    )
    &&& entries_layered(
        after.raw.entries,
        upper.raw.entries,
        lower.raw.entries,
        |e: RawEntryV| e.key.text(),
    )
    &&& entries_layered(
        after.depends_on,
        upper.depends_on,
        lower.depends_on,
        |e: DependsOnEntryV| e.reference.text(),
    )
}

/// The body's own entries win map by map, and its lists add to those that
/// were there: `dns` and `env_file` one behind the other, `networks` by
/// distinct name.
pub proof fn law_own_maps_win_one_by_one(acc: MergeAccV, own: ServiceFieldsV)
    requires
        map_keys_differ(own),
        map_keys_differ(acc.fields()),
    ensures
        merged_tier(acc, own, TierV::Own) matches Ok(after) ==> maps_layered(
            after.fields(),
            own,
            acc.fields(),
        ) && after.fields().dns == acc.fields().dns + own.dns && after.fields().env_file
            == acc.fields().env_file + own.env_file && (texts_distinct(acc.fields().networks)
            ==> texts_distinct(after.fields().networks)) && acc.fields().networks.is_prefix_of(
            after.fields().networks,
        ) && (forall|k: int|
            0 <= k < own.networks.len() ==> has_key(
                after.fields().networks,
                |lit: LiteralV| lit.text(),
                (#[trigger] own.networks[k]).text(),
            )) && (forall|k: int|
            acc.fields().networks.len() <= k < after.fields().networks.len()
                ==> own.networks.contains(#[trigger] after.fields().networks[k])),
{
    lemma_scalars_layered(acc, own);
    lemma_own_map_over::<ArrowMapEntry>(
        acc.volumes,
        "volume"@,
        MapSide::Value,
        own.volumes.entries,
        |e: ArrowMapEntryV| e.container.text(),
    );
    lemma_own_map_over::<ArrowMapEntry>(
        acc.publish,
        "publish"@,
        MapSide::Value,
        own.publish.entries,
        |e: ArrowMapEntryV| e.container.text(),
    );
    lemma_own_map_over::<ArrowMapEntry>(
        acc.devices,
        "devices"@,
        MapSide::Value,
        own.devices.entries,
        |e: ArrowMapEntryV| e.container.text(),
    );
    lemma_own_map_over::<EnvEntry>(
        acc.env,
        "env"@,
        MapSide::Key,
        own.env.entries,
        |e: EnvEntryV| e.key.text(),
    );
    lemma_own_map_over::<RawEntry>(
        acc.raw,
        "raw"@,
        MapSide::Key,
        own.raw.entries,
        |e: RawEntryV| e.key.text(),
    );
    lemma_own_map_over::<DependsOnEntry>(
        acc.depends_on,
        "depends_on"@,
        MapSide::Key,
        own.depends_on,
        |e: DependsOnEntryV| e.reference.text(),
    );
    lemma_dependencies_as_map(acc.depends_on, own.depends_on, 0);
    lemma_networks_added(acc.networks, own.networks, 0);
}

proof fn lemma_text_found(lits: Seq<LiteralV>, text: Seq<char>, i: int)
    requires
        0 <= i <= lits.len(),
    ensures
        i <= text_index(lits, text, i) <= lits.len(),
        text_index(lits, text, i) < lits.len() ==> lits[text_index(lits, text, i)].text() == text,
        forall|k: int| i <= k < text_index(lits, text, i) ==> (#[trigger] lits[k]).text() != text,
    decreases lits.len() - i,
{
    if i < lits.len() && lits[i].text() != text {
        lemma_text_found(lits, text, i + 1);
    }
}

proof fn lemma_networks_added(held: Seq<LiteralV>, more: Seq<LiteralV>, i: int)
    requires
        0 <= i <= more.len(),
    ensures
        held.is_prefix_of(with_distinct(held, more, i)),
        texts_distinct(held) ==> texts_distinct(with_distinct(held, more, i)),
        forall|k: int|
            i <= k < more.len() ==> has_key(
                with_distinct(held, more, i),
                |lit: LiteralV| lit.text(),
                (#[trigger] more[k]).text(),
            ),
        forall|k: int|
            held.len() <= k < with_distinct(held, more, i).len() ==> more.contains(
                #[trigger] with_distinct(held, more, i)[k],
            ),
    decreases more.len() - i,
{
    if i < more.len() {
        let at = text_index(held, more[i].text(), 0);
        let text = |lit: LiteralV| lit.text();
        lemma_text_found(held, more[i].text(), 0);
        let next = if at < held.len() {
            held
        } else {
            held.push(more[i])
        };
        lemma_networks_added(next, more, i + 1);
        let after = with_distinct(held, more, i);
        assert(after == with_distinct(next, more, i + 1));
        let there = if at < held.len() {
            at
        } else {
            held.len() as int
        };
        assert(after[there] == next[there]);
        assert(text(after[there]) == more[i].text());
        assert forall|k: int| i <= k < more.len() implies has_key(
            after,
            text,
            (#[trigger] more[k]).text(),
        ) by {
            if k == i {
                assert(text(after[there]) == more[k].text());
            }
        }
        assert forall|k: int| held.len() <= k < after.len() implies more.contains(
            #[trigger] after[k],
        ) by {
            if k < next.len() {
                assert(after[k] == next[k]);
                assert(more[i] == after[k]);
            }
        }
        assert(held.is_prefix_of(after)) by {
            assert(after.take(held.len() as int) =~= held) by {
                assert forall|k: int| 0 <= k < held.len() implies after[k] == held[k] by {
                    assert(after[k] == next[k]);
                }
            }
        }
    } else {
        assert(held.take(held.len() as int) =~= held);
    }
}

/// Whether an error says that two templates set an entry under one key,
/// and where each of them does.
pub open spec fn entries_clash<V>(
    error: ComposeErrorV,
    field: Seq<char>,
    side: MapSide,
    a: Seq<V>,
    b: Seq<V>,
    key: spec_fn(V) -> Seq<char>,
    place: spec_fn(V) -> Span,
    t1: Seq<char>,
    t2: Seq<char>,
) -> bool {
    exists|k: int, j: int|
        0 <= k < a.len() && 0 <= j < b.len() && key(#[trigger] a[k]) == key(#[trigger] b[j])
            && error == ComposeErrorV::MapKeyCollision(
            (MapKeyCollisionV {
                field,
                side,
                key: key(b[j]),
                first_template: t1,
                second_template: t2,
                first: place(a[k]),
                second: place(b[j]),
            }),
        )
}

/// Whether an error names an entry whose key both bodies have, by the
/// field, the side and the key.
pub open spec fn names_the_shared_entry(
    error: ComposeErrorV,
    a: ServiceFieldsV,
    b: ServiceFieldsV,
    t1: Seq<char>,
    t2: Seq<char>,
) -> bool {
    ||| entries_clash(
        error,
        "volume"@,
        MapSide::Value,
        a.volumes.entries,
        b.volumes.entries,
        |e: ArrowMapEntryV| e.container.text(),
        |e: ArrowMapEntryV| e.span,
        t1,
        t2,
    )
    ||| entries_clash(
        error,
        "publish"@,
        MapSide::Value,
        a.publish.entries,
        b.publish.entries,
        |e: ArrowMapEntryV| e.container.text(),
        |e: ArrowMapEntryV| e.span,
        t1,
        t2,
    )
    ||| entries_clash(
        error,
        "devices"@,
        MapSide::Value,
        a.devices.entries,
        b.devices.entries,
        |e: ArrowMapEntryV| e.container.text(),
        |e: ArrowMapEntryV| e.span,
        t1,
        t2,
    )
    ||| entries_clash(
        error,
        "env"@,
        MapSide::Key,
        a.env.entries,
        b.env.entries,
        |e: EnvEntryV| e.key.text(),
        |e: EnvEntryV| e.span,
        t1,
        t2,
    )
    ||| entries_clash(
        error,
        "raw"@,
        MapSide::Key,
        a.raw.entries,
        b.raw.entries,
        |e: RawEntryV| e.key.text(),
        |e: RawEntryV| e.span,
        t1,
        t2,
    )
    ||| entries_clash(
        error,
        "depends_on"@,
        MapSide::Key,
        a.depends_on,
        b.depends_on,
        |e: DependsOnEntryV| e.reference.text(),
        |e: DependsOnEntryV| e.span,
        t1,
        t2,
    )
    ||| entries_clash(
        error,
        "labels"@,
        MapSide::Key,
        a.labels.entries,
        b.labels.entries,
        |e: LabelEntryV| e.key.text(),
        |e: LabelEntryV| e.span,
        t1,
        t2,
    )
}

/// Whether the map fields of `after`, but `labels` and `depends_on`, are
/// those of `a` with those of `b` behind them.
pub open spec fn maps_joined(
    after: ServiceFieldsV,
    a: ServiceFieldsV,
    b: ServiceFieldsV,
) -> bool {
    &&& after.volumes.entries == a.volumes.entries + b.volumes.entries
    &&& after.publish.entries == a.publish.entries + b.publish.entries
    &&& after.devices.entries == a.devices.entries + b.devices.entries
    &&& after.env.entries == a.env.entries + b.env.entries
    &&& after.raw.entries == a.raw.entries + b.raw.entries
}

spec fn all_of<V>(held: Seq<(V, TierV)>, template: Seq<char>) -> bool {
    forall|k: int| 0 <= k < held.len() ==> (#[trigger] held[k]).1 == TierV::Explicit(template)
}

proof fn lemma_tiers_kept<E: Keyed>(
    held: Seq<(E::V, TierV)>,
    field: Seq<char>,
    side: MapSide,
    more: Seq<E::V>,
    i: int,
    template: Seq<char>,
)
    requires
        0 <= i,
        all_of(held, template),
    ensures
        merged_map::<E>(held, field, side, more, i, TierV::Explicit(template)) matches Ok(after)
            ==> all_of(after, template),
    decreases more.len() - i,
{
    if i < more.len() {
        let tier = TierV::Explicit(template);
        lemma_key_found::<E>(held, E::key_of(more[i]), 0);
        if let Ok(next) = merged_entry::<E>(held, field, side, more[i], tier) {
            assert(all_of(next, template));
            lemma_tiers_kept::<E>(next, field, side, more, i + 1, template);
        }
    }
}

proof fn lemma_first_map<E: Keyed>(
    field: Seq<char>,
    side: MapSide,
    a: Seq<E::V>,
    key: spec_fn(E::V) -> Seq<char>,
    t1: Seq<char>,
)
    requires
        forall|v: E::V| #[trigger] key(v) == E::key_of(v),
        keys_differ(a, key),
    ensures
        merged_map::<E>(Seq::empty(), field, side, a, 0, TierV::Explicit(t1)) matches Ok(held)
            && final_values(held) == a && all_of(held, t1),
{
    assert forall|p: int, q: int| 0 <= p < q < a.len() implies E::key_of(#[trigger] a[p])
        != E::key_of(#[trigger] a[q]) by {
        assert(key(a[p]) != key(a[q]));
    }
    lemma_fresh_map::<E>(Seq::empty(), field, side, a, 0, TierV::Explicit(t1));
    lemma_tiers_kept::<E>(Seq::empty(), field, side, a, 0, t1);
    assert(final_values(Seq::<(E::V, TierV)>::empty()) + a.skip(0) =~= a);
}

proof fn lemma_second_steps<E: Keyed>(
    held: Seq<(E::V, TierV)>,
    field: Seq<char>,
    side: MapSide,
    a: Seq<E::V>,
    b: Seq<E::V>,
    i: int,
    key: spec_fn(E::V) -> Seq<char>,
    place: spec_fn(E::V) -> Span,
    t1: Seq<char>,
    t2: Seq<char>,
)
    requires
        forall|v: E::V| #[trigger] key(v) == E::key_of(v),
        forall|v: E::V| #[trigger] place(v) == E::entry_place(v),
        keys_differ(b, key),
        0 <= i <= b.len(),
        held.len() == a.len() + i,
        forall|k: int|
            0 <= k < a.len() ==> (#[trigger] held[k]).0 == a[k] && held[k].1 == TierV::Explicit(t1),
        forall|k: int| a.len() <= k < held.len() ==> (#[trigger] held[k]).0 == b[k - a.len()],
        forall|k: int, j: int|
            0 <= k < a.len() && 0 <= j < i ==> key(#[trigger] a[k]) != key(#[trigger] b[j]),
    ensures
        match merged_map::<E>(held, field, side, b, i, TierV::Explicit(t2)) {
            Ok(after) => final_values(after) == a + b && (forall|k: int, j: int|
                0 <= k < a.len() && 0 <= j < b.len() ==> key(#[trigger] a[k]) != key(
                    #[trigger] b[j],
                )),
            Err(error) => entries_clash(error, field, side, a, b, key, place, t1, t2),
        },
    decreases b.len() - i,
{
    if i < b.len() {
        lemma_key_found::<E>(held, E::key_of(b[i]), 0);
        let at = key_index::<E>(held, E::key_of(b[i]), 0);
        if at < held.len() {
            if at < a.len() {
                assert(key(a[at]) == key(b[i]));
            } else {
                assert(key(b[at - a.len()]) != key(b[i]));
            }
        } else {
            let next = held.push((b[i], TierV::Explicit(t2)));
            assert forall|k: int, j: int| 0 <= k < a.len() && 0 <= j < i + 1 implies key(
                #[trigger] a[k],
            ) != key(#[trigger] b[j]) by {
                if j == i {
                    assert(E::key_of(held[k].0) != E::key_of(b[i]));
                }
            }
            lemma_second_steps::<E>(next, field, side, a, b, i + 1, key, place, t1, t2);
        }
    } else {
        assert(final_values(held) =~= a + b);
    }
}

proof fn lemma_second_map<E: Keyed>(
    held: Seq<(E::V, TierV)>,
    field: Seq<char>,
    side: MapSide,
    a: Seq<E::V>,
    b: Seq<E::V>,
    key: spec_fn(E::V) -> Seq<char>,
    place: spec_fn(E::V) -> Span,
    t1: Seq<char>,
    t2: Seq<char>,
)
    requires
        forall|v: E::V| #[trigger] key(v) == E::key_of(v),
        forall|v: E::V| #[trigger] place(v) == E::entry_place(v),
        keys_differ(b, key),
        final_values(held) == a,
        all_of(held, t1),
    ensures
        match merged_map::<E>(held, field, side, b, 0, TierV::Explicit(t2)) {
            Ok(after) => final_values(after) == a + b && (forall|k: int, j: int|
                0 <= k < a.len() && 0 <= j < b.len() ==> key(#[trigger] a[k]) != key(
                    #[trigger] b[j],
                )),
            Err(error) => entries_clash(error, field, side, a, b, key, place, t1, t2),
        },
{
    assert forall|k: int| 0 <= k < a.len() implies (#[trigger] held[k]).0 == a[k] && held[k].1
        == TierV::Explicit(t1) by {
        assert(final_values(held)[k] == held[k].0);
    }
    lemma_second_steps::<E>(held, field, side, a, b, 0, key, place, t1, t2);
}

proof fn lemma_fresh_from_nothing<E: Keyed>(
    field: Seq<char>,
    side: MapSide,
    a: Seq<E::V>,
    key: spec_fn(E::V) -> Seq<char>,
    tier: TierV,
)
    requires
        forall|v: E::V| #[trigger] key(v) == E::key_of(v),
        keys_differ(a, key),
    ensures
        merged_map::<E>(
            Seq::empty(),
            field,
            side,
            a,
            0,
            tier,
        ) matches Ok(held) && final_values(held)
            == a,
{
    assert forall|p: int, q: int| 0 <= p < q < a.len() implies E::key_of(#[trigger] a[p])
        != E::key_of(#[trigger] a[q]) by {
        assert(key(a[p]) != key(a[q]));
    }
    lemma_fresh_map::<E>(Seq::empty(), field, side, a, 0, tier);
    assert(final_values(Seq::<(E::V, TierV)>::empty()) + a.skip(0) =~= a);
}

proof fn lemma_fresh_labels(
    held: Seq<(LabelEntryV, TierV)>,
    more: Seq<LabelEntryV>,
    i: int,
    tier: TierV,
)
    requires
        0 <= i <= more.len(),
        keys_differ(more, |e: LabelEntryV| e.key.text()),
        forall|k: int, j: int|
            0 <= k < held.len() && i <= j < more.len() ==> (#[trigger] held[k]).0.key.text() != (
            #[trigger] more[j]).key.text(),
    ensures
        merged_labels(held, more, i, tier) matches Ok(after) && final_values(after) == final_values(
            held,
        ) + more.skip(i),
    decreases more.len() - i,
{
    let key = |e: LabelEntryV| e.key.text();
    if i < more.len() {
        lemma_key_found::<LabelEntry>(held, more[i].key.text(), 0);
        let next = held.push((more[i], tier));
        assert forall|k: int, j: int| 0 <= k < next.len() && i + 1 <= j < more.len() implies (
        #[trigger] next[k]).0.key.text() != (#[trigger] more[j]).key.text() by {
            if k == held.len() {
                assert(key(more[i]) != key(more[j]));
            } else {
                assert(next[k] == held[k]);
            }
        }
        lemma_fresh_labels(next, more, i + 1, tier);
        assert(final_values(next) =~= final_values(held).push(more[i]));
        assert(final_values(held).push(more[i]) + more.skip(i + 1) =~= final_values(held)
            + more.skip(i));
    } else {
        assert(final_values(held) + more.skip(i) =~= final_values(held));
    }
}

proof fn lemma_fresh_dependencies(
    held: Seq<(DependsOnEntryV, TierV)>,
    more: Seq<DependsOnEntryV>,
    i: int,
    tier: TierV,
)
    requires
        0 <= i <= more.len(),
        keys_differ(more, |e: DependsOnEntryV| e.reference.text()),
        forall|k: int, j: int|
            0 <= k < held.len() && i <= j < more.len() ==> (#[trigger] held[k]).0.reference.text()
                != (#[trigger] more[j]).reference.text(),
    ensures
        merged_dependencies(held, more, i, tier) matches Ok(after) && final_values(after)
            == final_values(held) + more.skip(i),
    decreases more.len() - i,
{
    let key = |e: DependsOnEntryV| e.reference.text();
    if i < more.len() {
        lemma_key_found::<DependsOnEntry>(held, more[i].reference.text(), 0);
        let next = held.push((more[i], tier));
        assert forall|k: int, j: int| 0 <= k < next.len() && i + 1 <= j < more.len() implies (
        #[trigger] next[k]).0.reference.text() != (#[trigger] more[j]).reference.text() by {
            if k == held.len() {
                assert(key(more[i]) != key(more[j]));
            } else {
                assert(next[k] == held[k]);
            }
        }
        lemma_fresh_dependencies(next, more, i + 1, tier);
        assert(final_values(next) =~= final_values(held).push(more[i]));
        assert(final_values(held).push(more[i]) + more.skip(i + 1) =~= final_values(held)
            + more.skip(i));
    } else {
        assert(final_values(held) + more.skip(i) =~= final_values(held));
    }
}

proof fn lemma_fresh_names(held: Seq<LiteralV>, more: Seq<LiteralV>, i: int)
    requires
        0 <= i <= more.len(),
        texts_distinct(held + more.skip(i)),
    ensures
        with_distinct(held, more, i) == held + more.skip(i),
    decreases more.len() - i,
{
    let all = held + more.skip(i);
    if i < more.len() {
        lemma_text_found(held, more[i].text(), 0);
        let at = text_index(held, more[i].text(), 0);
        if at < held.len() {
            assert(all[at].text() != all[held.len() as int].text());
        }
        assert(held.push(more[i]) + more.skip(i + 1) =~= all);
        lemma_fresh_names(held.push(more[i]), more, i + 1);
    } else {
        assert(all =~= held);
    }
}

proof fn lemma_first_single_values(a: ServiceFieldsV, tier: TierV)
    ensures
        merged_scalars(MergeAccV::none(), a, tier) matches Ok(after) && single_values_layered(
            after.fields(),
            a,
            MergeAccV::none().fields(),
        ) && after.volumes == MergeAccV::none().volumes && after.publish
            == MergeAccV::none().publish && after.devices == MergeAccV::none().devices && after.env
            == MergeAccV::none().env && after.labels == MergeAccV::none().labels
            && after.depends_on == MergeAccV::none().depends_on && after.raw
            == MergeAccV::none().raw,
{
}

/// Whether nothing is set.
pub open spec fn nothing_set(fields: ServiceFieldsV) -> bool {
    &&& fields.image is None && fields.build is None && fields.expose is None
    &&& fields.restart is None && fields.healthcheck is None && fields.container_name is None
    &&& fields.command is None && fields.entrypoint is None && fields.privileged is None
    &&& fields.publish.entries.len() == 0 && fields.volumes.entries.len() == 0
    &&& fields.env.entries.len() == 0 && fields.labels.entries.len() == 0
    &&& fields.raw.entries.len() == 0 && fields.devices.entries.len() == 0
    &&& fields.depends_on.len() == 0 && fields.networks.len() == 0 && fields.dns.len() == 0
    &&& fields.env_file.len() == 0 && fields.with.len() == 0
}

/// A body merged over nothing comes back field by field as it was
/// written.
pub proof fn law_a_body_alone_comes_back(a: ServiceFieldsV, tier: TierV)
    requires
        map_keys_differ(a),
        keys_differ(a.labels.entries, |e: LabelEntryV| e.key.text()),
        texts_distinct(a.networks),
    ensures
        nothing_set(MergeAccV::none().fields()),
        merged_tier(MergeAccV::none(), a, tier) matches Ok(after) && ({
            let fields = after.fields();
            &&& single_values_layered(fields, a, MergeAccV::none().fields())
            &&& fields.volumes.entries == a.volumes.entries
            &&& fields.publish.entries == a.publish.entries
            &&& fields.devices.entries == a.devices.entries
            &&& fields.env.entries == a.env.entries
            &&& fields.labels.entries == a.labels.entries
            &&& fields.raw.entries == a.raw.entries
            &&& fields.depends_on == a.depends_on
            &&& fields.networks == a.networks
            &&& fields.dns == a.dns
            &&& fields.env_file == a.env_file
            &&& fields.with.len() == 0
        }),
{
    lemma_first_single_values(a, tier);
    lemma_fresh_from_nothing::<ArrowMapEntry>(
        "volume"@,
        MapSide::Value,
        a.volumes.entries,
        |e: ArrowMapEntryV| e.container.text(),
        tier,
    );
    lemma_fresh_from_nothing::<ArrowMapEntry>(
        "publish"@,
        MapSide::Value,
        a.publish.entries,
        |e: ArrowMapEntryV| e.container.text(),
        tier,
    );
    lemma_fresh_from_nothing::<ArrowMapEntry>(
        "devices"@,
        MapSide::Value,
        a.devices.entries,
        |e: ArrowMapEntryV| e.container.text(),
        tier,
    );
    lemma_fresh_from_nothing::<EnvEntry>(
        "env"@,
        MapSide::Key,
        a.env.entries,
        |e: EnvEntryV| e.key.text(),
        tier,
    );
    lemma_fresh_from_nothing::<RawEntry>(
        "raw"@,
        MapSide::Key,
        a.raw.entries,
        |e: RawEntryV| e.key.text(),
        tier,
    );
    lemma_fresh_labels(Seq::empty(), a.labels.entries, 0, tier);
    lemma_fresh_dependencies(Seq::empty(), a.depends_on, 0, tier);
    assert(Seq::<LiteralV>::empty() + a.networks.skip(0) =~= a.networks);
    lemma_fresh_names(Seq::empty(), a.networks, 0);
    assert(Seq::<LiteralV>::empty() + a.dns =~= a.dns);
    assert(Seq::<LiteralV>::empty() + a.env_file =~= a.env_file);
    assert(final_values(Seq::<(LabelEntryV, TierV)>::empty()) + a.labels.entries.skip(0)
        =~= a.labels.entries);
    assert(final_values(Seq::<(DependsOnEntryV, TierV)>::empty()) + a.depends_on.skip(0)
        =~= a.depends_on);
}

/// A merged field stands where its first part that is set stands.
pub proof fn law_merged_fields_stand_where_they_were_set(acc: MergeAccV)
    ensures
        ({
            let fields = acc.fields();
            &&& fields.image matches Some(x) ==> (x.reference matches Some(lit) && x.span
                == lit.span())
            &&& fields.expose matches Some(x) ==> (x.port matches Some(lit) && x.span
                == lit.span())
            &&& fields.restart matches Some(x) ==> (x.policy matches Some(lit) && x.span
                == lit.span())
            &&& fields.build matches Some(x) ==> match (x.context, x.dockerfile) {
                (Some(lit), _) => x.span == lit.span(),
                (None, Some(lit)) => x.span == lit.span(),
                (None, None) => false,
            }
            &&& fields.healthcheck matches Some(x) ==> (if x.interval is Some {
                x.span == x.interval->Some_0.span()
            } else if x.timeout is Some {
                x.span == x.timeout->Some_0.span()
            } else if x.retries is Some {
                x.span == x.retries->Some_0.span()
            } else if x.start_period is Some {
                x.span == x.start_period->Some_0.span()
            } else if x.start_interval is Some {
                x.span == x.start_interval->Some_0.span()
            } else if x.test is Some {
                x.span == x.test->Some_0.span()
            } else {
                x.disable == Some(x.span)
            })
        }),
{
}

proof fn lemma_scalars_keep_the_rest(acc: MergeAccV, b: ServiceFieldsV, tier: TierV)
    ensures
        merged_scalars(acc, b, tier) matches Ok(after) ==> after.volumes == acc.volumes
            && after.publish == acc.publish && after.devices == acc.devices && after.env == acc.env
            && after.labels == acc.labels && after.depends_on == acc.depends_on && after.raw
            == acc.raw,
{
}

spec fn error_of<T>(r: Result<T, ComposeErrorV>, error: ComposeErrorV) -> bool {
    r == Err::<T, ComposeErrorV>(error)
}

proof fn lemma_where_merging_fails(
    acc: MergeAccV,
    b: ServiceFieldsV,
    tier: TierV,
    error: ComposeErrorV,
)
    requires
        merged_tier(acc, b, tier) == Err::<MergeAccV, ComposeErrorV>(error),
    ensures
        ({
            ||| error_of(merged_scalars(acc, b, tier), error)
            ||| error_of(
                merged_map::<ArrowMapEntry>(
                    acc.volumes,
                    "volume"@,
                    MapSide::Value,
                    b.volumes.entries,
                    0,
                    tier,
                ),
                error,
            )
            ||| error_of(
                merged_map::<ArrowMapEntry>(
                    acc.publish,
                    "publish"@,
                    MapSide::Value,
                    b.publish.entries,
                    0,
                    tier,
                ),
                error,
            )
            ||| error_of(
                merged_map::<ArrowMapEntry>(
                    acc.devices,
                    "devices"@,
                    MapSide::Value,
                    b.devices.entries,
                    0,
                    tier,
                ),
                error,
            )
            ||| error_of(
                merged_map::<EnvEntry>(acc.env, "env"@, MapSide::Key, b.env.entries, 0, tier),
                error,
            )
            ||| error_of(merged_labels(acc.labels, b.labels.entries, 0, tier), error)
            ||| error_of(merged_dependencies(acc.depends_on, b.depends_on, 0, tier), error)
            ||| error_of(
                merged_map::<RawEntry>(acc.raw, "raw"@, MapSide::Key, b.raw.entries, 0, tier),
                error,
            )
        }),
{
    lemma_scalars_keep_the_rest(acc, b, tier);
}

/// What two templates set comes together: single values and map entries
/// must not clash, and where they do not, each field has what either of
/// them set under it. Where they clash, the error names the very field and
/// both places. Labels and dependencies have laws of their own.
pub proof fn law_two_templates_come_together(
    a: ServiceFieldsV,
    b: ServiceFieldsV,
    t1: Seq<char>,
    t2: Seq<char>,
)
    requires
        map_keys_differ(a),
        map_keys_differ(b),
        keys_differ(a.labels.entries, |e: LabelEntryV| e.key.text()),
        b.labels.entries.len() == 0,
        b.depends_on.len() == 0,
    ensures
        merged_tier(MergeAccV::none(), a, TierV::Explicit(t1)) matches Ok(acc) && (
        match merged_tier(acc, b, TierV::Explicit(t2)) {
            Ok(after) => {
                &&& !share_a_value(a, b)
                &&& single_values_layered(after.fields(), b, a)
                &&& maps_joined(after.fields(), a, b)
                &&& after.fields().labels.entries == a.labels.entries
                &&& after.fields().depends_on == a.depends_on
                &&& after.fields().dns == a.dns + b.dns
                &&& after.fields().env_file == a.env_file + b.env_file
            },
            Err(error) => names_the_shared_value(error, a, b, t1, t2) || names_the_shared_entry(
                error,
                a,
                b,
                t1,
                t2,
            ),
        }),
{
    let tier = TierV::Explicit(t1);
    lemma_first_single_values(a, tier);
    lemma_second_scalars(a, b, t1, t2);
    let held = merged_map::<ArrowMapEntry>(
        Seq::empty(),
        "volume"@,
        MapSide::Value,
        a.volumes.entries,
        0,
        TierV::Explicit(t1),
    );
    lemma_first_map::<ArrowMapEntry>(
        "volume"@,
        MapSide::Value,
        a.volumes.entries,
        |e: ArrowMapEntryV| e.container.text(),
        t1,
    );
    lemma_second_map::<ArrowMapEntry>(
        held->Ok_0,
        "volume"@,
        MapSide::Value,
        a.volumes.entries,
        b.volumes.entries,
        |e: ArrowMapEntryV| e.container.text(),
        |e: ArrowMapEntryV| e.span,
        t1,
        t2,
    );
    let held = merged_map::<ArrowMapEntry>(
        Seq::empty(),
        "publish"@,
        MapSide::Value,
        a.publish.entries,
        0,
        TierV::Explicit(t1),
    );
    lemma_first_map::<ArrowMapEntry>(
        "publish"@,
        MapSide::Value,
        a.publish.entries,
        |e: ArrowMapEntryV| e.container.text(),
        t1,
    );
    lemma_second_map::<ArrowMapEntry>(
        held->Ok_0,
        "publish"@,
        MapSide::Value,
        a.publish.entries,
        b.publish.entries,
        |e: ArrowMapEntryV| e.container.text(),
        |e: ArrowMapEntryV| e.span,
        t1,
        t2,
    );
    let held = merged_map::<ArrowMapEntry>(
        Seq::empty(),
        "devices"@,
        MapSide::Value,
        a.devices.entries,
        0,
        TierV::Explicit(t1),
    );
    lemma_first_map::<ArrowMapEntry>(
        "devices"@,
        MapSide::Value,
        a.devices.entries,
        |e: ArrowMapEntryV| e.container.text(),
        t1,
    );
    lemma_second_map::<ArrowMapEntry>(
        held->Ok_0,
        "devices"@,
        MapSide::Value,
        a.devices.entries,
        b.devices.entries,
        |e: ArrowMapEntryV| e.container.text(),
        |e: ArrowMapEntryV| e.span,
        t1,
        t2,
    );
    let held = merged_map::<EnvEntry>(
        Seq::empty(),
        "env"@,
        MapSide::Key,
        a.env.entries,
        0,
        TierV::Explicit(t1),
    );
    lemma_first_map::<EnvEntry>(
        "env"@,
        MapSide::Key,
        a.env.entries,
        |e: EnvEntryV| e.key.text(),
        t1,
    );
    lemma_second_map::<EnvEntry>(
        held->Ok_0,
        "env"@,
        MapSide::Key,
        a.env.entries,
        b.env.entries,
        |e: EnvEntryV| e.key.text(),
        |e: EnvEntryV| e.span,
        t1,
        t2,
    );
    let held = merged_map::<RawEntry>(
        Seq::empty(),
        "raw"@,
        MapSide::Key,
        a.raw.entries,
        0,
        TierV::Explicit(t1),
    );
    lemma_first_map::<RawEntry>(
        "raw"@,
        MapSide::Key,
        a.raw.entries,
        |e: RawEntryV| e.key.text(),
        t1,
    );
    lemma_second_map::<RawEntry>(
        held->Ok_0,
        "raw"@,
        MapSide::Key,
        a.raw.entries,
        b.raw.entries,
        |e: RawEntryV| e.key.text(),
        |e: RawEntryV| e.span,
        t1,
        t2,
    );
    lemma_fresh_labels(Seq::empty(), a.labels.entries, 0, tier);
    lemma_fresh_dependencies(Seq::empty(), a.depends_on, 0, tier);
    assert(final_values(Seq::<(LabelEntryV, TierV)>::empty()) + a.labels.entries.skip(0)
        =~= a.labels.entries);
    assert(final_values(Seq::<(DependsOnEntryV, TierV)>::empty()) + a.depends_on.skip(0)
        =~= a.depends_on);
    assert(Seq::<LiteralV>::empty() + a.dns =~= a.dns);
    assert(Seq::<LiteralV>::empty() + a.env_file =~= a.env_file);
    let acc = merged_tier(MergeAccV::none(), a, tier)->Ok_0;
    let scalars = merged_scalars(MergeAccV::none(), a, tier)->Ok_0;
    lemma_scalars_see_scalars(acc, scalars, b, TierV::Explicit(t2));
    lemma_scalars_keep_the_rest(acc, b, TierV::Explicit(t2));
    if let Err(error) = merged_tier(acc, b, TierV::Explicit(t2)) {
        lemma_where_merging_fails(acc, b, TierV::Explicit(t2), error);
    }
}

/// Whether two states of a merge hold the same single values.
spec fn same_scalars(a: MergeAccV, b: MergeAccV) -> bool {
    &&& a.image_ref == b.image_ref && a.build_context == b.build_context && a.build_dockerfile
        == b.build_dockerfile && a.expose_port == b.expose_port && a.restart_policy
        == b.restart_policy && a.container_name == b.container_name
    &&& a.interval == b.interval && a.timeout == b.timeout && a.retries == b.retries
    &&& a.start_period == b.start_period && a.start_interval == b.start_interval
    &&& a.test == b.test && a.disable == b.disable
    &&& a.command == b.command && a.entrypoint == b.entrypoint && a.privileged == b.privileged
}

proof fn lemma_scalars_see_scalars(
    acc: MergeAccV,
    other: MergeAccV,
    b: ServiceFieldsV,
    tier: TierV,
)
    requires
        same_scalars(acc, other),
    ensures
        match (merged_scalars(acc, b, tier), merged_scalars(other, b, tier)) {
            (Ok(x), Ok(y)) => same_scalars(x, y),
            (Err(x), Err(y)) => x == y,
            _ => false,
        },
{
    match (merged_basics(acc, b, tier), merged_basics(other, b, tier)) {
        (Ok(x), Ok(y)) => {
            match (merged_timing(x, b, tier), merged_timing(y, b, tier)) {
                (Ok(x), Ok(y)) => {
                    match (merged_starting(x, b, tier), merged_starting(y, b, tier)) {
                        (Ok(x), Ok(y)) => {
                            match (merged_probe(x, b, tier), merged_probe(y, b, tier)) {
                                (Ok(x), Ok(y)) => {},
                                _ => {},
                            }
                        },
                        _ => {},
                    }
                },
                _ => {},
            }
        },
        _ => {},
    }
}

} // verus!
