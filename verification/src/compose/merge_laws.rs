//! What the merge engine guarantees.

use vstd::prelude::*;

use crate::ast::{
    ArrowMapEntry, DependsOnEntry, DependsOnEntryV, EnvEntry, LabelEntry, LabelEntryV, LiteralV,
    RawEntry, ServiceFieldsV,
};
use crate::compose::merge::{
    final_values, key_index, merged_dependencies, merged_dependency, merged_entry, merged_label,
    merged_labels, merged_map, merged_scalar, merged_scalars, merged_tier, text_index,
    with_distinct, Keyed, MergeAccV, Placed, TierV,
};
use crate::compose_error::ComposeErrorV;
use crate::schema::MapSide;

verus! {

/// The body's own value always takes its field, whatever was there.
pub proof fn law_own_value_wins<T: Placed>(
    held: Option<(T::V, TierV)>,
    field: Seq<char>,
    value: T::V,
)
    ensures
        merged_scalar::<T>(held, field, Some(value), TierV::Own) == Ok::<
            Option<(T::V, TierV)>,
            ComposeErrorV,
        >(Some((value, TierV::Own))),
{
}

/// Two templates that set the same single-value field collide, and the
/// collision names both and points at both values.
pub proof fn law_two_templates_collide<T: Placed>(
    first: T::V,
    first_template: Seq<char>,
    second: T::V,
    second_template: Seq<char>,
    field: Seq<char>,
)
    ensures
        merged_scalar::<T>(
            Some((first, TierV::Explicit(first_template))),
            field,
            Some(second),
            TierV::Explicit(second_template),
        ) == Err::<Option<(T::V, TierV)>, ComposeErrorV>(
            ComposeErrorV::FieldCollision {
                field,
                first_template,
                second_template,
                first: T::place(first),
                second: T::place(second),
            },
        ),
{
}

/// A field that a tier does not set stays as it was.
pub proof fn law_unset_field_is_kept<T: Placed>(
    held: Option<(T::V, TierV)>,
    field: Seq<char>,
    tier: TierV,
)
    ensures
        merged_scalar::<T>(held, field, None, tier) == Ok::<
            Option<(T::V, TierV)>,
            ComposeErrorV,
        >(held),
{
}

proof fn lemma_key_index<E: Keyed>(held: Seq<(E::V, TierV)>, key: Seq<char>, i: int)
    requires
        0 <= i <= held.len(),
    ensures
        i <= key_index::<E>(held, key, i) <= held.len(),
        key_index::<E>(held, key, i) < held.len() ==> E::key_of(
            held[key_index::<E>(held, key, i)].0,
        ) == key,
        forall|k: int|
            i <= k < key_index::<E>(held, key, i) ==> E::key_of((#[trigger] held[k]).0) != key,
    decreases held.len() - i,
{
    if i < held.len() && E::key_of(held[i].0) != key {
        lemma_key_index::<E>(held, key, i + 1);
    }
}

/// Whether no two entries are under one key.
pub open spec fn keys_distinct<E: Keyed>(held: Seq<(E::V, TierV)>) -> bool {
    forall|p: int, q: int|
        0 <= p < q < held.len() ==> E::key_of((#[trigger] held[p]).0) != E::key_of(
            (#[trigger] held[q]).0,
        )
}

/// Whether no two entries that a body sets are under one key.
pub open spec fn own_keys_distinct<E: Keyed>(entries: Seq<E::V>) -> bool {
    forall|p: int, q: int|
        0 <= p < q < entries.len() ==> E::key_of(#[trigger] entries[p]) != E::key_of(
            #[trigger] entries[q],
        )
}

proof fn lemma_merged_entry_distinct<E: Keyed>(
    held: Seq<(E::V, TierV)>,
    field: Seq<char>,
    side: MapSide,
    entry: E::V,
    tier: TierV,
)
    requires
        keys_distinct::<E>(held),
    ensures
        merged_entry::<E>(held, field, side, entry, tier) matches Ok(after) ==> keys_distinct::<E>(
            after,
        ),
{
    lemma_key_index::<E>(held, E::key_of(entry), 0);
}

/// Merging a tier into a map field keeps its keys distinct.
pub proof fn law_map_keys_stay_distinct<E: Keyed>(
    held: Seq<(E::V, TierV)>,
    field: Seq<char>,
    side: MapSide,
    incoming: Seq<E::V>,
    i: int,
    tier: TierV,
)
    requires
        0 <= i,
        keys_distinct::<E>(held),
    ensures
        merged_map::<E>(held, field, side, incoming, i, tier) matches Ok(after)
            ==> keys_distinct::<E>(after),
    decreases incoming.len() - i,
{
    if i < incoming.len() {
        lemma_merged_entry_distinct::<E>(held, field, side, incoming[i], tier);
        if let Ok(after) = merged_entry::<E>(held, field, side, incoming[i], tier) {
            law_map_keys_stay_distinct::<E>(after, field, side, incoming, i + 1, tier);
        }
    }
}

/// Merging a tier into `depends_on` keeps the services it names distinct.
pub proof fn law_dependencies_stay_distinct(
    held: Seq<(DependsOnEntryV, TierV)>,
    incoming: Seq<DependsOnEntryV>,
    i: int,
    tier: TierV,
)
    requires
        0 <= i,
        keys_distinct::<DependsOnEntry>(held),
    ensures
        merged_dependencies(held, incoming, i, tier) matches Ok(after) ==> keys_distinct::<
            DependsOnEntry,
        >(after),
    decreases incoming.len() - i,
{
    if i < incoming.len() {
        lemma_merged_entry_distinct::<DependsOnEntry>(
            held,
            "depends_on"@,
            MapSide::Key,
            incoming[i],
            tier,
        );
        if let Ok(after) = merged_dependency(held, incoming[i], tier) {
            law_dependencies_stay_distinct(after, incoming, i + 1, tier);
        }
    }
}

/// Merging a tier into `labels` keeps its keys distinct.
pub proof fn law_label_keys_stay_distinct(
    held: Seq<(LabelEntryV, TierV)>,
    incoming: Seq<LabelEntryV>,
    i: int,
    tier: TierV,
)
    requires
        0 <= i,
        keys_distinct::<LabelEntry>(held),
    ensures
        merged_labels(held, incoming, i, tier) matches Ok(after) ==> keys_distinct::<LabelEntry>(
            after,
        ),
    decreases incoming.len() - i,
{
    if i < incoming.len() {
        lemma_key_index::<LabelEntry>(held, incoming[i].key.text(), 0);
        if let Ok(after) = merged_label(held, incoming[i], tier) {
            assert(keys_distinct::<LabelEntry>(after));
            law_label_keys_stay_distinct(after, incoming, i + 1, tier);
        }
    }
}

proof fn lemma_own_entry<E: Keyed>(
    held: Seq<(E::V, TierV)>,
    field: Seq<char>,
    side: MapSide,
    entry: E::V,
)
    ensures
        merged_entry::<E>(held, field, side, entry, TierV::Own) matches Ok(after)
            && after.contains((entry, TierV::Own)) && (forall|x: (E::V, TierV)| #[trigger]
            held.contains(x) && E::key_of(x.0) != E::key_of(entry) ==> after.contains(x)),
{
    let key = E::key_of(entry);
    lemma_key_index::<E>(held, key, 0);
    let at = key_index::<E>(held, key, 0);
    let x = (entry, TierV::Own);
    if at >= held.len() {
        let after = held.push(x);
        assert(after[held.len() as int] == x);
        assert forall|y: (E::V, TierV)| #[trigger] held.contains(y) implies after.contains(y) by {
            let k = choose|k: int| 0 <= k < held.len() && held[k] == y;
            assert(after[k] == y);
        }
    } else {
        let after = held.update(at, x);
        assert(after[at] == x);
        assert forall|y: (E::V, TierV)| #[trigger]
            held.contains(y) && E::key_of(y.0) != key implies after.contains(y) by {
            let k = choose|k: int| 0 <= k < held.len() && held[k] == y;
            assert(after[k] == y);
        }
    }
}

/// The entries of the body itself never collide, and each of them is in
/// the merged map, while entries under other keys stay as they were. The
/// keys of one body are distinct.
pub proof fn law_own_entries_win<E: Keyed>(
    held: Seq<(E::V, TierV)>,
    field: Seq<char>,
    side: MapSide,
    incoming: Seq<E::V>,
    i: int,
)
    requires
        0 <= i <= incoming.len(),
        own_keys_distinct::<E>(incoming),
    ensures
        merged_map::<E>(held, field, side, incoming, i, TierV::Own) matches Ok(after) && (forall|
            j: int,
        |
            i <= j < incoming.len() ==> after.contains(((#[trigger] incoming[j]), TierV::Own)))
            && (forall|x: (E::V, TierV)| #[trigger]
            held.contains(x) && (forall|j: int|
                i <= j < incoming.len() ==> E::key_of(#[trigger] incoming[j]) != E::key_of(x.0))
                ==> after.contains(x)),
    decreases incoming.len() - i,
{
    if i < incoming.len() {
        lemma_own_entry::<E>(held, field, side, incoming[i]);
        let next = merged_entry::<E>(held, field, side, incoming[i], TierV::Own)->Ok_0;
        law_own_entries_win::<E>(next, field, side, incoming, i + 1);
        let after = merged_map::<E>(next, field, side, incoming, i + 1, TierV::Own)->Ok_0;
        assert(after.contains((incoming[i], TierV::Own))) by {
            let x = (incoming[i], TierV::Own);
            assert(next.contains(x));
        }
        assert forall|x: (E::V, TierV)| #[trigger]
            held.contains(x) && (forall|j: int|
                i <= j < incoming.len() ==> E::key_of(#[trigger] incoming[j]) != E::key_of(
                    x.0,
                )) implies after.contains(x) by {
            assert(E::key_of(incoming[i]) != E::key_of(x.0));
            assert(next.contains(x));
        }
    }
}

/// Two templates that say the same of a service agree: naming one
/// dependency twice is one answer given twice, and the entry first
/// written stays.
pub proof fn law_agreeing_dependencies_merge(
    held: Seq<(DependsOnEntryV, TierV)>,
    at: int,
    entry: DependsOnEntryV,
    template: Seq<char>,
)
    requires
        0 <= at < held.len(),
        keys_distinct::<DependsOnEntry>(held),
        held[at].0.reference.text() == entry.reference.text(),
        held[at].0.effective_condition() == entry.effective_condition(),
    ensures
        merged_dependency(held, entry, TierV::Explicit(template)) == Ok::<
            Seq<(DependsOnEntryV, TierV)>,
            ComposeErrorV,
        >(held),
{
    lemma_key_index::<DependsOnEntry>(held, entry.reference.text(), 0);
}

/// A label that one tier writes as a list and another as a single value is
/// refused, whichever tiers they are.
pub proof fn law_label_shapes_must_agree(
    held: Seq<(LabelEntryV, TierV)>,
    at: int,
    entry: LabelEntryV,
    tier: TierV,
)
    requires
        0 <= at < held.len(),
        keys_distinct::<LabelEntry>(held),
        held[at].0.key.text() == entry.key.text(),
        held[at].0.value is List != entry.value is List,
    ensures
        merged_label(held, entry, tier) == Err::<Seq<(LabelEntryV, TierV)>, ComposeErrorV>(
            ComposeErrorV::LabelShapeMismatch {
                key: entry.key.text(),
                first_shape: held[at].0.value.shape(),
                second_shape: entry.value.shape(),
                first: held[at].0.span,
                second: entry.span,
            },
        ),
{
    lemma_key_index::<LabelEntry>(held, entry.key.text(), 0);
}

proof fn lemma_text_index(lits: Seq<LiteralV>, text: Seq<char>, i: int)
    requires
        0 <= i <= lits.len(),
    ensures
        i <= text_index(lits, text, i) <= lits.len(),
        text_index(lits, text, i) < lits.len() ==> lits[text_index(lits, text, i)].text() == text,
        forall|k: int| i <= k < text_index(lits, text, i) ==> (#[trigger] lits[k]).text() != text,
    decreases lits.len() - i,
{
    if i < lits.len() && lits[i].text() != text {
        lemma_text_index(lits, text, i + 1);
    }
}

/// Whether no two literals have the same text.
pub open spec fn texts_distinct(lits: Seq<LiteralV>) -> bool {
    forall|p: int, q: int|
        0 <= p < q < lits.len() ==> (#[trigger] lits[p]).text() != (#[trigger] lits[q]).text()
}

/// Whether some literal has this text.
pub open spec fn has_text(lits: Seq<LiteralV>, text: Seq<char>) -> bool {
    exists|k: int| 0 <= k < lits.len() && (#[trigger] lits[k]).text() == text
}

/// Adding one list to another by distinct text keeps what was there, in
/// its place, leaves no text twice, and holds every text of both.
pub proof fn law_distinct_lists(held: Seq<LiteralV>, more: Seq<LiteralV>, i: int)
    requires
        0 <= i <= more.len(),
        texts_distinct(held),
    ensures
        texts_distinct(with_distinct(held, more, i)),
        held.is_prefix_of(with_distinct(held, more, i)),
        forall|j: int|
            i <= j < more.len() ==> has_text(
                with_distinct(held, more, i),
                (#[trigger] more[j]).text(),
            ),
    decreases more.len() - i,
{
    if i < more.len() {
        let text = more[i].text();
        lemma_text_index(held, text, 0);
        let at = text_index(held, text, 0);
        if at < held.len() {
            law_distinct_lists(held, more, i + 1);
            let after = with_distinct(held, more, i + 1);
            assert(after[at] == held[at]);
            assert(has_text(after, text));
        } else {
            let next = held.push(more[i]);
            law_distinct_lists(next, more, i + 1);
            let after = with_distinct(next, more, i + 1);
            assert(next[held.len() as int] == more[i]);
            assert(after[held.len() as int] == next[held.len() as int]);
            assert(has_text(after, text));
        }
    }
}

impl MergeAccV {
    /// Whether every map field holds each key once, and `networks` each
    /// name once.
    pub open spec fn distinct(self) -> bool {
        &&& keys_distinct::<ArrowMapEntry>(self.volumes)
        &&& keys_distinct::<ArrowMapEntry>(self.publish)
        &&& keys_distinct::<ArrowMapEntry>(self.devices)
        &&& keys_distinct::<EnvEntry>(self.env)
        &&& keys_distinct::<LabelEntry>(self.labels)
        &&& keys_distinct::<DependsOnEntry>(self.depends_on)
        &&& keys_distinct::<RawEntry>(self.raw)
        &&& texts_distinct(self.networks)
    }
}

/// Whether every map field of a body holds each key once, and `networks`
/// each name once.
pub open spec fn fields_distinct(fields: ServiceFieldsV) -> bool {
    &&& own_keys_distinct::<ArrowMapEntry>(fields.volumes.entries)
    &&& own_keys_distinct::<ArrowMapEntry>(fields.publish.entries)
    &&& own_keys_distinct::<ArrowMapEntry>(fields.devices.entries)
    &&& own_keys_distinct::<EnvEntry>(fields.env.entries)
    &&& own_keys_distinct::<LabelEntry>(fields.labels.entries)
    &&& own_keys_distinct::<DependsOnEntry>(fields.depends_on)
    &&& own_keys_distinct::<RawEntry>(fields.raw.entries)
    &&& texts_distinct(fields.networks)
}

/// Merging a tier keeps every map field's keys, and the names in
/// `networks`, distinct.
pub proof fn law_merging_keeps_keys_distinct(acc: MergeAccV, incoming: ServiceFieldsV, tier: TierV)
    requires
        acc.distinct(),
    ensures
        merged_tier(acc, incoming, tier) matches Ok(after) ==> after.distinct(),
{
    if let Ok(scalars) = merged_scalars(acc, incoming, tier) {
        assert(scalars.volumes == acc.volumes);
        assert(scalars.publish == acc.publish);
        assert(scalars.devices == acc.devices);
        assert(scalars.env == acc.env);
        assert(scalars.labels == acc.labels);
        assert(scalars.depends_on == acc.depends_on);
        assert(scalars.raw == acc.raw);
        law_distinct_lists(acc.networks, incoming.networks, 0);
        law_map_keys_stay_distinct::<ArrowMapEntry>(
            acc.volumes,
            "volume"@,
            MapSide::Value,
            incoming.volumes.entries,
            0,
            tier,
        );
        law_map_keys_stay_distinct::<ArrowMapEntry>(
            acc.publish,
            "publish"@,
            MapSide::Value,
            incoming.publish.entries,
            0,
            tier,
        );
        law_map_keys_stay_distinct::<ArrowMapEntry>(
            acc.devices,
            "devices"@,
            MapSide::Value,
            incoming.devices.entries,
            0,
            tier,
        );
        law_map_keys_stay_distinct::<EnvEntry>(
            acc.env,
            "env"@,
            MapSide::Key,
            incoming.env.entries,
            0,
            tier,
        );
        law_label_keys_stay_distinct(acc.labels, incoming.labels.entries, 0, tier);
        law_dependencies_stay_distinct(acc.depends_on, incoming.depends_on, 0, tier);
        law_map_keys_stay_distinct::<RawEntry>(
            acc.raw,
            "raw"@,
            MapSide::Key,
            incoming.raw.entries,
            0,
            tier,
        );
    }
}

/// The fields that merged tiers add up to hold each key once.
pub proof fn lemma_merged_fields_distinct(acc: MergeAccV)
    requires
        acc.distinct(),
    ensures
        fields_distinct(acc.fields()),
{
    lemma_final_values_distinct::<ArrowMapEntry>(acc.volumes);
    lemma_final_values_distinct::<ArrowMapEntry>(acc.publish);
    lemma_final_values_distinct::<ArrowMapEntry>(acc.devices);
    lemma_final_values_distinct::<EnvEntry>(acc.env);
    lemma_final_values_distinct::<LabelEntry>(acc.labels);
    lemma_final_values_distinct::<DependsOnEntry>(acc.depends_on);
    lemma_final_values_distinct::<RawEntry>(acc.raw);
}

proof fn lemma_final_values_distinct<E: Keyed>(held: Seq<(E::V, TierV)>)
    requires
        keys_distinct::<E>(held),
    ensures
        own_keys_distinct::<E>(final_values(held)),
{
    let values = final_values(held);
    assert forall|p: int, q: int| 0 <= p < q < values.len() implies E::key_of(#[trigger] values[p])
        != E::key_of(#[trigger] values[q]) by {
        assert(values[p] == held[p].0);
        assert(values[q] == held[q].0);
    }
}

} // verus!
