//! How the labels of several tiers come together, key by key.

use vstd::prelude::*;

use crate::ast::{LabelEntry, LabelEntryV, LabelValueV, LiteralV, ServiceFieldsV};
use crate::compose::merge::{
    key_index, merged_label, merged_labels, merged_tier, text_index, with_distinct, MergeAccV,
    TierV,
};
use crate::compose::merge_laws::has_text;
use crate::compose_error::ComposeErrorV;

verus! {

/// Whether `all` is `items` with those of `more` behind it whose texts are
/// not there yet.
pub open spec fn list_joined(
    all: Seq<LiteralV>,
    items: Seq<LiteralV>,
    more: Seq<LiteralV>,
) -> bool {
    &&& items.is_prefix_of(all)
    &&& forall|j: int| 0 <= j < more.len() ==> has_text(all, (#[trigger] more[j]).text())
    &&& forall|k: int| items.len() <= k < all.len() ==> more.contains(#[trigger] all[k])
}

proof fn lemma_text_at(lits: Seq<LiteralV>, text: Seq<char>, i: int)
    requires
        0 <= i <= lits.len(),
    ensures
        i <= text_index(lits, text, i) <= lits.len(),
        text_index(lits, text, i) < lits.len() ==> lits[text_index(lits, text, i)].text() == text,
    decreases lits.len() - i,
{
    if i < lits.len() && lits[i].text() != text {
        lemma_text_at(lits, text, i + 1);
    }
}

proof fn lemma_list_joined(items: Seq<LiteralV>, more: Seq<LiteralV>, i: int)
    requires
        0 <= i <= more.len(),
    ensures
        ({
            let all = with_distinct(items, more, i);
            &&& items.is_prefix_of(all)
            &&& forall|j: int| i <= j < more.len() ==> has_text(all, (#[trigger] more[j]).text())
            &&& forall|k: int| items.len() <= k < all.len() ==> more.contains(#[trigger] all[k])
        }),
    decreases more.len() - i,
{
    if i < more.len() {
        let text = more[i].text();
        lemma_text_at(items, text, 0);
        let at = text_index(items, text, 0);
        let next = if at < items.len() {
            items
        } else {
            items.push(more[i])
        };
        lemma_list_joined(next, more, i + 1);
        let all = with_distinct(items, more, i);
        assert(all == with_distinct(next, more, i + 1));
        let here = if at < items.len() {
            at
        } else {
            items.len() as int
        };
        assert(all[here] == next[here]);
        assert(has_text(all, text));
        assert forall|k: int| items.len() <= k < all.len() implies more.contains(
            #[trigger] all[k],
        ) by {
            if k < next.len() {
                assert(all[k] == next[k]);
                assert(more[i] == all[k]);
            }
        }
    }
}

/// Adding one list to another keeps the items there in their places, and
/// puts behind them those of the other whose texts are new.
pub proof fn law_lists_join_by_text(items: Seq<LiteralV>, more: Seq<LiteralV>)
    ensures
        list_joined(with_distinct(items, more, 0), items, more),
{
    lemma_list_joined(items, more, 0);
}

/// Whether a label holds what one more entry under its key says: a single
/// value is that of the entry, and a list has every item of the entry's.
pub open spec fn label_gives(label: LabelEntryV, entry: LabelEntryV) -> bool {
    &&& label.key.text() == entry.key.text()
    &&& match (label.value, entry.value) {
        (LabelValueV::Scalar(held), LabelValueV::Scalar(said)) => held == said && label.span
            == entry.span,
        (LabelValueV::List(held, _), LabelValueV::List(said, _)) => forall|j: int|
            0 <= j < said.len() ==> has_text(held, (#[trigger] said[j]).text()),
        _ => false,
    }
}

/// Whether a label is what it was before, but for what may be put in its
/// place: its key as it was written, and a list with its items first.
pub open spec fn label_stays(label: LabelEntryV, before: LabelEntryV) -> bool {
    &&& label.key == before.key
    &&& match (label.value, before.value) {
        (LabelValueV::Scalar(_), LabelValueV::Scalar(_)) => true,
        (LabelValueV::List(now, place), LabelValueV::List(items, span)) => items.is_prefix_of(now)
            && place == span,
        _ => false,
    }
}

/// Whether no entry is under `key`.
pub open spec fn none_under(entries: Seq<LabelEntryV>, key: Seq<char>, i: int) -> bool {
    forall|k: int| i <= k < entries.len() ==> (#[trigger] entries[k]).key.text() != key
}

/// Whether some label holds what the entry says.
pub open spec fn some_gives(labels: Seq<LabelEntryV>, entry: LabelEntryV) -> bool {
    exists|m: int| 0 <= m < labels.len() && label_gives(#[trigger] labels[m], entry)
}

/// Whether no two entries are under one key.
pub open spec fn label_keys_differ(entries: Seq<LabelEntryV>) -> bool {
    forall|j: int, k: int|
        0 <= j < k < entries.len() ==> (#[trigger] entries[j]).key.text() != (
        #[trigger] entries[k]).key.text()
}

proof fn lemma_label_at(held: Seq<(LabelEntryV, TierV)>, key: Seq<char>, i: int)
    requires
        0 <= i <= held.len(),
    ensures
        i <= key_index::<LabelEntry>(held, key, i) <= held.len(),
        key_index::<LabelEntry>(held, key, i) < held.len() ==> held[key_index::<LabelEntry>(
            held,
            key,
            i,
        )].0.key.text() == key,
        forall|k: int|
            i <= k < key_index::<LabelEntry>(held, key, i) ==> (#[trigger] held[k]).0.key.text()
                != key,
    decreases held.len() - i,
{
    if i < held.len() && held[i].0.key.text() != key {
        lemma_label_at(held, key, i + 1);
    }
}

/// Whether a tier may say something of these labels: the body itself, or
/// a template among templates.
spec fn may_follow(held: Seq<(LabelEntryV, TierV)>, tier: TierV) -> bool {
    tier is Own || forall|m: int| 0 <= m < held.len() ==> (#[trigger] held[m]).1 is Explicit
}

/// What one more entry does: it takes a place of its own at the end, or
/// changes the one label under its key.
proof fn lemma_one_label(held: Seq<(LabelEntryV, TierV)>, entry: LabelEntryV, tier: TierV)
    requires
        may_follow(held, tier),
    ensures
        merged_label(held, entry, tier) matches Ok(after) ==> {
            let at = key_index::<LabelEntry>(held, entry.key.text(), 0);
            &&& 0 <= at < after.len()
            &&& after.len() == if at < held.len() {
                held.len()
            } else {
                held.len() + 1
            }
            &&& label_gives(after[at].0, entry)
            &&& at < held.len() ==> label_stays(after[at].0, held[at].0) && held[at].0.key.text()
                == entry.key.text() && (tier is Explicit ==> held[at].0.value is List
                && entry.value is List)
            &&& at == held.len() ==> after[at].0 == entry
            &&& forall|m: int|
                0 <= m < held.len() && m != at ==> #[trigger] after[m] == held[m]
            &&& may_follow(after, tier)
        },
{
    let key = entry.key.text();
    let at = key_index::<LabelEntry>(held, key, 0);
    lemma_label_at(held, key, 0);
    if let LabelValueV::List(said, _) = entry.value {
        if at < held.len() {
            if let LabelValueV::List(items, _) = held[at].0.value {
                lemma_list_joined(items, said, 0);
            }
        } else {
            assert forall|j: int| 0 <= j < said.len() implies has_text(
                said,
                (#[trigger] said[j]).text(),
            ) by {
                assert(said[j].text() == said[j].text());
            }
        }
    }
    if let Ok(after) = merged_label(held, entry, tier) {
        if tier is Explicit {
            assert forall|m: int| 0 <= m < after.len() implies (#[trigger] after[m]).1
                is Explicit by {
                if m < held.len() {
                    assert(held[m].1 is Explicit);
                }
            }
        }
    }
}

proof fn lemma_labels_joined(
    held: Seq<(LabelEntryV, TierV)>,
    incoming: Seq<LabelEntryV>,
    i: int,
    tier: TierV,
)
    requires
        0 <= i <= incoming.len(),
        may_follow(held, tier),
        label_keys_differ(incoming),
    ensures
        merged_labels(held, incoming, i, tier) matches Ok(after) ==> {
            &&& after.len() >= held.len()
            &&& forall|m: int|
                0 <= m < held.len() ==> label_stays((#[trigger] after[m]).0, held[m].0)
            &&& forall|m: int|
                0 <= m < held.len() && none_under(incoming, held[m].0.key.text(), i)
                    ==> #[trigger] after[m] == held[m]
            &&& forall|m: int|
                held.len() <= m < after.len() ==> incoming.contains((#[trigger] after[m]).0)
            &&& forall|k: int|
                i <= k < incoming.len() ==> gives_after(after, #[trigger] incoming[k])
        },
    decreases incoming.len() - i,
{
    if i < incoming.len() {
        let entry = incoming[i];
        let key = entry.key.text();
        let at = key_index::<LabelEntry>(held, key, 0);
        lemma_one_label(held, entry, tier);
        if let Ok(next) = merged_label(held, entry, tier) {
            lemma_labels_joined(next, incoming, i + 1, tier);
            if let Ok(after) = merged_labels(next, incoming, i + 1, tier) {
                assert(none_under(incoming, key, i + 1)) by {
                    assert forall|k: int| i + 1 <= k < incoming.len() implies (
                    #[trigger] incoming[k]).key.text() != key by {
                        assert(incoming[i].key.text() != incoming[k].key.text());
                    }
                }
                assert(next[at].0.key.text() == key);
                assert(after[at] == next[at]);
                assert(gives_after(after, entry));
                assert forall|m: int| 0 <= m < held.len() implies label_stays(
                    (#[trigger] after[m]).0,
                    held[m].0,
                ) by {
                    assert(label_stays(after[m].0, next[m].0));
                    if m == at {
                        assert(after[m] == next[m]);
                    } else {
                        assert(next[m] == held[m]);
                    }
                }
                assert forall|m: int|
                    0 <= m < held.len() && none_under(
                        incoming,
                        held[m].0.key.text(),
                        i,
                    ) implies #[trigger] after[m] == held[m] by {
                    assert(incoming[i].key.text() != held[m].0.key.text());
                    assert(m != at);
                    assert(next[m] == held[m]);
                    assert(none_under(incoming, held[m].0.key.text(), i + 1));
                }
                assert forall|m: int| held.len() <= m < after.len() implies incoming.contains(
                    (#[trigger] after[m]).0,
                ) by {
                    if m < next.len() {
                        assert(m == at);
                        assert(after[m].0 == incoming[i]);
                    }
                }
            }
        }
    }
}

/// Whether some label that is held gives what the entry says.
spec fn gives_after(held: Seq<(LabelEntryV, TierV)>, entry: LabelEntryV) -> bool {
    exists|m: int| 0 <= m < held.len() && label_gives((#[trigger] held[m]).0, entry)
}

/// Whether labels are those of `lower`, in their places and as they were
/// written, with those of `upper` joined to them by key.
pub open spec fn labels_joined(
    after: Seq<LabelEntryV>,
    upper: Seq<LabelEntryV>,
    lower: Seq<LabelEntryV>,
) -> bool {
    &&& after.len() >= lower.len()
    &&& forall|m: int| 0 <= m < lower.len() ==> label_stays(#[trigger] after[m], lower[m])
    &&& forall|m: int|
        0 <= m < lower.len() && none_under(upper, lower[m].key.text(), 0) ==> #[trigger] after[m]
            == lower[m]
    &&& forall|m: int| lower.len() <= m < after.len() ==> upper.contains(#[trigger] after[m])
    &&& forall|k: int| 0 <= k < upper.len() ==> some_gives(after, #[trigger] upper[k])
}

/// The body's own labels join those of its templates by key: a single
/// value takes the place of the one there, the items of a list go behind
/// those there, a new key behind all others, and every other label stays.
pub proof fn law_own_labels_join(acc: MergeAccV, own: ServiceFieldsV)
    requires
        label_keys_differ(own.labels.entries),
    ensures
        merged_tier(acc, own, TierV::Own) matches Ok(after) ==> labels_joined(
            after.fields().labels.entries,
            own.labels.entries,
            acc.fields().labels.entries,
        ),
{
    lemma_tier_labels(acc, own, TierV::Own);
}

/// One more template's labels join those of the templates before it by
/// key, in the same way; a single value under a key that is there is
/// refused.
pub proof fn law_templates_labels_join(
    acc: MergeAccV,
    incoming: ServiceFieldsV,
    template: Seq<char>,
)
    requires
        label_keys_differ(incoming.labels.entries),
        forall|m: int| 0 <= m < acc.labels.len() ==> (#[trigger] acc.labels[m]).1 is Explicit,
    ensures
        merged_tier(acc, incoming, TierV::Explicit(template)) matches Ok(after) ==> labels_joined(
            after.fields().labels.entries,
            incoming.labels.entries,
            acc.fields().labels.entries,
        ),
{
    lemma_tier_labels(acc, incoming, TierV::Explicit(template));
}

proof fn lemma_tier_labels(acc: MergeAccV, incoming: ServiceFieldsV, tier: TierV)
    requires
        label_keys_differ(incoming.labels.entries),
        may_follow(acc.labels, tier),
    ensures
        merged_tier(acc, incoming, tier) matches Ok(after) ==> labels_joined(
            after.fields().labels.entries,
            incoming.labels.entries,
            acc.fields().labels.entries,
        ),
{
    let upper = incoming.labels.entries;
    lemma_labels_joined(acc.labels, upper, 0, tier);
    if let Ok(whole) = merged_tier(acc, incoming, tier) {
        let held = merged_labels(acc.labels, upper, 0, tier)->Ok_0;
        assert(whole.labels == held);
        let after = whole.fields().labels.entries;
        let lower = acc.fields().labels.entries;
        assert(after.len() == held.len());
        assert(lower.len() == acc.labels.len());
        assert forall|m: int| 0 <= m < lower.len() implies label_stays(
            #[trigger] after[m],
            lower[m],
        ) by {
            assert(after[m] == held[m].0);
            assert(lower[m] == acc.labels[m].0);
        }
        assert forall|m: int|
            0 <= m < lower.len() && none_under(upper, lower[m].key.text(), 0) implies
            #[trigger] after[m] == lower[m] by {
            assert(after[m] == held[m].0);
            assert(lower[m] == acc.labels[m].0);
            assert(held[m] == acc.labels[m]);
        }
        assert forall|m: int| lower.len() <= m < after.len() implies upper.contains(
            #[trigger] after[m],
        ) by {
            assert(after[m] == held[m].0);
        }
        assert forall|k: int| 0 <= k < upper.len() implies some_gives(
            after,
            #[trigger] upper[k],
        ) by {
            assert(gives_after(held, upper[k]));
            let m = choose|m: int|
                0 <= m < held.len() && label_gives((#[trigger] held[m]).0, upper[k]);
            assert(after[m] == held[m].0);
        }
    }
}

/// Whether an error names two labels under one key that disagree: a list
/// and a single value by their shapes and places.
pub open spec fn names_a_mismatch(
    error: ComposeErrorV,
    there: LabelEntryV,
    entry: LabelEntryV,
) -> bool {
    &&& there.key.text() == entry.key.text()
    &&& there.value is List <==> entry.value is Scalar
    &&& error matches ComposeErrorV::LabelShapeMismatch {
        key,
        first_shape,
        second_shape,
        first,
        second,
    } && key == entry.key.text() && first == there.span && second == entry.span && first_shape == (
    if there.value is List {
        "a list"@
    } else {
        "a single value"@
    }) && second_shape == (if entry.value is List {
        "a list"@
    } else {
        "a single value"@
    })
}

/// A label that cannot join is refused with the entry that is there: one
/// of the body itself only where one of the two is a list and the other is
/// not, one of a template also where both are single values, by both
/// templates.
pub proof fn law_refused_labels_are_named(
    held: Seq<(LabelEntryV, TierV)>,
    entry: LabelEntryV,
    template: Seq<char>,
)
    ensures
        merged_label(held, entry, TierV::Own) matches Err(error) ==> exists|m: int|
            0 <= m < held.len() && names_a_mismatch(error, (#[trigger] held[m]).0, entry),
        merged_label(held, entry, TierV::Explicit(template)) matches Err(error) ==> exists|m: int|
            0 <= m < held.len() && (names_a_mismatch(error, (#[trigger] held[m]).0, entry) || (
            error matches ComposeErrorV::MapKeyCollision(details) && details.field == "labels"@
                && details.key == entry.key.text() && held[m].0.key.text() == entry.key.text()
                && held[m].1 == TierV::Explicit(details.first_template) && details.second_template
                == template && details.first == held[m].0.span && details.second == entry.span
                && held[m].0.value is Scalar && entry.value is Scalar)),
{
    lemma_label_at(held, entry.key.text(), 0);
    let at = key_index::<LabelEntry>(held, entry.key.text(), 0);
    if at < held.len() {
        if let Err(error) = merged_label(held, entry, TierV::Own) {
            assert(names_a_mismatch(error, held[at].0, entry));
        }
        if let Err(error) = merged_label(held, entry, TierV::Explicit(template)) {
            if error is LabelShapeMismatch {
                assert(names_a_mismatch(error, held[at].0, entry));
            } else {
                assert(held[at].0.key.text() == entry.key.text());
            }
        }
    }
}

} // verus!
