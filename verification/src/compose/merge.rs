//! The merge engine: how what several templates and a body of its own set
//! adds up to one service.
//!
//! There are two tiers. The templates of a `with` list are explicit: left
//! to right, and two of them must not set the same thing. The body's own
//! fields come last and win over all of them.

use vstd::prelude::*;
use vstd::string::*;

use crate::ast::{
    ArrowMap, ArrowMapEntry, ArrowMapEntryV, ArrowMapV, Build, BuildV, Command, DependsOnEntry,
    DependsOnEntryV, Entrypoint, EnvEntry, EnvEntryV, EnvMap, EnvMapV, Expose, ExposeV, Healthcheck,
    HealthcheckTest, HealthcheckV, Image, ImageV, LabelEntry, LabelEntryV, LabelMap, LabelMapV,
    LabelValue, LabelValueV, Literal, LiteralV, RawEntry, RawEntryV, RawMap, RawMapV, Restart,
    RestartV, ServiceFields, ServiceFieldsV, ShellOrExecV,
};
use crate::compose::slots::Slots;
use crate::compose_error::{ComposeError, ComposeErrorV, MapKeyCollision, MapKeyCollisionV};
use crate::deep::{no_items, outcome, push_to, put_at, Duplicate};
use crate::schema::MapSide;
use crate::source::Span;
use crate::text::same_text;

verus! {

/// Where a value comes from: a template of the `with` list, by its name,
/// or the body itself.
#[derive(Debug)]
pub enum Tier {
    Explicit(String),
    Own,
}

/// The view of [`Tier`].
#[verifier::ext_equal]
pub enum TierV {
    Explicit(Seq<char>),
    Own,
}

impl DeepView for Tier {
    type V = TierV;

    open spec fn deep_view(&self) -> TierV {
        match self {
            Tier::Explicit(name) => TierV::Explicit(name@),
            Tier::Own => TierV::Own,
        }
    }
}

impl Duplicate for Tier {
    fn duplicate(&self) -> (r: Self) {
        match self {
            Tier::Explicit(name) => Tier::Explicit(name.clone()),
            Tier::Own => Tier::Own,
        }
    }
}

/// Values that stand at one place.
pub trait Placed: Duplicate {
    /// Where a value stands.
    spec fn place(v: Self::V) -> Span;

    /// Where this value stands.
    fn placed(&self) -> (r: Span)
        ensures
            r == Self::place(self.deep_view()),
    ;
}

impl Placed for Literal {
    open spec fn place(v: LiteralV) -> Span {
        v.span()
    }

    fn placed(&self) -> (r: Span) {
        self.span()
    }
}

impl Placed for HealthcheckTest {
    open spec fn place(v: ShellOrExecV) -> Span {
        v.span()
    }

    fn placed(&self) -> (r: Span) {
        self.span()
    }
}

impl Placed for Command {
    open spec fn place(v: ShellOrExecV) -> Span {
        v.span()
    }

    fn placed(&self) -> (r: Span) {
        self.span()
    }
}

impl Placed for Entrypoint {
    open spec fn place(v: ShellOrExecV) -> Span {
        v.span()
    }

    fn placed(&self) -> (r: Span) {
        self.span()
    }
}

// A flag is nothing but the place it was set at.
impl Placed for Span {
    open spec fn place(v: Span) -> Span {
        v
    }

    fn placed(&self) -> (r: Span) {
        *self
    }
}

/// A single-value field after one more tier: the body's own value wins
/// over a template's, and two templates that both set it collide. Once
/// the body's own value is there, it stays.
pub open spec fn merged_scalar<T: Placed>(
    held: Option<(T::V, TierV)>,
    field: Seq<char>,
    value: Option<T::V>,
    tier: TierV,
) -> Result<Option<(T::V, TierV)>, ComposeErrorV> {
    match (held, value) {
        (_, None) => Ok(held),
        (None, Some(new)) => Ok(Some((new, tier))),
        (Some((old_value, old_tier)), Some(new)) => match (old_tier, tier) {
            (_, TierV::Own) => Ok(Some((new, TierV::Own))),
            (TierV::Explicit(first_template), TierV::Explicit(second_template)) => Err(
                ComposeErrorV::FieldCollision {
                    field,
                    first_template,
                    second_template,
                    first: T::place(old_value),
                    second: T::place(new),
                },
            ),
            (TierV::Own, TierV::Explicit(_)) => Ok(held),
        },
    }
}

fn merge_scalar<T: Placed>(
    held: Option<(T, Tier)>,
    field: &'static str,
    value: Option<&T>,
    tier: &Tier,
) -> (r: Result<Option<(T, Tier)>, ComposeError>)
    ensures
        outcome(r) == merged_scalar::<T>(
            held.deep_view(),
            field@,
            value.deep_view(),
            tier.deep_view(),
        ),
{
    let new = match value {
        Some(new) => new,
        None => {
            return Ok(held);
        },
    };
    match held {
        None => Ok(Some((new.duplicate(), tier.duplicate()))),
        Some((old_value, old_tier)) => match tier {
            Tier::Own => Ok(Some((new.duplicate(), Tier::Own))),
            Tier::Explicit(second) => match old_tier {
                Tier::Explicit(first) => Err(
                    ComposeError::FieldCollision {
                        field,
                        first_template: first,
                        second_template: second.clone(),
                        first: old_value.placed(),
                        second: new.placed(),
                    },
                ),
                Tier::Own => Ok(Some((old_value, Tier::Own))),
            },
        },
    }
}

/// The index of the first literal with this text at or after `i`, or the
/// number of literals.
pub open spec fn text_index(lits: Seq<LiteralV>, text: Seq<char>, i: int) -> int
    decreases lits.len() - i,
{
    if i >= lits.len() {
        lits.len() as int
    } else if lits[i].text() == text {
        i
    } else {
        text_index(lits, text, i + 1)
    }
}

/// A list with the literals of another from index `i` on added to it,
/// except those whose text it holds already.
pub open spec fn with_distinct(held: Seq<LiteralV>, more: Seq<LiteralV>, i: int) -> Seq<LiteralV>
    decreases more.len() - i,
{
    if i >= more.len() {
        held
    } else if text_index(held, more[i].text(), 0) < held.len() {
        with_distinct(held, more, i + 1)
    } else {
        with_distinct(held.push(more[i]), more, i + 1)
    }
}

fn holds_text(held: &Vec<Literal>, text: &str) -> (r: bool)
    ensures
        r == (text_index(held.deep_view(), text@, 0) < held.deep_view().len()),
{
    let mut i: usize = 0;
    while i < held.len()
        invariant
            i <= held@.len(),
            text_index(held.deep_view(), text@, 0) == text_index(
                held.deep_view(),
                text@,
                i as int,
            ),
        decreases held@.len() - i,
    {
        if same_text(held[i].text(), text) {
            return true;
        }
        i = i + 1;
    }
    false
}

fn add_distinct(held: &mut Vec<Literal>, more: &Vec<Literal>)
    ensures
        final(held).deep_view() == with_distinct(old(held).deep_view(), more.deep_view(), 0),
{
    let mut i: usize = 0;
    while i < more.len()
        invariant
            i <= more@.len(),
            with_distinct(old(held).deep_view(), more.deep_view(), 0) == with_distinct(
                held.deep_view(),
                more.deep_view(),
                i as int,
            ),
        decreases more@.len() - i,
    {
        if !holds_text(held, more[i].text()) {
            push_to(held, more[i].duplicate());
        }
        i = i + 1;
    }
}

fn add_all(held: &mut Vec<Literal>, more: &Vec<Literal>)
    ensures
        final(held).deep_view() == old(held).deep_view() + more.deep_view(),
{
    let ghost before = held.deep_view();
    let mut i: usize = 0;
    while i < more.len()
        invariant
            i <= more@.len(),
            held.deep_view() == before + more.deep_view().take(i as int),
        decreases more@.len() - i,
    {
        push_to(held, more[i].duplicate());
        assert(held.deep_view() =~= before + more.deep_view().take(i + 1));
        i = i + 1;
    }
    assert(held.deep_view() =~= before + more.deep_view());
}

/// Map entries, each under a key.
pub trait Keyed: Duplicate {
    /// The key of an entry.
    spec fn key_of(v: Self::V) -> Seq<char>;

    /// Where an entry stands.
    spec fn entry_place(v: Self::V) -> Span;

    /// The key of this entry.
    fn key_text(&self) -> (r: &str)
        ensures
            r@ == Self::key_of(self.deep_view()),
    ;

    /// Where this entry stands.
    fn entry_span(&self) -> (r: Span)
        ensures
            r == Self::entry_place(self.deep_view()),
    ;
}

// What is mounted, published or handed in is told apart by where it ends
// up in the container.
impl Keyed for ArrowMapEntry {
    open spec fn key_of(v: ArrowMapEntryV) -> Seq<char> {
        v.container.text()
    }

    open spec fn entry_place(v: ArrowMapEntryV) -> Span {
        v.span
    }

    fn key_text(&self) -> (r: &str) {
        self.container.text()
    }

    fn entry_span(&self) -> (r: Span) {
        self.span
    }
}

impl Keyed for EnvEntry {
    open spec fn key_of(v: EnvEntryV) -> Seq<char> {
        v.key.text()
    }

    open spec fn entry_place(v: EnvEntryV) -> Span {
        v.span
    }

    fn key_text(&self) -> (r: &str) {
        self.key.text()
    }

    fn entry_span(&self) -> (r: Span) {
        self.span
    }
}

impl Keyed for LabelEntry {
    open spec fn key_of(v: LabelEntryV) -> Seq<char> {
        v.key.text()
    }

    open spec fn entry_place(v: LabelEntryV) -> Span {
        v.span
    }

    fn key_text(&self) -> (r: &str) {
        self.key.text()
    }

    fn entry_span(&self) -> (r: Span) {
        self.span
    }
}

impl Keyed for RawEntry {
    open spec fn key_of(v: RawEntryV) -> Seq<char> {
        v.key.text()
    }

    open spec fn entry_place(v: RawEntryV) -> Span {
        v.span
    }

    fn key_text(&self) -> (r: &str) {
        self.key.text()
    }

    fn entry_span(&self) -> (r: Span) {
        self.span
    }
}

impl Keyed for DependsOnEntry {
    open spec fn key_of(v: DependsOnEntryV) -> Seq<char> {
        v.reference.text()
    }

    open spec fn entry_place(v: DependsOnEntryV) -> Span {
        v.span
    }

    fn key_text(&self) -> (r: &str) {
        self.reference.text()
    }

    fn entry_span(&self) -> (r: Span) {
        self.span
    }
}

/// The index of the first entry under `key` at or after `i`, or the
/// number of entries.
pub open spec fn key_index<E: Keyed>(held: Seq<(E::V, TierV)>, key: Seq<char>, i: int) -> int
    decreases held.len() - i,
{
    if i >= held.len() {
        held.len() as int
    } else if E::key_of(held[i].0) == key {
        i
    } else {
        key_index::<E>(held, key, i + 1)
    }
}

fn find_key<E: Keyed>(held: &Vec<(E, Tier)>, key: &str) -> (r: usize)
    ensures
        r == key_index::<E>(held.deep_view(), key@, 0),
        r <= held@.len(),
{
    let mut i: usize = 0;
    while i < held.len()
        invariant
            i <= held@.len(),
            key_index::<E>(held.deep_view(), key@, 0) == key_index::<E>(
                held.deep_view(),
                key@,
                i as int,
            ),
        decreases held@.len() - i,
    {
        assert(held.deep_view()[i as int] == held@[i as int].deep_view());
        if same_text(held[i].0.key_text(), key) {
            return i;
        }
        i = i + 1;
    }
    i
}

pub(crate) proof fn lemma_key_index_bound<E: Keyed>(
    held: Seq<(E::V, TierV)>,
    key: Seq<char>,
    i: int,
)
    requires
        0 <= i,
    ensures
        0 <= key_index::<E>(held, key, i) <= held.len(),
    decreases held.len() - i,
{
    if i < held.len() {
        lemma_key_index_bound::<E>(held, key, i + 1);
    }
}

/// A map field after one more entry: a new key joins, the body's own
/// entry takes the place of a template's, and two templates that set the
/// same key collide.
pub open spec fn merged_entry<E: Keyed>(
    held: Seq<(E::V, TierV)>,
    field: Seq<char>,
    side: MapSide,
    entry: E::V,
    tier: TierV,
) -> Result<Seq<(E::V, TierV)>, ComposeErrorV> {
    let key = E::key_of(entry);
    let at = key_index::<E>(held, key, 0);
    if at >= held.len() {
        Ok(held.push((entry, tier)))
    } else {
        match (held[at].1, tier) {
            (_, TierV::Own) => Ok(held.update(at, (entry, TierV::Own))),
            (TierV::Explicit(first_template), TierV::Explicit(second_template)) => Err(
                ComposeErrorV::MapKeyCollision(
                    MapKeyCollisionV {
                        field,
                        side,
                        key,
                        first_template,
                        second_template,
                        first: E::entry_place(held[at].0),
                        second: E::entry_place(entry),
                    },
                ),
            ),
            (TierV::Own, TierV::Explicit(_)) => Ok(held),
        }
    }
}

/// A map field after the entries of one more tier, from index `i` on.
pub open spec fn merged_map<E: Keyed>(
    held: Seq<(E::V, TierV)>,
    field: Seq<char>,
    side: MapSide,
    incoming: Seq<E::V>,
    i: int,
    tier: TierV,
) -> Result<Seq<(E::V, TierV)>, ComposeErrorV>
    decreases incoming.len() - i,
{
    if i >= incoming.len() {
        Ok(held)
    } else {
        match merged_entry::<E>(held, field, side, incoming[i], tier) {
            Ok(after) => merged_map::<E>(after, field, side, incoming, i + 1, tier),
            Err(error) => Err(error),
        }
    }
}

fn merge_entry<E: Keyed>(
    held: Vec<(E, Tier)>,
    field: &'static str,
    side: MapSide,
    entry: &E,
    tier: &Tier,
) -> (r: Result<Vec<(E, Tier)>, ComposeError>)
    ensures
        outcome(r) == merged_entry::<E>(
            held.deep_view(),
            field@,
            side,
            entry.deep_view(),
            tier.deep_view(),
        ),
{
    let mut held = held;
    let at = find_key(&held, entry.key_text());
    if at == held.len() {
        push_to(&mut held, (entry.duplicate(), tier.duplicate()));
        return Ok(held);
    }
    assert(held.deep_view()[at as int] == held@[at as int].deep_view());
    match tier {
        Tier::Own => {
            put_at(&mut held, at, (entry.duplicate(), Tier::Own));
            Ok(held)
        },
        Tier::Explicit(second) => match &held[at].1 {
            Tier::Explicit(first) => Err(
                ComposeError::MapKeyCollision(
                    Box::new(
                        MapKeyCollision {
                            field,
                            side,
                            key: entry.key_text().to_owned(),
                            first_template: first.clone(),
                            second_template: second.clone(),
                            first: held[at].0.entry_span(),
                            second: entry.entry_span(),
                        },
                    ),
                ),
            ),
            Tier::Own => Ok(held),
        },
    }
}

fn merge_map<E: Keyed>(
    held: Vec<(E, Tier)>,
    field: &'static str,
    side: MapSide,
    incoming: &Vec<E>,
    tier: &Tier,
) -> (r: Result<Vec<(E, Tier)>, ComposeError>)
    ensures
        outcome(r) == merged_map::<E>(
            held.deep_view(),
            field@,
            side,
            incoming.deep_view(),
            0,
            tier.deep_view(),
        ),
{
    let mut out = held;
    let mut i: usize = 0;
    while i < incoming.len()
        invariant
            i <= incoming@.len(),
            merged_map::<E>(
                held.deep_view(),
                field@,
                side,
                incoming.deep_view(),
                0,
                tier.deep_view(),
            )
                == merged_map::<E>(
                out.deep_view(),
                field@,
                side,
                incoming.deep_view(),
                i as int,
                tier.deep_view(),
            ),
        decreases incoming@.len() - i,
    {
        assert(incoming.deep_view()[i as int] == incoming@[i as int].deep_view());
        out =
        match merge_entry(out, field, side, &incoming[i], tier) {
            Ok(after) => after,
            Err(error) => {
                return Err(error);
            },
        };
        i = i + 1;
    }
    Ok(out)
}

/// `depends_on` after one more entry: as any map field, except that two
/// templates that say the same of a service agree, and the first one's
/// entry stays as it was written.
pub open spec fn merged_dependency(
    held: Seq<(DependsOnEntryV, TierV)>,
    entry: DependsOnEntryV,
    tier: TierV,
) -> Result<Seq<(DependsOnEntryV, TierV)>, ComposeErrorV> {
    let at = key_index::<DependsOnEntry>(held, entry.reference.text(), 0);
    if at < held.len() && tier is Explicit && held[at].0.effective_condition()
        == entry.effective_condition() {
        Ok(held)
    } else {
        merged_entry::<DependsOnEntry>(held, "depends_on"@, MapSide::Key, entry, tier)
    }
}

/// `depends_on` after the entries of one more tier, from index `i` on.
pub open spec fn merged_dependencies(
    held: Seq<(DependsOnEntryV, TierV)>,
    incoming: Seq<DependsOnEntryV>,
    i: int,
    tier: TierV,
) -> Result<Seq<(DependsOnEntryV, TierV)>, ComposeErrorV>
    decreases incoming.len() - i,
{
    if i >= incoming.len() {
        Ok(held)
    } else {
        match merged_dependency(held, incoming[i], tier) {
            Ok(after) => merged_dependencies(after, incoming, i + 1, tier),
            Err(error) => Err(error),
        }
    }
}

fn merge_depends_on(
    held: Vec<(DependsOnEntry, Tier)>,
    incoming: &Vec<DependsOnEntry>,
    tier: &Tier,
) -> (r: Result<Vec<(DependsOnEntry, Tier)>, ComposeError>)
    ensures
        outcome(r) == merged_dependencies(
            held.deep_view(),
            incoming.deep_view(),
            0,
            tier.deep_view(),
        ),
{
    let mut out = held;
    let mut i: usize = 0;
    while i < incoming.len()
        invariant
            i <= incoming@.len(),
            merged_dependencies(held.deep_view(), incoming.deep_view(), 0, tier.deep_view())
                == merged_dependencies(
                out.deep_view(),
                incoming.deep_view(),
                i as int,
                tier.deep_view(),
            ),
        decreases incoming@.len() - i,
    {
        let entry = &incoming[i];
        assert(incoming.deep_view()[i as int] == entry.deep_view());
        let at = find_key(&out, entry.reference.text());
        let agrees = if at < out.len() {
            assert(out.deep_view()[at as int] == out@[at as int].deep_view());
            match tier {
                Tier::Explicit(_) => out[at].0.effective_condition()
                    == entry.effective_condition(),
                Tier::Own => false,
            }
        } else {
            false
        };
        if !agrees {
            out =
            match merge_entry(out, "depends_on", MapSide::Key, entry, tier) {
                Ok(after) => after,
                Err(error) => {
                    return Err(error);
                },
            };
        }
        i = i + 1;
    }
    Ok(out)
}

/// `labels` after one more entry. A list joins the list that is there,
/// item by distinct item; a single value follows the rules of any map
/// field, keeping the key as it was first written; a list and a single
/// value under one key disagree about what the key holds.
pub open spec fn merged_label(
    held: Seq<(LabelEntryV, TierV)>,
    entry: LabelEntryV,
    tier: TierV,
) -> Result<Seq<(LabelEntryV, TierV)>, ComposeErrorV> {
    let key = entry.key.text();
    let at = key_index::<LabelEntry>(held, key, 0);
    if at >= held.len() {
        Ok(held.push((entry, tier)))
    } else {
        let there = held[at].0;
        match (there.value, entry.value) {
            (LabelValueV::List(items, span), LabelValueV::List(more, _)) => Ok(
                held.update(
                    at,
                    (
                        LabelEntryV {
                            value: LabelValueV::List(with_distinct(items, more, 0), span),
                            ..there
                        },
                        held[at].1,
                    ),
                ),
            ),
            (LabelValueV::Scalar(_), LabelValueV::Scalar(_)) => match (held[at].1, tier) {
                (_, TierV::Own) => Ok(
                    held.update(
                        at,
                        (
                            LabelEntryV { value: entry.value, span: entry.span, ..there },
                            TierV::Own,
                        ),
                    ),
                ),
                (TierV::Explicit(first_template), TierV::Explicit(second_template)) => Err(
                    ComposeErrorV::MapKeyCollision(
                        MapKeyCollisionV {
                            field: "labels"@,
                            side: MapSide::Key,
                            key,
                            first_template,
                            second_template,
                            first: there.span,
                            second: entry.span,
                        },
                    ),
                ),
                (TierV::Own, TierV::Explicit(_)) => Ok(held),
            },
            _ => Err(
                ComposeErrorV::LabelShapeMismatch {
                    key,
                    first_shape: there.value.shape(),
                    second_shape: entry.value.shape(),
                    first: there.span,
                    second: entry.span,
                },
            ),
        }
    }
}

/// `labels` after the entries of one more tier, from index `i` on.
pub open spec fn merged_labels(
    held: Seq<(LabelEntryV, TierV)>,
    incoming: Seq<LabelEntryV>,
    i: int,
    tier: TierV,
) -> Result<Seq<(LabelEntryV, TierV)>, ComposeErrorV>
    decreases incoming.len() - i,
{
    if i >= incoming.len() {
        Ok(held)
    } else {
        match merged_label(held, incoming[i], tier) {
            Ok(after) => merged_labels(after, incoming, i + 1, tier),
            Err(error) => Err(error),
        }
    }
}

fn merge_label(held: Vec<(LabelEntry, Tier)>, entry: &LabelEntry, tier: &Tier) -> (r: Result<
    Vec<(LabelEntry, Tier)>,
    ComposeError,
>)
    ensures
        outcome(r) == merged_label(held.deep_view(), entry.deep_view(), tier.deep_view()),
{
    let mut held = held;
    let at = find_key(&held, entry.key.text());
    if at == held.len() {
        push_to(&mut held, (entry.duplicate(), tier.duplicate()));
        return Ok(held);
    }
    assert(held.deep_view()[at as int] == held@[at as int].deep_view());
    let there = &held[at].0;
    let new = match (&there.value, &entry.value) {
        (LabelValue::List(items, span), LabelValue::List(more, _)) => {
            let mut all = items.duplicate();
            add_distinct(&mut all, more);
            (
                LabelEntry {
                    key: there.key.duplicate(),
                    value: LabelValue::List(all, *span),
                    span: there.span,
                },
                held[at].1.duplicate(),
            )
        },
        (LabelValue::Scalar(_), LabelValue::Scalar(_)) => match (&held[at].1, tier) {
            (_, Tier::Own) => (
                LabelEntry {
                    key: there.key.duplicate(),
                    value: entry.value.duplicate(),
                    span: entry.span,
                },
                Tier::Own,
            ),
            (Tier::Explicit(first), Tier::Explicit(second)) => {
                return Err(
                    ComposeError::MapKeyCollision(
                        Box::new(
                            MapKeyCollision {
                                field: "labels",
                                side: MapSide::Key,
                                key: entry.key.text().to_owned(),
                                first_template: first.clone(),
                                second_template: second.clone(),
                                first: there.span,
                                second: entry.span,
                            },
                        ),
                    ),
                );
            },
            (Tier::Own, Tier::Explicit(_)) => {
                return Ok(held);
            },
        },
        _ => {
            return Err(
                ComposeError::LabelShapeMismatch {
                    key: entry.key.text().to_owned(),
                    first_shape: there.value.shape(),
                    second_shape: entry.value.shape(),
                    first: there.span,
                    second: entry.span,
                },
            );
        },
    };
    put_at(&mut held, at, new);
    Ok(held)
}

fn merge_labels(
    held: Vec<(LabelEntry, Tier)>,
    incoming: &Vec<LabelEntry>,
    tier: &Tier,
) -> (r: Result<Vec<(LabelEntry, Tier)>, ComposeError>)
    ensures
        outcome(r) == merged_labels(held.deep_view(), incoming.deep_view(), 0, tier.deep_view()),
{
    let mut out = held;
    let mut i: usize = 0;
    while i < incoming.len()
        invariant
            i <= incoming@.len(),
            merged_labels(
                held.deep_view(),
                incoming.deep_view(),
                0,
                tier.deep_view(),
            ) == merged_labels(
                out.deep_view(),
                incoming.deep_view(),
                i as int,
                tier.deep_view(),
            ),
        decreases incoming@.len() - i,
    {
        assert(incoming.deep_view()[i as int] == incoming@[i as int].deep_view());
        out =
        match merge_label(out, &incoming[i], tier) {
            Ok(after) => after,
            Err(error) => {
                return Err(error);
            },
        };
        i = i + 1;
    }
    Ok(out)
}

/// What the tiers merged so far have set, and which tier set it.
pub struct MergeAcc {
    pub image_ref: Option<(Literal, Tier)>,
    pub build_context: Option<(Literal, Tier)>,
    pub build_dockerfile: Option<(Literal, Tier)>,
    pub expose_port: Option<(Literal, Tier)>,
    pub restart_policy: Option<(Literal, Tier)>,
    pub container_name: Option<(Literal, Tier)>,
    pub interval: Option<(Literal, Tier)>,
    pub timeout: Option<(Literal, Tier)>,
    pub retries: Option<(Literal, Tier)>,
    pub start_period: Option<(Literal, Tier)>,
    pub start_interval: Option<(Literal, Tier)>,
    pub test: Option<(HealthcheckTest, Tier)>,
    pub disable: Option<(Span, Tier)>,
    pub command: Option<(Command, Tier)>,
    pub entrypoint: Option<(Entrypoint, Tier)>,
    pub privileged: Option<(Span, Tier)>,
    pub networks: Vec<Literal>,
    pub dns: Vec<Literal>,
    pub env_file: Vec<Literal>,
    pub volumes: Vec<(ArrowMapEntry, Tier)>,
    pub publish: Vec<(ArrowMapEntry, Tier)>,
    pub devices: Vec<(ArrowMapEntry, Tier)>,
    pub env: Vec<(EnvEntry, Tier)>,
    pub labels: Vec<(LabelEntry, Tier)>,
    pub depends_on: Vec<(DependsOnEntry, Tier)>,
    pub raw: Vec<(RawEntry, Tier)>,
}

/// The view of [`MergeAcc`].
#[verifier::ext_equal]
pub struct MergeAccV {
    pub image_ref: Option<(LiteralV, TierV)>,
    pub build_context: Option<(LiteralV, TierV)>,
    pub build_dockerfile: Option<(LiteralV, TierV)>,
    pub expose_port: Option<(LiteralV, TierV)>,
    pub restart_policy: Option<(LiteralV, TierV)>,
    pub container_name: Option<(LiteralV, TierV)>,
    pub interval: Option<(LiteralV, TierV)>,
    pub timeout: Option<(LiteralV, TierV)>,
    pub retries: Option<(LiteralV, TierV)>,
    pub start_period: Option<(LiteralV, TierV)>,
    pub start_interval: Option<(LiteralV, TierV)>,
    pub test: Option<(ShellOrExecV, TierV)>,
    pub disable: Option<(Span, TierV)>,
    pub command: Option<(ShellOrExecV, TierV)>,
    pub entrypoint: Option<(ShellOrExecV, TierV)>,
    pub privileged: Option<(Span, TierV)>,
    pub networks: Seq<LiteralV>,
    pub dns: Seq<LiteralV>,
    pub env_file: Seq<LiteralV>,
    pub volumes: Seq<(ArrowMapEntryV, TierV)>,
    pub publish: Seq<(ArrowMapEntryV, TierV)>,
    pub devices: Seq<(ArrowMapEntryV, TierV)>,
    pub env: Seq<(EnvEntryV, TierV)>,
    pub labels: Seq<(LabelEntryV, TierV)>,
    pub depends_on: Seq<(DependsOnEntryV, TierV)>,
    pub raw: Seq<(RawEntryV, TierV)>,
}

impl DeepView for MergeAcc {
    type V = MergeAccV;

    open spec fn deep_view(&self) -> MergeAccV {
        MergeAccV {
            image_ref: self.image_ref.deep_view(),
            build_context: self.build_context.deep_view(),
            build_dockerfile: self.build_dockerfile.deep_view(),
            expose_port: self.expose_port.deep_view(),
            restart_policy: self.restart_policy.deep_view(),
            container_name: self.container_name.deep_view(),
            interval: self.interval.deep_view(),
            timeout: self.timeout.deep_view(),
            retries: self.retries.deep_view(),
            start_period: self.start_period.deep_view(),
            start_interval: self.start_interval.deep_view(),
            test: self.test.deep_view(),
            disable: self.disable.deep_view(),
            command: self.command.deep_view(),
            entrypoint: self.entrypoint.deep_view(),
            privileged: self.privileged.deep_view(),
            networks: self.networks.deep_view(),
            dns: self.dns.deep_view(),
            env_file: self.env_file.deep_view(),
            volumes: self.volumes.deep_view(),
            publish: self.publish.deep_view(),
            devices: self.devices.deep_view(),
            env: self.env.deep_view(),
            labels: self.labels.deep_view(),
            depends_on: self.depends_on.deep_view(),
            raw: self.raw.deep_view(),
        }
    }
}

impl MergeAccV {
    /// Nothing set yet.
    pub open spec fn none() -> MergeAccV {
        MergeAccV {
            image_ref: None,
            build_context: None,
            build_dockerfile: None,
            expose_port: None,
            restart_policy: None,
            container_name: None,
            interval: None,
            timeout: None,
            retries: None,
            start_period: None,
            start_interval: None,
            test: None,
            disable: None,
            command: None,
            entrypoint: None,
            privileged: None,
            networks: Seq::empty(),
            dns: Seq::empty(),
            env_file: Seq::empty(),
            volumes: Seq::empty(),
            publish: Seq::empty(),
            devices: Seq::empty(),
            env: Seq::empty(),
            labels: Seq::empty(),
            depends_on: Seq::empty(),
            raw: Seq::empty(),
        }
    }
}

impl MergeAcc {
    pub(crate) fn new() -> (r: MergeAcc)
        ensures
            r.deep_view() == MergeAccV::none(),
    {
        MergeAcc {
            image_ref: None,
            build_context: None,
            build_dockerfile: None,
            expose_port: None,
            restart_policy: None,
            container_name: None,
            interval: None,
            timeout: None,
            retries: None,
            start_period: None,
            start_interval: None,
            test: None,
            disable: None,
            command: None,
            entrypoint: None,
            privileged: None,
            networks: no_items(),
            dns: no_items(),
            env_file: no_items(),
            volumes: no_items(),
            publish: no_items(),
            devices: no_items(),
            env: no_items(),
            labels: no_items(),
            depends_on: no_items(),
            raw: no_items(),
        }
    }
}

/// The `image.ref` a body sets, if it does.
pub open spec fn set_image_ref(fields: ServiceFieldsV) -> Option<LiteralV> {
    match fields.image {
        Some(inner) => inner.reference,
        None => None,
    }
}

/// The `build.context` a body sets, if it does.
pub open spec fn set_build_context(fields: ServiceFieldsV) -> Option<LiteralV> {
    match fields.build {
        Some(inner) => inner.context,
        None => None,
    }
}

/// The `build.dockerfile` a body sets, if it does.
pub open spec fn set_build_dockerfile(fields: ServiceFieldsV) -> Option<LiteralV> {
    match fields.build {
        Some(inner) => inner.dockerfile,
        None => None,
    }
}

/// The `expose.port` a body sets, if it does.
pub open spec fn set_expose_port(fields: ServiceFieldsV) -> Option<LiteralV> {
    match fields.expose {
        Some(inner) => inner.port,
        None => None,
    }
}

/// The `restart.policy` a body sets, if it does.
pub open spec fn set_restart_policy(fields: ServiceFieldsV) -> Option<LiteralV> {
    match fields.restart {
        Some(inner) => inner.policy,
        None => None,
    }
}

/// The `healthcheck.interval` a body sets, if it does.
pub open spec fn set_interval(fields: ServiceFieldsV) -> Option<LiteralV> {
    match fields.healthcheck {
        Some(inner) => inner.interval,
        None => None,
    }
}

/// The `healthcheck.timeout` a body sets, if it does.
pub open spec fn set_timeout(fields: ServiceFieldsV) -> Option<LiteralV> {
    match fields.healthcheck {
        Some(inner) => inner.timeout,
        None => None,
    }
}

/// The `healthcheck.retries` a body sets, if it does.
pub open spec fn set_retries(fields: ServiceFieldsV) -> Option<LiteralV> {
    match fields.healthcheck {
        Some(inner) => inner.retries,
        None => None,
    }
}

/// The `healthcheck.start_period` a body sets, if it does.
pub open spec fn set_start_period(fields: ServiceFieldsV) -> Option<LiteralV> {
    match fields.healthcheck {
        Some(inner) => inner.start_period,
        None => None,
    }
}

/// The `healthcheck.start_interval` a body sets, if it does.
pub open spec fn set_start_interval(fields: ServiceFieldsV) -> Option<LiteralV> {
    match fields.healthcheck {
        Some(inner) => inner.start_interval,
        None => None,
    }
}

/// The `healthcheck.test` a body sets, if it does.
pub open spec fn set_test(fields: ServiceFieldsV) -> Option<ShellOrExecV> {
    match fields.healthcheck {
        Some(inner) => inner.test,
        None => None,
    }
}

/// The `healthcheck.disable` a body sets, if it does.
pub open spec fn set_disable(fields: ServiceFieldsV) -> Option<Span> {
    match fields.healthcheck {
        Some(inner) => inner.disable,
        None => None,
    }
}

/// One more tier's single values: what is run and how it is restarted.
pub open spec fn merged_basics(acc: MergeAccV, incoming: ServiceFieldsV, tier: TierV) -> Result<
    MergeAccV,
    ComposeErrorV,
> {
    match merged_scalar::<Literal>(acc.image_ref, "image.ref"@, set_image_ref(incoming), tier) {
        Err(error) => Err(error),
        Ok(image_ref) => match merged_scalar::<Literal>(
            acc.build_context,
            "build.context"@,
            set_build_context(incoming),
            tier,
        ) {
            Err(error) => Err(error),
            Ok(build_context) => match merged_scalar::<Literal>(
                acc.build_dockerfile,
                "build.dockerfile"@,
                set_build_dockerfile(incoming),
                tier,
            ) {
                Err(error) => Err(error),
                Ok(build_dockerfile) => match merged_scalar::<Literal>(
                    acc.expose_port,
                    "expose.port"@,
                    set_expose_port(incoming),
                    tier,
                ) {
                    Err(error) => Err(error),
                    Ok(expose_port) => match merged_scalar::<Literal>(
                        acc.restart_policy,
                        "restart.policy"@,
                        set_restart_policy(incoming),
                        tier,
                    ) {
                        Err(error) => Err(error),
                        Ok(restart_policy) => match merged_scalar::<Literal>(
                            acc.container_name,
                            "container_name"@,
                            incoming.container_name,
                            tier,
                        ) {
                            Err(error) => Err(error),
                            Ok(container_name) => Ok(
                                MergeAccV {
                                    image_ref,
                                    build_context,
                                    build_dockerfile,
                                    expose_port,
                                    restart_policy,
                                    container_name,
                                    ..acc
                                },
                            ),
                        },
                    },
                },
            },
        },
    }
}

/// One more tier's single values: when a health check runs.
pub open spec fn merged_timing(acc: MergeAccV, incoming: ServiceFieldsV, tier: TierV) -> Result<
    MergeAccV,
    ComposeErrorV,
> {
    match merged_scalar::<Literal>(
        acc.interval,
        "healthcheck.interval"@,
        set_interval(incoming),
        tier,
    ) {
        Err(error) => Err(error),
        Ok(interval) => match merged_scalar::<Literal>(
            acc.timeout,
            "healthcheck.timeout"@,
            set_timeout(incoming),
            tier,
        ) {
            Err(error) => Err(error),
            Ok(timeout) => match merged_scalar::<Literal>(
                acc.retries,
                "healthcheck.retries"@,
                set_retries(incoming),
                tier,
            ) {
                Err(error) => Err(error),
                Ok(retries) => Ok(MergeAccV { interval, timeout, retries, ..acc }),
            },
        },
    }
}

/// One more tier's single values: how long a health check waits at the start.
pub open spec fn merged_starting(acc: MergeAccV, incoming: ServiceFieldsV, tier: TierV) -> Result<
    MergeAccV,
    ComposeErrorV,
> {
    match merged_scalar::<Literal>(
        acc.start_period,
        "healthcheck.start_period"@,
        set_start_period(incoming),
        tier,
    ) {
        Err(error) => Err(error),
        Ok(start_period) => match merged_scalar::<Literal>(
            acc.start_interval,
            "healthcheck.start_interval"@,
            set_start_interval(incoming),
            tier,
        ) {
            Err(error) => Err(error),
            Ok(start_interval) => Ok(MergeAccV { start_period, start_interval, ..acc }),
        },
    }
}

/// One more tier's single values: what a health check runs, and whether it does.
pub open spec fn merged_probe(acc: MergeAccV, incoming: ServiceFieldsV, tier: TierV) -> Result<
    MergeAccV,
    ComposeErrorV,
> {
    match merged_scalar::<HealthcheckTest>(
        acc.test,
        "healthcheck.test"@,
        set_test(incoming),
        tier,
    ) {
        Err(error) => Err(error),
        Ok(test) => match merged_scalar::<Span>(
            acc.disable,
            "healthcheck.disable"@,
            set_disable(incoming),
            tier,
        ) {
            Err(error) => Err(error),
            Ok(disable) => Ok(MergeAccV { test, disable, ..acc }),
        },
    }
}

/// One more tier's single values: the commands and flags.
pub open spec fn merged_commands(acc: MergeAccV, incoming: ServiceFieldsV, tier: TierV) -> Result<
    MergeAccV,
    ComposeErrorV,
> {
    match merged_scalar::<Command>(acc.command, "command"@, incoming.command, tier) {
        Err(error) => Err(error),
        Ok(command) => match merged_scalar::<Entrypoint>(
            acc.entrypoint,
            "entrypoint"@,
            incoming.entrypoint,
            tier,
        ) {
            Err(error) => Err(error),
            Ok(entrypoint) => match merged_scalar::<Span>(
                acc.privileged,
                "privileged"@,
                incoming.privileged,
                tier,
            ) {
                Err(error) => Err(error),
                Ok(privileged) => Ok(MergeAccV { command, entrypoint, privileged, ..acc }),
            },
        },
    }
}

/// The single-value fields after one more tier, in the order their
/// collisions are reported.
pub open spec fn merged_scalars(acc: MergeAccV, incoming: ServiceFieldsV, tier: TierV) -> Result<
    MergeAccV,
    ComposeErrorV,
> {
    match merged_basics(acc, incoming, tier) {
        Err(error) => Err(error),
        Ok(basics) => match merged_timing(basics, incoming, tier) {
            Err(error) => Err(error),
            Ok(timing) => match merged_starting(timing, incoming, tier) {
                Err(error) => Err(error),
                Ok(starting) => match merged_probe(starting, incoming, tier) {
                    Err(error) => Err(error),
                    Ok(probe) => merged_commands(probe, incoming, tier),
                },
            },
        },
    }
}

/// The map fields after one more tier, in the order their collisions are
/// reported.
pub open spec fn merged_maps(acc: MergeAccV, incoming: ServiceFieldsV, tier: TierV) -> Result<
    MergeAccV,
    ComposeErrorV,
> {
    match merged_map::<ArrowMapEntry>(
        acc.volumes,
        "volume"@,
        MapSide::Value,
        incoming.volumes.entries,
        0,
        tier,
    ) {
        Err(error) => Err(error),
        Ok(volumes) => match merged_map::<ArrowMapEntry>(
            acc.publish,
            "publish"@,
            MapSide::Value,
            incoming.publish.entries,
            0,
            tier,
        ) {
            Err(error) => Err(error),
            Ok(publish) => match merged_map::<ArrowMapEntry>(
                acc.devices,
                "devices"@,
                MapSide::Value,
                incoming.devices.entries,
                0,
                tier,
            ) {
                Err(error) => Err(error),
                Ok(devices) => match merged_map::<EnvEntry>(
                    acc.env,
                    "env"@,
                    MapSide::Key,
                    incoming.env.entries,
                    0,
                    tier,
                ) {
                    Err(error) => Err(error),
                    Ok(env) => match merged_labels(acc.labels, incoming.labels.entries, 0, tier) {
                        Err(error) => Err(error),
                        Ok(labels) => match merged_dependencies(
                            acc.depends_on,
                            incoming.depends_on,
                            0,
                            tier,
                        ) {
                            Err(error) => Err(error),
                            Ok(depends_on) => match merged_map::<RawEntry>(
                                acc.raw,
                                "raw"@,
                                MapSide::Key,
                                incoming.raw.entries,
                                0,
                                tier,
                            ) {
                                Err(error) => Err(error),
                                Ok(raw) => Ok(
                                    MergeAccV {
                                        volumes,
                                        publish,
                                        devices,
                                        env,
                                        labels,
                                        depends_on,
                                        raw,
                                        ..acc
                                    },
                                ),
                            },
                        },
                    },
                },
            },
        },
    }
}

/// What has been set after one more tier: single values and map entries
/// by the rules of their tiers, `networks` by distinct name, `dns` and
/// `env_file` one behind the other.
pub open spec fn merged_tier(acc: MergeAccV, incoming: ServiceFieldsV, tier: TierV) -> Result<
    MergeAccV,
    ComposeErrorV,
> {
    match merged_scalars(acc, incoming, tier) {
        Err(error) => Err(error),
        Ok(scalars) => merged_maps(
            MergeAccV {
                networks: with_distinct(acc.networks, incoming.networks, 0),
                dns: acc.dns + incoming.dns,
                env_file: acc.env_file + incoming.env_file,
                ..scalars
            },
            incoming,
            tier,
        ),
    }
}

fn merge_basics(acc: MergeAcc, incoming: &ServiceFields, tier: &Tier) -> (r: Result<
    MergeAcc,
    ComposeError,
>)
    ensures
        outcome(r) == merged_basics(acc.deep_view(), incoming.deep_view(), tier.deep_view()),
{
    let image_ref_set = match &incoming.image {
        Some(inner) => inner.reference.as_ref(),
        None => None,
    };
    let image_ref = match merge_scalar(acc.image_ref, "image.ref", image_ref_set, tier) {
        Ok(held) => held,
        Err(error) => {
            return Err(error);
        },
    };
    let build_context_set = match &incoming.build {
        Some(inner) => inner.context.as_ref(),
        None => None,
    };
    let build_context = match merge_scalar(
        acc.build_context,
        "build.context",
        build_context_set,
        tier,
    ) {
        Ok(held) => held,
        Err(error) => {
            return Err(error);
        },
    };
    let build_dockerfile_set = match &incoming.build {
        Some(inner) => inner.dockerfile.as_ref(),
        None => None,
    };
    let build_dockerfile = match merge_scalar(
        acc.build_dockerfile,
        "build.dockerfile",
        build_dockerfile_set,
        tier,
    ) {
        Ok(held) => held,
        Err(error) => {
            return Err(error);
        },
    };
    let expose_port_set = match &incoming.expose {
        Some(inner) => inner.port.as_ref(),
        None => None,
    };
    let expose_port = match merge_scalar(acc.expose_port, "expose.port", expose_port_set, tier) {
        Ok(held) => held,
        Err(error) => {
            return Err(error);
        },
    };
    let restart_policy_set = match &incoming.restart {
        Some(inner) => inner.policy.as_ref(),
        None => None,
    };
    let restart_policy = match merge_scalar(
        acc.restart_policy,
        "restart.policy",
        restart_policy_set,
        tier,
    ) {
        Ok(held) => held,
        Err(error) => {
            return Err(error);
        },
    };
    let container_name = match merge_scalar(
        acc.container_name,
        "container_name",
        incoming.container_name.as_ref(),
        tier,
    ) {
        Ok(held) => held,
        Err(error) => {
            return Err(error);
        },
    };
    Ok(
        MergeAcc {
            image_ref,
            build_context,
            build_dockerfile,
            expose_port,
            restart_policy,
            container_name,
            interval: acc.interval,
            timeout: acc.timeout,
            retries: acc.retries,
            start_period: acc.start_period,
            start_interval: acc.start_interval,
            test: acc.test,
            disable: acc.disable,
            command: acc.command,
            entrypoint: acc.entrypoint,
            privileged: acc.privileged,
            networks: acc.networks,
            dns: acc.dns,
            env_file: acc.env_file,
            volumes: acc.volumes,
            publish: acc.publish,
            devices: acc.devices,
            env: acc.env,
            labels: acc.labels,
            depends_on: acc.depends_on,
            raw: acc.raw,
        },
    )
}

fn merge_timing(acc: MergeAcc, incoming: &ServiceFields, tier: &Tier) -> (r: Result<
    MergeAcc,
    ComposeError,
>)
    ensures
        outcome(r) == merged_timing(acc.deep_view(), incoming.deep_view(), tier.deep_view()),
{
    let interval_set = match &incoming.healthcheck {
        Some(inner) => inner.interval.as_ref(),
        None => None,
    };
    let interval = match merge_scalar(acc.interval, "healthcheck.interval", interval_set, tier) {
        Ok(held) => held,
        Err(error) => {
            return Err(error);
        },
    };
    let timeout_set = match &incoming.healthcheck {
        Some(inner) => inner.timeout.as_ref(),
        None => None,
    };
    let timeout = match merge_scalar(acc.timeout, "healthcheck.timeout", timeout_set, tier) {
        Ok(held) => held,
        Err(error) => {
            return Err(error);
        },
    };
    let retries_set = match &incoming.healthcheck {
        Some(inner) => inner.retries.as_ref(),
        None => None,
    };
    let retries = match merge_scalar(acc.retries, "healthcheck.retries", retries_set, tier) {
        Ok(held) => held,
        Err(error) => {
            return Err(error);
        },
    };
    Ok(
        MergeAcc {
            interval,
            timeout,
            retries,
            image_ref: acc.image_ref,
            build_context: acc.build_context,
            build_dockerfile: acc.build_dockerfile,
            expose_port: acc.expose_port,
            restart_policy: acc.restart_policy,
            container_name: acc.container_name,
            start_period: acc.start_period,
            start_interval: acc.start_interval,
            test: acc.test,
            disable: acc.disable,
            command: acc.command,
            entrypoint: acc.entrypoint,
            privileged: acc.privileged,
            networks: acc.networks,
            dns: acc.dns,
            env_file: acc.env_file,
            volumes: acc.volumes,
            publish: acc.publish,
            devices: acc.devices,
            env: acc.env,
            labels: acc.labels,
            depends_on: acc.depends_on,
            raw: acc.raw,
        },
    )
}

fn merge_starting(acc: MergeAcc, incoming: &ServiceFields, tier: &Tier) -> (r: Result<
    MergeAcc,
    ComposeError,
>)
    ensures
        outcome(r) == merged_starting(acc.deep_view(), incoming.deep_view(), tier.deep_view()),
{
    let start_period_set = match &incoming.healthcheck {
        Some(inner) => inner.start_period.as_ref(),
        None => None,
    };
    let start_period = match merge_scalar(
        acc.start_period,
        "healthcheck.start_period",
        start_period_set,
        tier,
    ) {
        Ok(held) => held,
        Err(error) => {
            return Err(error);
        },
    };
    let start_interval_set = match &incoming.healthcheck {
        Some(inner) => inner.start_interval.as_ref(),
        None => None,
    };
    let start_interval = match merge_scalar(
        acc.start_interval,
        "healthcheck.start_interval",
        start_interval_set,
        tier,
    ) {
        Ok(held) => held,
        Err(error) => {
            return Err(error);
        },
    };
    Ok(
        MergeAcc {
            start_period,
            start_interval,
            image_ref: acc.image_ref,
            build_context: acc.build_context,
            build_dockerfile: acc.build_dockerfile,
            expose_port: acc.expose_port,
            restart_policy: acc.restart_policy,
            container_name: acc.container_name,
            interval: acc.interval,
            timeout: acc.timeout,
            retries: acc.retries,
            test: acc.test,
            disable: acc.disable,
            command: acc.command,
            entrypoint: acc.entrypoint,
            privileged: acc.privileged,
            networks: acc.networks,
            dns: acc.dns,
            env_file: acc.env_file,
            volumes: acc.volumes,
            publish: acc.publish,
            devices: acc.devices,
            env: acc.env,
            labels: acc.labels,
            depends_on: acc.depends_on,
            raw: acc.raw,
        },
    )
}

fn merge_probe(acc: MergeAcc, incoming: &ServiceFields, tier: &Tier) -> (r: Result<
    MergeAcc,
    ComposeError,
>)
    ensures
        outcome(r) == merged_probe(acc.deep_view(), incoming.deep_view(), tier.deep_view()),
{
    let test_set = match &incoming.healthcheck {
        Some(inner) => inner.test.as_ref(),
        None => None,
    };
    let test = match merge_scalar(acc.test, "healthcheck.test", test_set, tier) {
        Ok(held) => held,
        Err(error) => {
            return Err(error);
        },
    };
    let disable_set = match &incoming.healthcheck {
        Some(inner) => inner.disable.as_ref(),
        None => None,
    };
    let disable = match merge_scalar(acc.disable, "healthcheck.disable", disable_set, tier) {
        Ok(held) => held,
        Err(error) => {
            return Err(error);
        },
    };
    Ok(
        MergeAcc {
            test,
            disable,
            image_ref: acc.image_ref,
            build_context: acc.build_context,
            build_dockerfile: acc.build_dockerfile,
            expose_port: acc.expose_port,
            restart_policy: acc.restart_policy,
            container_name: acc.container_name,
            interval: acc.interval,
            timeout: acc.timeout,
            retries: acc.retries,
            start_period: acc.start_period,
            start_interval: acc.start_interval,
            command: acc.command,
            entrypoint: acc.entrypoint,
            privileged: acc.privileged,
            networks: acc.networks,
            dns: acc.dns,
            env_file: acc.env_file,
            volumes: acc.volumes,
            publish: acc.publish,
            devices: acc.devices,
            env: acc.env,
            labels: acc.labels,
            depends_on: acc.depends_on,
            raw: acc.raw,
        },
    )
}

fn merge_commands(acc: MergeAcc, incoming: &ServiceFields, tier: &Tier) -> (r: Result<
    MergeAcc,
    ComposeError,
>)
    ensures
        outcome(r) == merged_commands(acc.deep_view(), incoming.deep_view(), tier.deep_view()),
{
    let command = match merge_scalar(acc.command, "command", incoming.command.as_ref(), tier) {
        Ok(held) => held,
        Err(error) => {
            return Err(error);
        },
    };
    let entrypoint = match merge_scalar(
        acc.entrypoint,
        "entrypoint",
        incoming.entrypoint.as_ref(),
        tier,
    ) {
        Ok(held) => held,
        Err(error) => {
            return Err(error);
        },
    };
    let privileged = match merge_scalar(
        acc.privileged,
        "privileged",
        incoming.privileged.as_ref(),
        tier,
    ) {
        Ok(held) => held,
        Err(error) => {
            return Err(error);
        },
    };
    Ok(
        MergeAcc {
            command,
            entrypoint,
            privileged,
            image_ref: acc.image_ref,
            build_context: acc.build_context,
            build_dockerfile: acc.build_dockerfile,
            expose_port: acc.expose_port,
            restart_policy: acc.restart_policy,
            container_name: acc.container_name,
            interval: acc.interval,
            timeout: acc.timeout,
            retries: acc.retries,
            start_period: acc.start_period,
            start_interval: acc.start_interval,
            test: acc.test,
            disable: acc.disable,
            networks: acc.networks,
            dns: acc.dns,
            env_file: acc.env_file,
            volumes: acc.volumes,
            publish: acc.publish,
            devices: acc.devices,
            env: acc.env,
            labels: acc.labels,
            depends_on: acc.depends_on,
            raw: acc.raw,
        },
    )
}

fn merge_scalars(acc: MergeAcc, incoming: &ServiceFields, tier: &Tier) -> (r: Result<
    MergeAcc,
    ComposeError,
>)
    ensures
        outcome(r) == merged_scalars(acc.deep_view(), incoming.deep_view(), tier.deep_view()),
{
    let basics = match merge_basics(acc, incoming, tier) {
        Ok(acc) => acc,
        Err(error) => {
            return Err(error);
        },
    };
    let timing = match merge_timing(basics, incoming, tier) {
        Ok(acc) => acc,
        Err(error) => {
            return Err(error);
        },
    };
    let starting = match merge_starting(timing, incoming, tier) {
        Ok(acc) => acc,
        Err(error) => {
            return Err(error);
        },
    };
    let probe = match merge_probe(starting, incoming, tier) {
        Ok(acc) => acc,
        Err(error) => {
            return Err(error);
        },
    };
    merge_commands(probe, incoming, tier)
}

#[verifier::rlimit(100)]
#[verifier::spinoff_prover]
fn merge_maps(acc: MergeAcc, incoming: &ServiceFields, tier: &Tier) -> (r: Result<
    MergeAcc,
    ComposeError,
>)
    ensures
        outcome(r) == merged_maps(acc.deep_view(), incoming.deep_view(), tier.deep_view()),
{
    let volumes = match merge_map(
        acc.volumes,
        "volume",
        MapSide::Value,
        &incoming.volumes.entries,
        tier,
    ) {
        Ok(held) => held,
        Err(error) => {
            return Err(error);
        },
    };
    let publish = match merge_map(
        acc.publish,
        "publish",
        MapSide::Value,
        &incoming.publish.entries,
        tier,
    ) {
        Ok(held) => held,
        Err(error) => {
            return Err(error);
        },
    };
    let devices = match merge_map(
        acc.devices,
        "devices",
        MapSide::Value,
        &incoming.devices.entries,
        tier,
    ) {
        Ok(held) => held,
        Err(error) => {
            return Err(error);
        },
    };
    let env = match merge_map(acc.env, "env", MapSide::Key, &incoming.env.entries, tier) {
        Ok(held) => held,
        Err(error) => {
            return Err(error);
        },
    };
    let labels = match merge_labels(acc.labels, &incoming.labels.entries, tier) {
        Ok(held) => held,
        Err(error) => {
            return Err(error);
        },
    };
    let depends_on = match merge_depends_on(acc.depends_on, &incoming.depends_on, tier) {
        Ok(held) => held,
        Err(error) => {
            return Err(error);
        },
    };
    let raw = match merge_map(acc.raw, "raw", MapSide::Key, &incoming.raw.entries, tier) {
        Ok(held) => held,
        Err(error) => {
            return Err(error);
        },
    };
    Ok(
        MergeAcc {
            image_ref: acc.image_ref,
            build_context: acc.build_context,
            build_dockerfile: acc.build_dockerfile,
            expose_port: acc.expose_port,
            restart_policy: acc.restart_policy,
            container_name: acc.container_name,
            interval: acc.interval,
            timeout: acc.timeout,
            retries: acc.retries,
            start_period: acc.start_period,
            start_interval: acc.start_interval,
            test: acc.test,
            disable: acc.disable,
            command: acc.command,
            entrypoint: acc.entrypoint,
            privileged: acc.privileged,
            networks: acc.networks,
            dns: acc.dns,
            env_file: acc.env_file,
            volumes,
            publish,
            devices,
            env,
            labels,
            depends_on,
            raw,
        },
    )
}

pub(crate) fn merge_tier(acc: MergeAcc, incoming: &ServiceFields, tier: &Tier) -> (r: Result<
    MergeAcc,
    ComposeError,
>)
    ensures
        outcome(r) == merged_tier(acc.deep_view(), incoming.deep_view(), tier.deep_view()),
{
    let mut scalars = match merge_scalars(acc, incoming, tier) {
        Ok(scalars) => scalars,
        Err(error) => {
            return Err(error);
        },
    };
    add_distinct(&mut scalars.networks, &incoming.networks);
    add_all(&mut scalars.dns, &incoming.dns);
    add_all(&mut scalars.env_file, &incoming.env_file);
    merge_maps(scalars, incoming, tier)
}

/// The value a field was left with, whichever tier set it.
pub open spec fn final_value<T>(held: Option<(T, TierV)>) -> Option<T> {
    match held {
        Some((value, _)) => Some(value),
        None => None,
    }
}

/// The values map entries were left with, whichever tier set them.
pub open spec fn final_values<T>(held: Seq<(T, TierV)>) -> Seq<T> {
    held.map_values(|entry: (T, TierV)| entry.0)
}

fn take_value<T: DeepView>(held: Option<(T, Tier)>) -> (r: Option<T>)
    ensures
        r.deep_view() == final_value(held.deep_view()),
{
    match held {
        Some((value, _)) => Some(value),
        None => None,
    }
}

fn take_values<T: Duplicate>(held: &Vec<(T, Tier)>) -> (r: Vec<T>)
    ensures
        r.deep_view() == final_values(held.deep_view()),
{
    let mut out: Vec<T> = no_items();
    let mut i: usize = 0;
    while i < held.len()
        invariant
            i <= held@.len(),
            out.deep_view() == final_values(held.deep_view()).take(i as int),
        decreases held@.len() - i,
    {
        push_to(&mut out, held[i].0.duplicate());
        assert(out.deep_view() =~= final_values(held.deep_view()).take(i + 1));
        i = i + 1;
    }
    assert(out.deep_view() =~= final_values(held.deep_view()));
    out
}

/// Where a value that may be absent stands.
pub open spec fn place_of<T: Placed>(value: Option<T::V>) -> Option<Span> {
    match value {
        Some(v) => Some(T::place(v)),
        None => None,
    }
}

/// The first of two places that may be absent.
pub open spec fn first_place(first: Option<Span>, second: Option<Span>) -> Option<Span> {
    match first {
        Some(_) => first,
        None => second,
    }
}

fn either_place(first: Option<Span>, second: Option<Span>) -> (r: Option<Span>)
    ensures
        r == first_place(first, second),
{
    match first {
        Some(_) => first,
        None => second,
    }
}

fn place<T: Placed>(value: &Option<T>) -> (r: Option<Span>)
    ensures
        r == place_of::<T>(value.deep_view()),
{
    match value {
        Some(v) => Some(v.placed()),
        None => None,
    }
}

impl MergeAccV {
    /// The health check that was merged, if any part of one was set: it
    /// stands where the first part that is set stands.
    pub open spec fn healthcheck(self) -> Option<HealthcheckV> {
        let interval = final_value(self.interval);
        let timeout = final_value(self.timeout);
        let retries = final_value(self.retries);
        let start_period = final_value(self.start_period);
        let start_interval = final_value(self.start_interval);
        let test = final_value(self.test);
        let disable = final_value(self.disable);
        match first_place(
            place_of::<Literal>(interval),
            first_place(
            place_of::<Literal>(timeout),
            first_place(
            place_of::<Literal>(retries),
            first_place(
            place_of::<Literal>(start_period),
            first_place(
            place_of::<Literal>(start_interval),
            first_place(
            place_of::<HealthcheckTest>(test),
            place_of::<Span>(disable),
        ),
        ),
        ),
        ),
        ),
        ) {
            Some(span) => Some(
                HealthcheckV {
                    interval,
                    timeout,
                    retries,
                    start_period,
                    start_interval,
                    test,
                    disable,
                    span,
                },
            ),
            None => None,
        }
    }

    /// The build context that was merged, if any part of one was set.
    pub open spec fn build(self) -> Option<BuildV> {
        let context = final_value(self.build_context);
        let dockerfile = final_value(self.build_dockerfile);
        match first_place(place_of::<Literal>(context), place_of::<Literal>(dockerfile)) {
            Some(span) => Some(BuildV { context, dockerfile, span }),
            None => None,
        }
    }

    /// The fields the merged tiers add up to. A field made of one value
    /// stands where that value stands.
    pub open spec fn fields(self) -> ServiceFieldsV {
        ServiceFieldsV {
            image: match final_value(self.image_ref) {
                Some(lit) => Some(ImageV { reference: Some(lit), span: lit.span() }),
                None => None,
            },
            build: self.build(),
            expose: match final_value(self.expose_port) {
                Some(lit) => Some(ExposeV { port: Some(lit), span: lit.span() }),
                None => None,
            },
            restart: match final_value(self.restart_policy) {
                Some(lit) => Some(RestartV { policy: Some(lit), span: lit.span() }),
                None => None,
            },
            healthcheck: self.healthcheck(),
            publish: ArrowMapV { entries: final_values(self.publish) },
            volumes: ArrowMapV { entries: final_values(self.volumes) },
            env: EnvMapV { entries: final_values(self.env) },
            labels: LabelMapV { entries: final_values(self.labels) },
            raw: RawMapV { entries: final_values(self.raw) },
            depends_on: final_values(self.depends_on),
            networks: self.networks,
            dns: self.dns,
            env_file: self.env_file,
            privileged: final_value(self.privileged),
            devices: ArrowMapV { entries: final_values(self.devices) },
            container_name: final_value(self.container_name),
            command: final_value(self.command),
            entrypoint: final_value(self.entrypoint),
            with: Seq::empty(),
        }
    }
}

impl MergeAcc {
    fn into_healthcheck(
        interval: Option<Literal>,
        timeout: Option<Literal>,
        retries: Option<Literal>,
        start_period: Option<Literal>,
        start_interval: Option<Literal>,
        test: Option<HealthcheckTest>,
        disable: Option<Span>,
    ) -> (r: Option<Healthcheck>)
        ensures
            r.deep_view() == (match first_place(
            place_of::<Literal>(interval.deep_view()),
            first_place(
            place_of::<Literal>(timeout.deep_view()),
            first_place(
            place_of::<Literal>(retries.deep_view()),
            first_place(
            place_of::<Literal>(start_period.deep_view()),
            first_place(
            place_of::<Literal>(start_interval.deep_view()),
            first_place(
            place_of::<HealthcheckTest>(test.deep_view()),
            place_of::<Span>(disable.deep_view()),
        ),
        ),
        ),
        ),
        ),
        ) {
                Some(span) => Some(
                    HealthcheckV {
                        interval: interval.deep_view(),
                        timeout: timeout.deep_view(),
                        retries: retries.deep_view(),
                        start_period: start_period.deep_view(),
                        start_interval: start_interval.deep_view(),
                        test: test.deep_view(),
                        disable: disable.deep_view(),
                        span,
                    },
                ),
                None => None,
            }),
    {
        match either_place(
            place(&interval),
            either_place(
                place(&timeout),
                either_place(
                    place(&retries),
                    either_place(
                        place(&start_period),
                        either_place(
                            place(&start_interval),
                            either_place(place(&test), place(&disable)),
                        ),
                    ),
                ),
            ),
        ) {
            Some(span) => Some(
                Healthcheck {
                    interval,
                    timeout,
                    retries,
                    start_period,
                    start_interval,
                    test,
                    disable,
                    span,
                },
            ),
            None => None,
        }
    }

    pub(crate) fn into_service_fields(self) -> (r: ServiceFields)
        ensures
            r.deep_view() == self.deep_view().fields(),
    {
        let context = take_value(self.build_context);
        let dockerfile = take_value(self.build_dockerfile);
        let build = match either_place(place(&context), place(&dockerfile)) {
            Some(span) => Some(Build { context, dockerfile, span }),
            None => None,
        };
        let healthcheck = MergeAcc::into_healthcheck(
            take_value(self.interval),
            take_value(self.timeout),
            take_value(self.retries),
            take_value(self.start_period),
            take_value(self.start_interval),
            take_value(self.test),
            take_value(self.disable),
        );
        ServiceFields {
            image: match take_value(self.image_ref) {
                Some(lit) => {
                    let span = lit.span();
                    Some(Image { reference: Some(lit), span })
                },
                None => None,
            },
            build,
            expose: match take_value(self.expose_port) {
                Some(lit) => {
                    let span = lit.span();
                    Some(Expose { port: Some(lit), span })
                },
                None => None,
            },
            restart: match take_value(self.restart_policy) {
                Some(lit) => {
                    let span = lit.span();
                    Some(Restart { policy: Some(lit), span })
                },
                None => None,
            },
            healthcheck,
            publish: ArrowMap { entries: take_values(&self.publish) },
            volumes: ArrowMap { entries: take_values(&self.volumes) },
            env: EnvMap { entries: take_values(&self.env) },
            labels: LabelMap { entries: take_values(&self.labels) },
            raw: RawMap { entries: take_values(&self.raw) },
            depends_on: take_values(&self.depends_on),
            networks: self.networks,
            dns: self.dns,
            env_file: self.env_file,
            privileged: take_value(self.privileged),
            devices: ArrowMap { entries: take_values(&self.devices) },
            container_name: take_value(self.container_name),
            command: take_value(self.command),
            entrypoint: take_value(self.entrypoint),
            with: no_items(),
        }
    }
}

/// Whether every parameter a merged value refers to is one of `names`.
pub open spec fn held_within<T: Slots>(held: Option<(T::V, TierV)>, names: Set<Seq<char>>) -> bool {
    Option::<T>::within(final_value(held), names)
}

/// Whether every parameter the merged entries refer to is one of `names`.
pub open spec fn entries_within<T: Slots>(
    held: Seq<(T::V, TierV)>,
    names: Set<Seq<char>>,
) -> bool {
    forall|k: int| 0 <= k < held.len() ==> T::within((#[trigger] held[k]).0, names)
}

impl MergeAccV {
    /// Whether every parameter that what has been set refers to is one of
    /// `names`.
    pub open spec fn within(self, names: Set<Seq<char>>) -> bool {
        &&& held_within::<Literal>(self.image_ref, names)
        &&& held_within::<Literal>(self.build_context, names)
        &&& held_within::<Literal>(self.build_dockerfile, names)
        &&& held_within::<Literal>(self.expose_port, names)
        &&& held_within::<Literal>(self.restart_policy, names)
        &&& held_within::<Literal>(self.container_name, names)
        &&& held_within::<Literal>(self.interval, names)
        &&& held_within::<Literal>(self.timeout, names)
        &&& held_within::<Literal>(self.retries, names)
        &&& held_within::<Literal>(self.start_period, names)
        &&& held_within::<Literal>(self.start_interval, names)
        &&& held_within::<HealthcheckTest>(self.test, names)
        &&& held_within::<Command>(self.command, names)
        &&& held_within::<Entrypoint>(self.entrypoint, names)
        &&& Vec::<Literal>::within(self.networks, names)
        &&& Vec::<Literal>::within(self.dns, names)
        &&& Vec::<Literal>::within(self.env_file, names)
        &&& entries_within::<ArrowMapEntry>(self.volumes, names)
        &&& entries_within::<ArrowMapEntry>(self.publish, names)
        &&& entries_within::<ArrowMapEntry>(self.devices, names)
        &&& entries_within::<EnvEntry>(self.env, names)
        &&& entries_within::<LabelEntry>(self.labels, names)
        &&& entries_within::<DependsOnEntry>(self.depends_on, names)
        &&& entries_within::<RawEntry>(self.raw, names)
    }
}

proof fn lemma_merged_map_within<E: Keyed + Slots>(
    held: Seq<(E::V, TierV)>,
    field: Seq<char>,
    side: MapSide,
    incoming: Seq<E::V>,
    i: int,
    tier: TierV,
    names: Set<Seq<char>>,
)
    requires
        0 <= i,
        entries_within::<E>(held, names),
        Vec::<E>::within(incoming, names),
    ensures
        merged_map::<E>(held, field, side, incoming, i, tier) matches Ok(after)
            ==> entries_within::<E>(after, names),
    decreases incoming.len() - i,
{
    if i < incoming.len() {
        assert(E::within(incoming[i], names));
        lemma_key_index_bound::<E>(held, E::key_of(incoming[i]), 0);
        if let Ok(after) = merged_entry::<E>(held, field, side, incoming[i], tier) {
            assert(entries_within::<E>(after, names));
            lemma_merged_map_within::<E>(after, field, side, incoming, i + 1, tier, names);
        }
    }
}

proof fn lemma_merged_dependencies_within(
    held: Seq<(DependsOnEntryV, TierV)>,
    incoming: Seq<DependsOnEntryV>,
    i: int,
    tier: TierV,
    names: Set<Seq<char>>,
)
    requires
        0 <= i,
        entries_within::<DependsOnEntry>(held, names),
        Vec::<DependsOnEntry>::within(incoming, names),
    ensures
        merged_dependencies(held, incoming, i, tier) matches Ok(after) ==> entries_within::<
            DependsOnEntry,
        >(after, names),
    decreases incoming.len() - i,
{
    if i < incoming.len() {
        assert(DependsOnEntry::within(incoming[i], names));
        lemma_key_index_bound::<DependsOnEntry>(held, incoming[i].reference.text(), 0);
        if let Ok(after) = merged_dependency(held, incoming[i], tier) {
            assert(entries_within::<DependsOnEntry>(after, names));
            lemma_merged_dependencies_within(after, incoming, i + 1, tier, names);
        }
    }
}

proof fn lemma_merged_labels_within(
    held: Seq<(LabelEntryV, TierV)>,
    incoming: Seq<LabelEntryV>,
    i: int,
    tier: TierV,
    names: Set<Seq<char>>,
)
    requires
        0 <= i,
        entries_within::<LabelEntry>(held, names),
        Vec::<LabelEntry>::within(incoming, names),
    ensures
        merged_labels(held, incoming, i, tier) matches Ok(after) ==> entries_within::<LabelEntry>(
            after,
            names,
        ),
    decreases incoming.len() - i,
{
    if i < incoming.len() {
        let entry = incoming[i];
        assert(LabelEntry::within(entry, names));
        lemma_key_index_bound::<LabelEntry>(held, entry.key.text(), 0);
        let at = key_index::<LabelEntry>(held, entry.key.text(), 0);
        if at < held.len() {
            assert(LabelEntry::within(held[at].0, names));
            if let (LabelValueV::List(items, _), LabelValueV::List(more, _)) = (
                held[at].0.value,
                entry.value,
            ) {
                lemma_with_distinct_within(items, more, 0, names);
            }
        }
        if let Ok(after) = merged_label(held, entry, tier) {
            assert(entries_within::<LabelEntry>(after, names));
            lemma_merged_labels_within(after, incoming, i + 1, tier, names);
        }
    }
}

proof fn lemma_with_distinct_within(
    held: Seq<LiteralV>,
    more: Seq<LiteralV>,
    i: int,
    names: Set<Seq<char>>,
)
    requires
        0 <= i,
        Vec::<Literal>::within(held, names),
        Vec::<Literal>::within(more, names),
    ensures
        Vec::<Literal>::within(with_distinct(held, more, i), names),
    decreases more.len() - i,
{
    if i < more.len() {
        assert(Literal::within(more[i], names));
        if text_index(held, more[i].text(), 0) < held.len() {
            lemma_with_distinct_within(held, more, i + 1, names);
        } else {
            lemma_with_distinct_within(held.push(more[i]), more, i + 1, names);
        }
    }
}

/// Merging a tier brings in no parameter.
#[verifier::rlimit(100)]
#[verifier::spinoff_prover]
pub proof fn lemma_merged_tier_within(
    acc: MergeAccV,
    incoming: ServiceFieldsV,
    tier: TierV,
    names: Set<Seq<char>>,
)
    requires
        acc.within(names),
        ServiceFields::within(incoming, names),
    ensures
        merged_tier(acc, incoming, tier) matches Ok(after) ==> after.within(names),
{
    lemma_merged_map_within::<ArrowMapEntry>(
        acc.volumes,
        "volume"@,
        MapSide::Value,
        incoming.volumes.entries,
        0,
        tier,
        names,
    );
    lemma_merged_map_within::<ArrowMapEntry>(
        acc.publish,
        "publish"@,
        MapSide::Value,
        incoming.publish.entries,
        0,
        tier,
        names,
    );
    lemma_merged_map_within::<ArrowMapEntry>(
        acc.devices,
        "devices"@,
        MapSide::Value,
        incoming.devices.entries,
        0,
        tier,
        names,
    );
    lemma_merged_map_within::<EnvEntry>(
        acc.env,
        "env"@,
        MapSide::Key,
        incoming.env.entries,
        0,
        tier,
        names,
    );
    lemma_merged_labels_within(acc.labels, incoming.labels.entries, 0, tier, names);
    lemma_merged_dependencies_within(acc.depends_on, incoming.depends_on, 0, tier, names);
    lemma_merged_map_within::<RawEntry>(
        acc.raw,
        "raw"@,
        MapSide::Key,
        incoming.raw.entries,
        0,
        tier,
        names,
    );
    lemma_with_distinct_within(acc.networks, incoming.networks, 0, names);
    lemma_merged_scalars_within(acc, incoming, tier, names);
}

/// The fields that merged tiers add up to refer to no other parameters
/// than the tiers did.
pub proof fn lemma_fields_within(acc: MergeAccV, names: Set<Seq<char>>)
    requires
        acc.within(names),
    ensures
        ServiceFields::within(acc.fields(), names),
{
    assert forall|k: int| 0 <= k < acc.publish.len() implies ArrowMapEntry::within(
        #[trigger] final_values(acc.publish)[k],
        names,
    ) by {
        assert(ArrowMapEntry::within(acc.publish[k].0, names));
    }
    assert forall|k: int| 0 <= k < acc.volumes.len() implies ArrowMapEntry::within(
        #[trigger] final_values(acc.volumes)[k],
        names,
    ) by {
        assert(ArrowMapEntry::within(acc.volumes[k].0, names));
    }
    assert forall|k: int| 0 <= k < acc.devices.len() implies ArrowMapEntry::within(
        #[trigger] final_values(acc.devices)[k],
        names,
    ) by {
        assert(ArrowMapEntry::within(acc.devices[k].0, names));
    }
    assert forall|k: int| 0 <= k < acc.env.len() implies EnvEntry::within(
        #[trigger] final_values(acc.env)[k],
        names,
    ) by {
        assert(EnvEntry::within(acc.env[k].0, names));
    }
    assert forall|k: int| 0 <= k < acc.labels.len() implies LabelEntry::within(
        #[trigger] final_values(acc.labels)[k],
        names,
    ) by {
        assert(LabelEntry::within(acc.labels[k].0, names));
    }
    assert forall|k: int| 0 <= k < acc.raw.len() implies RawEntry::within(
        #[trigger] final_values(acc.raw)[k],
        names,
    ) by {
        assert(RawEntry::within(acc.raw[k].0, names));
    }
    assert forall|k: int| 0 <= k < acc.depends_on.len() implies DependsOnEntry::within(
        #[trigger] final_values(acc.depends_on)[k],
        names,
    ) by {
        assert(DependsOnEntry::within(acc.depends_on[k].0, names));
    }
}

proof fn lemma_merged_scalars_within(
    acc: MergeAccV,
    incoming: ServiceFieldsV,
    tier: TierV,
    names: Set<Seq<char>>,
)
    requires
        acc.within(names),
        ServiceFields::within(incoming, names),
    ensures
        merged_scalars(acc, incoming, tier) matches Ok(after) ==> after.within(names),
{
}

} // verus!
