//! Every place of a service's or template's body that can hold a literal,
//! walked in a fixed order: by a pass that rewrites each literal on its
//! own, and by the substitution of an invocation's arguments.

use vstd::prelude::*;
use vstd::string::*;

use crate::ast::{
    ArrowMap, ArrowMapEntry, ArrowMapEntryV, ArrowMapHost, ArrowMapHostV, ArrowMapV, Build, BuildV,
    Command, DependsOnEntry, DependsOnEntryV, Entrypoint, EnvEntry, EnvEntryV, EnvMap, EnvMapV,
    Expose, ExposeV, Healthcheck, HealthcheckTest, HealthcheckV, Image, ImageV, LabelEntry,
    LabelEntryV, LabelMap, LabelMapV, LabelValue, LabelValueV, Literal, LiteralV, RawEntry,
    RawEntryV, RawMap, RawMapV, RawValue, RawValueV, Restart, RestartV, ServiceFields,
    ServiceFieldsV, ShellOrExecV, TemplateInvocation, TemplateInvocationV,
};
use crate::compose::substitute::{
    bound_literal, bound_number, bound_reference, inert_warnings, name_end, reference_list_item,
    spliced_item, stepped, substitute_literal, substitute_numeric_literal,
    substitute_reference_literal, Call, CallV,
};
use crate::compose_error::{ComposeError, ComposeErrorV};
use crate::deep::{no_items, outcome, push_to, Duplicate};
use crate::source::Span;
use crate::warning::{
    grown, lemma_grown_twice, lemma_warned_grows, warned, ComposeWarning, ComposeWarningV,
};

verus! {

/// Whether every parameter a literal refers to is one of `names`. What a
/// field is read off is a name, never another field access.
pub open spec fn literal_within(lit: LiteralV, names: Set<Seq<char>>) -> bool {
    match lit {
        LiteralV::Param(name, _) => names.contains(name),
        LiteralV::Field(access) => match access.base {
            LiteralV::Param(name, _) => names.contains(name),
            LiteralV::Field(_) => false,
            _ => true,
        },
        _ => true,
    }
}

/// Whether every parameter a raw value refers to is one of `names`.
pub open spec fn raw_within(value: RawValueV, names: Set<Seq<char>>) -> bool
    decreases value,
{
    match value {
        RawValueV::Literal(lit) => literal_within(lit, names),
        RawValueV::List(items, _) => forall|i: int|
            0 <= i < items.len() ==> raw_within(#[trigger] items[i], names),
        RawValueV::Mapping(entries, _) => forall|i: int|
            0 <= i < entries.len() ==> literal_within((#[trigger] entries[i]).0, names)
                && raw_within(entries[i].1, names),
    }
}

/// Whether a literal is a finished value: no parameter, and no field
/// access.
pub open spec fn literal_settled(lit: LiteralV) -> bool {
    !(lit is Param) && !(lit is Field)
}

/// Whether a raw value holds finished values only.
pub open spec fn raw_settled(value: RawValueV) -> bool
    decreases value,
{
    match value {
        RawValueV::Literal(lit) => literal_settled(lit),
        RawValueV::List(items, _) => forall|i: int|
            0 <= i < items.len() ==> raw_settled(#[trigger] items[i]),
        RawValueV::Mapping(entries, _) => forall|i: int|
            0 <= i < entries.len() ==> literal_settled((#[trigger] entries[i]).0) && raw_settled(
                entries[i].1,
            ),
    }
}

impl CallV {
    /// The names an invocation gives an argument for.
    pub open spec fn names(self) -> Set<Seq<char>> {
        Set::new(|name: Seq<char>| self.arg(name) is Some)
    }

    /// Whether every parameter the arguments refer to is one of `outer`:
    /// those of the body that the invocation is written in.
    pub open spec fn args_within(self, outer: Set<Seq<char>>) -> bool {
        forall|name: Seq<char>| (#[trigger] self.arg(name)) matches Some(value) ==> raw_within(
            value,
            outer,
        )
    }
}

/// A rewriting of single literals.
pub trait LiteralPass: DeepView {
    /// What becomes of a literal.
    spec fn rewrites(pass: Self::V, lit: LiteralV) -> Result<LiteralV, ComposeErrorV>;

    /// Rewrites one literal.
    fn rewrite(&self, lit: &Literal) -> (r: Result<Literal, ComposeError>)
        ensures
            outcome(r) == Self::rewrites(self.deep_view(), lit.deep_view()),
    ;

    /// A rewritten literal refers to no parameter that it did not refer
    /// to before.
    proof fn lemma_rewrites_within(pass: Self::V, lit: LiteralV, names: Set<Seq<char>>)
        requires
            literal_within(lit, names),
        ensures
            Self::rewrites(pass, lit) matches Ok(after) ==> literal_within(after, names),
    ;
}

/// What holds literals.
pub trait Slots: DeepView + Sized {
    /// Whether every parameter referred to is one of `names`.
    spec fn within(v: Self::V, names: Set<Seq<char>>) -> bool;

    /// Whether every literal is a finished value.
    spec fn settled(v: Self::V) -> bool;

    /// What an invocation makes of it: its arguments substituted into
    /// every literal, or the first error.
    spec fn bound(v: Self::V, call: CallV, warnings: Seq<ComposeWarningV>) -> Result<
        (Self::V, Seq<ComposeWarningV>),
        ComposeErrorV,
    >;

    /// Substitutes an invocation's arguments.
    fn bind(&self, call: &Call<'_>, warnings: &mut Vec<ComposeWarning>) -> (r: Result<
        Self,
        ComposeError,
    >)
        ensures
            stepped(r, final(warnings).deep_view()) == Self::bound(
                self.deep_view(),
                call.deep_view(),
                old(warnings).deep_view(),
            ),
    ;

    /// Once an invocation's arguments are in place, only the parameters
    /// that those arguments refer to are left.
    proof fn lemma_bound_within(v: Self::V, call: CallV, outer: Set<Seq<char>>)
        requires
            Self::within(v, call.names()),
            call.args_within(outer),
        ensures
            forall|warnings: Seq<ComposeWarningV>|
                (#[trigger] Self::bound(v, call, warnings)) matches Ok((after, _))
                    ==> Self::within(after, outer),
    ;

    /// Substituting an invocation's arguments only adds warnings.
    proof fn lemma_bound_warns(v: Self::V, call: CallV)
        ensures
            forall|warnings: Seq<ComposeWarningV>|
                (#[trigger] Self::bound(v, call, warnings)) matches Ok((_, after)) ==> grown(
                    warnings,
                    after,
                ),
    ;
}

proof fn lemma_inert_warnings_grow(
    s: Seq<char>,
    i: int,
    call: CallV,
    span: Span,
    warnings: Seq<ComposeWarningV>,
)
    ensures
        grown(warnings, inert_warnings(s, i, call, span, warnings)),
    decreases s.len() - i,
{
    if i < s.len() {
        let name = s.subrange(i + 1, name_end(s, i + 1));
        let warning = ComposeWarningV::InertParameterInString {
            template: call.template,
            param: name,
            span,
        };
        lemma_warned_grows(warnings, warning);
        let next = if s[i] == '$' && call.arg(name) is Some {
            warned(warnings, warning)
        } else {
            warnings
        };
        lemma_inert_warnings_grow(s, i + 1, call, span, next);
    }
}

proof fn lemma_bound_literal_warns(lit: LiteralV, call: CallV, warnings: Seq<ComposeWarningV>)
    ensures
        bound_literal(lit, call, warnings) matches Ok((_, after)) ==> grown(warnings, after),
{
    if let LiteralV::Str(text, span) = lit {
        lemma_inert_warnings_grow(text, 0, call, span, warnings);
        lemma_warned_grows(
            inert_warnings(text, 0, call, span, warnings),
            ComposeWarningV::NameParameterNotInterpolated { template: call.template, span },
        );
    }
}

/// What holds literals, seen by a pass over them.
pub trait Walk<P: LiteralPass>: Slots {
    /// What the pass makes of it: every literal rewritten, or the first
    /// error.
    spec fn passed(v: Self::V, pass: P::V) -> Result<Self::V, ComposeErrorV>;

    /// Rewrites every literal.
    fn pass(&self, pass: &P) -> (r: Result<Self, ComposeError>)
        ensures
            outcome(r) == Self::passed(self.deep_view(), pass.deep_view()),
    ;

    /// A pass brings in no parameter.
    proof fn lemma_passed_within(v: Self::V, pass: P::V, names: Set<Seq<char>>)
        requires
            Self::within(v, names),
        ensures
            Self::passed(v, pass) matches Ok(after) ==> Self::within(after, names),
    ;

    /// A pass that leaves finished values leaves nothing else.
    proof fn lemma_passed_settled(v: Self::V, pass: P::V)
        requires
            settles::<P>(pass),
            Self::within(v, Set::empty()),
        ensures
            Self::passed(v, pass) matches Ok(after) ==> Self::settled(after),
    ;
}

/// Whether a pass makes a finished value of every literal that is no
/// parameter and reads no field off one.
pub open spec fn settles<P: LiteralPass>(pass: P::V) -> bool {
    forall|lit: LiteralV|
        literal_within(lit, Set::empty()) ==> ((#[trigger] P::rewrites(pass, lit)) matches Ok(after)
            ==> literal_settled(after))
}

proof fn lemma_bound_literal_within(
    lit: LiteralV,
    call: CallV,
    warnings: Seq<ComposeWarningV>,
    outer: Set<Seq<char>>,
)
    requires
        literal_within(lit, call.names()),
        call.args_within(outer),
    ensures
        bound_literal(lit, call, warnings) matches Ok((after, _)) ==> literal_within(after, outer),
{
    match lit {
        LiteralV::Param(name, _) => {
            assert(call.names().contains(name));
        },
        LiteralV::Field(access) => {
            if let LiteralV::Param(name, _) = access.base {
                assert(call.names().contains(name));
                assert(call.arg(name) matches Some(value) ==> raw_within(value, outer));
            }
        },
        _ => {},
    }
}

impl Slots for Literal {
    open spec fn within(v: LiteralV, names: Set<Seq<char>>) -> bool {
        literal_within(v, names)
    }

    open spec fn settled(v: LiteralV) -> bool {
        literal_settled(v)
    }

    open spec fn bound(v: LiteralV, call: CallV, warnings: Seq<ComposeWarningV>) -> Result<
        (LiteralV, Seq<ComposeWarningV>),
        ComposeErrorV,
    > {
        bound_literal(v, call, warnings)
    }

    fn bind(&self, call: &Call<'_>, warnings: &mut Vec<ComposeWarning>) -> (r: Result<
        Self,
        ComposeError,
    >) {
        substitute_literal(self, call, warnings)
    }

    proof fn lemma_bound_within(v: LiteralV, call: CallV, outer: Set<Seq<char>>) {
        assert forall|warnings: Seq<ComposeWarningV>|
            (#[trigger] Self::bound(v, call, warnings)) matches Ok((after, _)) implies Self::within(
            Self::bound(v, call, warnings)->Ok_0.0,
            outer,
        ) by {
            lemma_bound_literal_within(v, call, warnings, outer);
        }
    }

    proof fn lemma_bound_warns(v: LiteralV, call: CallV) {
        assert forall|warnings: Seq<ComposeWarningV>|
            (#[trigger] Self::bound(v, call, warnings)) matches Ok((_, after)) implies grown(
            warnings,
            Self::bound(v, call, warnings)->Ok_0.1,
        ) by {
            lemma_bound_literal_warns(v, call, warnings);
        }
    }
}

impl<P: LiteralPass> Walk<P> for Literal {
    open spec fn passed(v: LiteralV, pass: P::V) -> Result<LiteralV, ComposeErrorV> {
        P::rewrites(pass, v)
    }

    fn pass(&self, pass: &P) -> (r: Result<Self, ComposeError>) {
        pass.rewrite(self)
    }

    proof fn lemma_passed_within(v: LiteralV, pass: P::V, names: Set<Seq<char>>) {
        P::lemma_rewrites_within(pass, v, names);
    }

    proof fn lemma_passed_settled(v: LiteralV, pass: P::V) {
    }
}

impl<T: Slots> Slots for Option<T> {
    open spec fn within(v: Option<T::V>, names: Set<Seq<char>>) -> bool {
        match v {
            Some(value) => T::within(value, names),
            None => true,
        }
    }

    open spec fn settled(v: Option<T::V>) -> bool {
        match v {
            Some(value) => T::settled(value),
            None => true,
        }
    }

    open spec fn bound(v: Option<T::V>, call: CallV, warnings: Seq<ComposeWarningV>) -> Result<
        (Option<T::V>, Seq<ComposeWarningV>),
        ComposeErrorV,
    > {
        match v {
            Some(value) => match T::bound(value, call, warnings) {
                Ok((after, more)) => Ok((Some(after), more)),
                Err(error) => Err(error),
            },
            None => Ok((None, warnings)),
        }
    }

    fn bind(&self, call: &Call<'_>, warnings: &mut Vec<ComposeWarning>) -> (r: Result<
        Self,
        ComposeError,
    >) {
        match self {
            Some(value) => match value.bind(call, warnings) {
                Ok(after) => Ok(Some(after)),
                Err(error) => Err(error),
            },
            None => Ok(None),
        }
    }

    proof fn lemma_bound_within(v: Option<T::V>, call: CallV, outer: Set<Seq<char>>) {
        if let Some(value) = v {
            T::lemma_bound_within(value, call, outer);
        }
    }

    proof fn lemma_bound_warns(v: Option<T::V>, call: CallV) {
        if let Some(value) = v {
            T::lemma_bound_warns(value, call);
        }
    }
}

impl<P: LiteralPass, T: Walk<P>> Walk<P> for Option<T> {
    open spec fn passed(v: Option<T::V>, pass: P::V) -> Result<
        Option<T::V>,
        ComposeErrorV,
    > {
        match v {
            Some(value) => match <T as Walk<P>>::passed(value, pass) {
                Ok(after) => Ok(Some(after)),
                Err(error) => Err(error),
            },
            None => Ok(None),
        }
    }

    fn pass(&self, pass: &P) -> (r: Result<Self, ComposeError>) {
        match self {
            Some(value) => match value.pass(pass) {
                Ok(after) => Ok(Some(after)),
                Err(error) => Err(error),
            },
            None => Ok(None),
        }
    }

    proof fn lemma_passed_within(v: Option<T::V>, pass: P::V, names: Set<Seq<char>>) {
        if let Some(value) = v {
            <T as Walk<P>>::lemma_passed_within(value, pass, names);
        }
    }

    proof fn lemma_passed_settled(v: Option<T::V>, pass: P::V) {
        if let Some(value) = v {
            <T as Walk<P>>::lemma_passed_settled(value, pass);
        }
    }
}

/// The items from index `i` on after a pass, behind those before them.
pub open spec fn passed_items<T: Walk<P>, P: LiteralPass>(
    items: Seq<T::V>,
    i: int,
    before: Seq<T::V>,
    pass: P::V,
) -> Result<Seq<T::V>, ComposeErrorV>
    decreases items.len() - i,
{
    if i >= items.len() {
        Ok(before)
    } else {
        match <T as Walk<P>>::passed(items[i], pass) {
            Ok(after) => passed_items::<T, P>(items, i + 1, before.push(after), pass),
            Err(error) => Err(error),
        }
    }
}

/// The items from index `i` on with an invocation's arguments in them,
/// behind those before them.
pub open spec fn bound_items<T: Slots>(
    items: Seq<T::V>,
    i: int,
    before: Seq<T::V>,
    call: CallV,
    warnings: Seq<ComposeWarningV>,
) -> Result<(Seq<T::V>, Seq<ComposeWarningV>), ComposeErrorV>
    decreases items.len() - i,
{
    if i >= items.len() {
        Ok((before, warnings))
    } else {
        match T::bound(items[i], call, warnings) {
            Ok((after, more)) => bound_items::<T>(items, i + 1, before.push(after), call, more),
            Err(error) => Err(error),
        }
    }
}

proof fn lemma_passed_items_within<T: Walk<P>, P: LiteralPass>(
    items: Seq<T::V>,
    i: int,
    before: Seq<T::V>,
    pass: P::V,
    names: Set<Seq<char>>,
)
    requires
        0 <= i,
        forall|k: int| 0 <= k < items.len() ==> T::within(#[trigger] items[k], names),
        forall|k: int| 0 <= k < before.len() ==> T::within(#[trigger] before[k], names),
    ensures
        passed_items::<T, P>(items, i, before, pass) matches Ok(after) ==> (forall|k: int|
            0 <= k < after.len() ==> T::within(#[trigger] after[k], names)),
    decreases items.len() - i,
{
    if i < items.len() {
        <T as Walk<P>>::lemma_passed_within(items[i], pass, names);
        if let Ok(after) = <T as Walk<P>>::passed(items[i], pass) {
            lemma_passed_items_within::<T, P>(items, i + 1, before.push(after), pass, names);
        }
    }
}

proof fn lemma_passed_items_settled<T: Walk<P>, P: LiteralPass>(
    items: Seq<T::V>,
    i: int,
    before: Seq<T::V>,
    pass: P::V,
)
    requires
        0 <= i,
        settles::<P>(pass),
        forall|k: int| 0 <= k < items.len() ==> T::within(#[trigger] items[k], Set::empty()),
        forall|k: int| 0 <= k < before.len() ==> T::settled(#[trigger] before[k]),
    ensures
        passed_items::<T, P>(items, i, before, pass) matches Ok(after) ==> (forall|k: int|
            0 <= k < after.len() ==> T::settled(#[trigger] after[k])),
    decreases items.len() - i,
{
    if i < items.len() {
        <T as Walk<P>>::lemma_passed_settled(items[i], pass);
        if let Ok(after) = <T as Walk<P>>::passed(items[i], pass) {
            lemma_passed_items_settled::<T, P>(items, i + 1, before.push(after), pass);
        }
    }
}

proof fn lemma_bound_items_within<T: Slots>(
    items: Seq<T::V>,
    i: int,
    before: Seq<T::V>,
    call: CallV,
    warnings: Seq<ComposeWarningV>,
    outer: Set<Seq<char>>,
)
    requires
        0 <= i,
        call.args_within(outer),
        forall|k: int| 0 <= k < items.len() ==> T::within(#[trigger] items[k], call.names()),
        forall|k: int| 0 <= k < before.len() ==> T::within(#[trigger] before[k], outer),
    ensures
        bound_items::<T>(items, i, before, call, warnings) matches Ok((after, _)) ==> (forall|
            k: int,
        | 0 <= k < after.len() ==> T::within(#[trigger] after[k], outer)),
    decreases items.len() - i,
{
    if i < items.len() {
        T::lemma_bound_within(items[i], call, outer);
        if let Ok((after, more)) = T::bound(items[i], call, warnings) {
            lemma_bound_items_within::<T>(items, i + 1, before.push(after), call, more, outer);
        }
    }
}

proof fn lemma_bound_items_warn<T: Slots>(
    items: Seq<T::V>,
    i: int,
    before: Seq<T::V>,
    call: CallV,
    warnings: Seq<ComposeWarningV>,
)
    requires
        0 <= i,
    ensures
        bound_items::<T>(items, i, before, call, warnings) matches Ok((_, after)) ==> grown(
            warnings,
            after,
        ),
    decreases items.len() - i,
{
    if i < items.len() {
        T::lemma_bound_warns(items[i], call);
        if let Ok((after, more)) = T::bound(items[i], call, warnings) {
            lemma_bound_items_warn::<T>(items, i + 1, before.push(after), call, more);
        }
    }
}

impl<T: Slots> Slots for Vec<T> {
    open spec fn within(v: Seq<T::V>, names: Set<Seq<char>>) -> bool {
        forall|k: int| 0 <= k < v.len() ==> T::within(#[trigger] v[k], names)
    }

    open spec fn settled(v: Seq<T::V>) -> bool {
        forall|k: int| 0 <= k < v.len() ==> T::settled(#[trigger] v[k])
    }

    open spec fn bound(v: Seq<T::V>, call: CallV, warnings: Seq<ComposeWarningV>) -> Result<
        (Seq<T::V>, Seq<ComposeWarningV>),
        ComposeErrorV,
    > {
        bound_items::<T>(v, 0, Seq::empty(), call, warnings)
    }

    fn bind(&self, call: &Call<'_>, warnings: &mut Vec<ComposeWarning>) -> (r: Result<
        Self,
        ComposeError,
    >) {
        let mut out: Vec<T> = no_items();
        let mut i: usize = 0;
        while i < self.len()
            invariant
                i <= self@.len(),
                bound_items::<T>(
                    self.deep_view(),
                    0,
                    Seq::empty(),
                    call.deep_view(),
                    old(warnings).deep_view(),
                ) == bound_items::<T>(
                    self.deep_view(),
                    i as int,
                    out.deep_view(),
                    call.deep_view(),
                    warnings.deep_view(),
                ),
            decreases self@.len() - i,
        {
            match self[i].bind(call, warnings) {
                Ok(after) => {
                    push_to(&mut out, after);
                },
                Err(error) => {
                    return Err(error);
                },
            }
            i = i + 1;
        }
        Ok(out)
    }

    proof fn lemma_bound_within(v: Seq<T::V>, call: CallV, outer: Set<Seq<char>>) {
        assert forall|warnings: Seq<ComposeWarningV>|
            (#[trigger] Self::bound(v, call, warnings)) matches Ok((after, _)) implies Self::within(
            Self::bound(v, call, warnings)->Ok_0.0,
            outer,
        ) by {
            lemma_bound_items_within::<T>(v, 0, Seq::empty(), call, warnings, outer);
        }
    }

    proof fn lemma_bound_warns(v: Seq<T::V>, call: CallV) {
        assert forall|warnings: Seq<ComposeWarningV>|
            (#[trigger] Self::bound(v, call, warnings)) matches Ok((_, after)) implies grown(
            warnings,
            Self::bound(v, call, warnings)->Ok_0.1,
        ) by {
            lemma_bound_items_warn::<T>(v, 0, Seq::empty(), call, warnings);
        }
    }
}

impl<P: LiteralPass, T: Walk<P>> Walk<P> for Vec<T> {
    open spec fn passed(v: Seq<T::V>, pass: P::V) -> Result<
        Seq<T::V>,
        ComposeErrorV,
    > {
        passed_items::<T, P>(v, 0, Seq::empty(), pass)
    }

    fn pass(&self, pass: &P) -> (r: Result<Self, ComposeError>) {
        let mut out: Vec<T> = no_items();
        let mut i: usize = 0;
        while i < self.len()
            invariant
                i <= self@.len(),
                passed_items::<T, P>(
                    self.deep_view(),
                    0,
                    Seq::empty(),
                    pass.deep_view(),
                ) == passed_items::<
                    T,
                    P,
                >(self.deep_view(), i as int, out.deep_view(), pass.deep_view()),
            decreases self@.len() - i,
        {
            match self[i].pass(pass) {
                Ok(after) => {
                    push_to(&mut out, after);
                },
                Err(error) => {
                    return Err(error);
                },
            }
            i = i + 1;
        }
        Ok(out)
    }

    proof fn lemma_passed_within(v: Seq<T::V>, pass: P::V, names: Set<Seq<char>>) {
        lemma_passed_items_within::<T, P>(v, 0, Seq::empty(), pass, names);
    }

    proof fn lemma_passed_settled(v: Seq<T::V>, pass: P::V) {
        lemma_passed_items_settled::<T, P>(v, 0, Seq::empty(), pass);
    }
}

/// A command after a pass.
pub open spec fn passed_command<P: LiteralPass>(v: ShellOrExecV, pass: P::V) -> Result<
    ShellOrExecV,
    ComposeErrorV,
> {
    match v {
        ShellOrExecV::Shell(lit) => match P::rewrites(pass, lit) {
            Ok(after) => Ok(ShellOrExecV::Shell(after)),
            Err(error) => Err(error),
        },
        ShellOrExecV::Exec(items, span) => match <Vec<Literal> as Walk<P>>::passed(items, pass) {
            Ok(after) => Ok(ShellOrExecV::Exec(after, span)),
            Err(error) => Err(error),
        },
    }
}

/// A command with an invocation's arguments in it.
pub open spec fn bound_command(
    v: ShellOrExecV,
    call: CallV,
    warnings: Seq<ComposeWarningV>,
) -> Result<(ShellOrExecV, Seq<ComposeWarningV>), ComposeErrorV> {
    match v {
        ShellOrExecV::Shell(lit) => match bound_literal(lit, call, warnings) {
            Ok((after, more)) => Ok((ShellOrExecV::Shell(after), more)),
            Err(error) => Err(error),
        },
        ShellOrExecV::Exec(items, span) => match Vec::<Literal>::bound(items, call, warnings) {
            Ok((after, more)) => Ok((ShellOrExecV::Exec(after, span), more)),
            Err(error) => Err(error),
        },
    }
}

/// Whether every parameter a command refers to is one of `names`.
pub open spec fn command_within(v: ShellOrExecV, names: Set<Seq<char>>) -> bool {
    match v {
        ShellOrExecV::Shell(lit) => literal_within(lit, names),
        ShellOrExecV::Exec(items, _) => Vec::<Literal>::within(items, names),
    }
}

/// Whether every literal of a command is a finished value.
pub open spec fn command_settled(v: ShellOrExecV) -> bool {
    match v {
        ShellOrExecV::Shell(lit) => literal_settled(lit),
        ShellOrExecV::Exec(items, _) => Vec::<Literal>::settled(items),
    }
}

proof fn lemma_passed_command_settled<P: LiteralPass>(v: ShellOrExecV, pass: P::V)
    requires
        settles::<P>(pass),
        command_within(v, Set::empty()),
    ensures
        passed_command::<P>(v, pass) matches Ok(after) ==> command_settled(after),
{
    if let ShellOrExecV::Exec(items, _) = v {
        <Vec<Literal> as Walk<P>>::lemma_passed_settled(items, pass);
    }
}

proof fn lemma_passed_command_within<P: LiteralPass>(
    v: ShellOrExecV,
    pass: P::V,
    names: Set<Seq<char>>,
)
    requires
        command_within(v, names),
    ensures
        passed_command::<P>(v, pass) matches Ok(after) ==> command_within(after, names),
{
    match v {
        ShellOrExecV::Shell(lit) => {
            P::lemma_rewrites_within(pass, lit, names);
        },
        ShellOrExecV::Exec(items, _) => {
            <Vec<Literal> as Walk<P>>::lemma_passed_within(items, pass, names);
        },
    }
}

proof fn lemma_bound_command_within(v: ShellOrExecV, call: CallV, outer: Set<Seq<char>>)
    requires
        command_within(v, call.names()),
        call.args_within(outer),
    ensures
        forall|warnings: Seq<ComposeWarningV>|
            (#[trigger] bound_command(v, call, warnings)) matches Ok((after, _))
                ==> command_within(after, outer),
{
    match v {
        ShellOrExecV::Shell(lit) => {
            Literal::lemma_bound_within(lit, call, outer);
            assert forall|warnings: Seq<ComposeWarningV>|
                (#[trigger] bound_command(v, call, warnings)) matches Ok(
                    (after, _),
                ) implies command_within(
                bound_command(v, call, warnings)->Ok_0.0,
                outer,
            ) by {
                assert(Literal::bound(lit, call, warnings) == bound_literal(lit, call, warnings));
            }
        },
        ShellOrExecV::Exec(items, _) => {
            Vec::<Literal>::lemma_bound_within(items, call, outer);
        },
    }
}

proof fn lemma_bound_command_warns(v: ShellOrExecV, call: CallV)
    ensures
        forall|warnings: Seq<ComposeWarningV>|
            (#[trigger] bound_command(v, call, warnings)) matches Ok((_, after)) ==> grown(
                warnings,
                after,
            ),
{
    assert forall|warnings: Seq<ComposeWarningV>|
        (#[trigger] bound_command(v, call, warnings)) matches Ok((_, after)) implies grown(
        warnings,
        bound_command(v, call, warnings)->Ok_0.1,
    ) by {
        match v {
            ShellOrExecV::Shell(lit) => {
                lemma_bound_literal_warns(lit, call, warnings);
            },
            ShellOrExecV::Exec(items, _) => {
                lemma_bound_items_warn::<Literal>(items, 0, Seq::empty(), call, warnings);
            },
        }
    }
}

impl Slots for HealthcheckTest {
    open spec fn within(v: ShellOrExecV, names: Set<Seq<char>>) -> bool {
        command_within(v, names)
    }

    open spec fn settled(v: ShellOrExecV) -> bool {
        command_settled(v)
    }

    open spec fn bound(v: ShellOrExecV, call: CallV, warnings: Seq<ComposeWarningV>) -> Result<
        (ShellOrExecV, Seq<ComposeWarningV>),
        ComposeErrorV,
    > {
        bound_command(v, call, warnings)
    }

    fn bind(&self, call: &Call<'_>, warnings: &mut Vec<ComposeWarning>) -> (r: Result<
        Self,
        ComposeError,
    >) {
        match self {
            HealthcheckTest::Shell(lit) => match substitute_literal(lit, call, warnings) {
                Ok(after) => Ok(HealthcheckTest::Shell(after)),
                Err(error) => Err(error),
            },
            HealthcheckTest::Exec(items, span) => match items.bind(call, warnings) {
                Ok(after) => Ok(HealthcheckTest::Exec(after, *span)),
                Err(error) => Err(error),
            },
        }
    }

    proof fn lemma_bound_within(v: ShellOrExecV, call: CallV, outer: Set<Seq<char>>) {
        lemma_bound_command_within(v, call, outer);
    }

    proof fn lemma_bound_warns(v: ShellOrExecV, call: CallV) {
        lemma_bound_command_warns(v, call);
    }
}

impl<P: LiteralPass> Walk<P> for HealthcheckTest {
    open spec fn passed(v: ShellOrExecV, pass: P::V) -> Result<
        ShellOrExecV,
        ComposeErrorV,
    > {
        passed_command::<P>(v, pass)
    }

    fn pass(&self, pass: &P) -> (r: Result<Self, ComposeError>) {
        match self {
            HealthcheckTest::Shell(lit) => match pass.rewrite(lit) {
                Ok(after) => Ok(HealthcheckTest::Shell(after)),
                Err(error) => Err(error),
            },
            HealthcheckTest::Exec(items, span) => match items.pass(pass) {
                Ok(after) => Ok(HealthcheckTest::Exec(after, *span)),
                Err(error) => Err(error),
            },
        }
    }

    proof fn lemma_passed_within(v: ShellOrExecV, pass: P::V, names: Set<Seq<char>>) {
        lemma_passed_command_within::<P>(v, pass, names);
    }

    proof fn lemma_passed_settled(v: ShellOrExecV, pass: P::V) {
        lemma_passed_command_settled::<P>(v, pass);
    }
}

impl Slots for Command {
    open spec fn within(v: ShellOrExecV, names: Set<Seq<char>>) -> bool {
        command_within(v, names)
    }

    open spec fn settled(v: ShellOrExecV) -> bool {
        command_settled(v)
    }

    open spec fn bound(v: ShellOrExecV, call: CallV, warnings: Seq<ComposeWarningV>) -> Result<
        (ShellOrExecV, Seq<ComposeWarningV>),
        ComposeErrorV,
    > {
        bound_command(v, call, warnings)
    }

    fn bind(&self, call: &Call<'_>, warnings: &mut Vec<ComposeWarning>) -> (r: Result<
        Self,
        ComposeError,
    >) {
        match self {
            Command::Shell(lit) => match substitute_literal(lit, call, warnings) {
                Ok(after) => Ok(Command::Shell(after)),
                Err(error) => Err(error),
            },
            Command::Exec(items, span) => match items.bind(call, warnings) {
                Ok(after) => Ok(Command::Exec(after, *span)),
                Err(error) => Err(error),
            },
        }
    }

    proof fn lemma_bound_within(v: ShellOrExecV, call: CallV, outer: Set<Seq<char>>) {
        lemma_bound_command_within(v, call, outer);
    }

    proof fn lemma_bound_warns(v: ShellOrExecV, call: CallV) {
        lemma_bound_command_warns(v, call);
    }
}

impl<P: LiteralPass> Walk<P> for Command {
    open spec fn passed(v: ShellOrExecV, pass: P::V) -> Result<
        ShellOrExecV,
        ComposeErrorV,
    > {
        passed_command::<P>(v, pass)
    }

    fn pass(&self, pass: &P) -> (r: Result<Self, ComposeError>) {
        match self {
            Command::Shell(lit) => match pass.rewrite(lit) {
                Ok(after) => Ok(Command::Shell(after)),
                Err(error) => Err(error),
            },
            Command::Exec(items, span) => match items.pass(pass) {
                Ok(after) => Ok(Command::Exec(after, *span)),
                Err(error) => Err(error),
            },
        }
    }

    proof fn lemma_passed_within(v: ShellOrExecV, pass: P::V, names: Set<Seq<char>>) {
        lemma_passed_command_within::<P>(v, pass, names);
    }

    proof fn lemma_passed_settled(v: ShellOrExecV, pass: P::V) {
        lemma_passed_command_settled::<P>(v, pass);
    }
}

impl Slots for Entrypoint {
    open spec fn within(v: ShellOrExecV, names: Set<Seq<char>>) -> bool {
        command_within(v, names)
    }

    open spec fn settled(v: ShellOrExecV) -> bool {
        command_settled(v)
    }

    open spec fn bound(v: ShellOrExecV, call: CallV, warnings: Seq<ComposeWarningV>) -> Result<
        (ShellOrExecV, Seq<ComposeWarningV>),
        ComposeErrorV,
    > {
        bound_command(v, call, warnings)
    }

    fn bind(&self, call: &Call<'_>, warnings: &mut Vec<ComposeWarning>) -> (r: Result<
        Self,
        ComposeError,
    >) {
        match self {
            Entrypoint::Shell(lit) => match substitute_literal(lit, call, warnings) {
                Ok(after) => Ok(Entrypoint::Shell(after)),
                Err(error) => Err(error),
            },
            Entrypoint::Exec(items, span) => match items.bind(call, warnings) {
                Ok(after) => Ok(Entrypoint::Exec(after, *span)),
                Err(error) => Err(error),
            },
        }
    }

    proof fn lemma_bound_within(v: ShellOrExecV, call: CallV, outer: Set<Seq<char>>) {
        lemma_bound_command_within(v, call, outer);
    }

    proof fn lemma_bound_warns(v: ShellOrExecV, call: CallV) {
        lemma_bound_command_warns(v, call);
    }
}

impl<P: LiteralPass> Walk<P> for Entrypoint {
    open spec fn passed(v: ShellOrExecV, pass: P::V) -> Result<
        ShellOrExecV,
        ComposeErrorV,
    > {
        passed_command::<P>(v, pass)
    }

    fn pass(&self, pass: &P) -> (r: Result<Self, ComposeError>) {
        match self {
            Entrypoint::Shell(lit) => match pass.rewrite(lit) {
                Ok(after) => Ok(Entrypoint::Shell(after)),
                Err(error) => Err(error),
            },
            Entrypoint::Exec(items, span) => match items.pass(pass) {
                Ok(after) => Ok(Entrypoint::Exec(after, *span)),
                Err(error) => Err(error),
            },
        }
    }

    proof fn lemma_passed_within(v: ShellOrExecV, pass: P::V, names: Set<Seq<char>>) {
        lemma_passed_command_within::<P>(v, pass, names);
    }

    proof fn lemma_passed_settled(v: ShellOrExecV, pass: P::V) {
        lemma_passed_command_settled::<P>(v, pass);
    }
}

impl Slots for LabelValue {
    open spec fn within(v: LabelValueV, names: Set<Seq<char>>) -> bool {
        match v {
            LabelValueV::Scalar(lit) => literal_within(lit, names),
            LabelValueV::List(items, _) => Vec::<Literal>::within(items, names),
        }
    }

    open spec fn settled(v: LabelValueV) -> bool {
        match v {
            LabelValueV::Scalar(lit) => literal_settled(lit),
            LabelValueV::List(items, _) => Vec::<Literal>::settled(items),
        }
    }

    open spec fn bound(v: LabelValueV, call: CallV, warnings: Seq<ComposeWarningV>) -> Result<
        (LabelValueV, Seq<ComposeWarningV>),
        ComposeErrorV,
    > {
        match v {
            LabelValueV::Scalar(lit) => match bound_literal(lit, call, warnings) {
                Ok((after, more)) => Ok((LabelValueV::Scalar(after), more)),
                Err(error) => Err(error),
            },
            LabelValueV::List(items, span) => match Vec::<Literal>::bound(items, call, warnings) {
                Ok((after, more)) => Ok((LabelValueV::List(after, span), more)),
                Err(error) => Err(error),
            },
        }
    }

    fn bind(&self, call: &Call<'_>, warnings: &mut Vec<ComposeWarning>) -> (r: Result<
        Self,
        ComposeError,
    >) {
        match self {
            LabelValue::Scalar(lit) => match substitute_literal(lit, call, warnings) {
                Ok(after) => Ok(LabelValue::Scalar(after)),
                Err(error) => Err(error),
            },
            LabelValue::List(items, span) => match items.bind(call, warnings) {
                Ok(after) => Ok(LabelValue::List(after, *span)),
                Err(error) => Err(error),
            },
        }
    }

    proof fn lemma_bound_within(v: LabelValueV, call: CallV, outer: Set<Seq<char>>) {
        match v {
            LabelValueV::Scalar(lit) => {
                Literal::lemma_bound_within(lit, call, outer);
                assert forall|warnings: Seq<ComposeWarningV>|
                    (#[trigger] Self::bound(v, call, warnings)) matches Ok(
                        (after, _),
                    ) implies Self::within(
                    Self::bound(v, call, warnings)->Ok_0.0,
                    outer,
                ) by {
                    assert(Literal::bound(lit, call, warnings) == bound_literal(
                        lit,
                        call,
                        warnings,
                    ));
                }
            },
            LabelValueV::List(items, _) => {
                Vec::<Literal>::lemma_bound_within(items, call, outer);
            },
        }
    }

    proof fn lemma_bound_warns(v: LabelValueV, call: CallV) {
        assert forall|warnings: Seq<ComposeWarningV>|
            (#[trigger] Self::bound(v, call, warnings)) matches Ok((_, after)) implies grown(
            warnings,
            Self::bound(v, call, warnings)->Ok_0.1,
        ) by {
            match v {
                LabelValueV::Scalar(lit) => {
                    lemma_bound_literal_warns(lit, call, warnings);
                },
                LabelValueV::List(items, _) => {
                    lemma_bound_items_warn::<Literal>(items, 0, Seq::empty(), call, warnings);
                },
            }
        }
    }
}

impl<P: LiteralPass> Walk<P> for LabelValue {
    open spec fn passed(v: LabelValueV, pass: P::V) -> Result<
        LabelValueV,
        ComposeErrorV,
    > {
        match v {
            LabelValueV::Scalar(lit) => match P::rewrites(pass, lit) {
                Ok(after) => Ok(LabelValueV::Scalar(after)),
                Err(error) => Err(error),
            },
            LabelValueV::List(items, span) => match <Vec<Literal> as Walk<P>>::passed(items, pass) {
                Ok(after) => Ok(LabelValueV::List(after, span)),
                Err(error) => Err(error),
            },
        }
    }

    fn pass(&self, pass: &P) -> (r: Result<Self, ComposeError>) {
        match self {
            LabelValue::Scalar(lit) => match pass.rewrite(lit) {
                Ok(after) => Ok(LabelValue::Scalar(after)),
                Err(error) => Err(error),
            },
            LabelValue::List(items, span) => match items.pass(pass) {
                Ok(after) => Ok(LabelValue::List(after, *span)),
                Err(error) => Err(error),
            },
        }
    }

    proof fn lemma_passed_within(v: LabelValueV, pass: P::V, names: Set<Seq<char>>) {
        match v {
            LabelValueV::Scalar(lit) => {
                P::lemma_rewrites_within(pass, lit, names);
            },
            LabelValueV::List(items, _) => {
                <Vec<Literal> as Walk<P>>::lemma_passed_within(items, pass, names);
            },
        }
    }

    proof fn lemma_passed_settled(v: LabelValueV, pass: P::V) {
        if let LabelValueV::List(items, _) = v {
            <Vec<Literal> as Walk<P>>::lemma_passed_settled(items, pass);
        }
    }
}

impl Slots for ArrowMapHost {
    // A volume's identity is written out, never a parameter.
    open spec fn within(v: ArrowMapHostV, names: Set<Seq<char>>) -> bool {
        match v {
            ArrowMapHostV::BindMount(lit) => literal_within(lit, names),
            ArrowMapHostV::Named(lit) => literal_within(lit, Set::empty()),
        }
    }

    open spec fn settled(v: ArrowMapHostV) -> bool {
        literal_settled(v.literal())
    }

    open spec fn bound(v: ArrowMapHostV, call: CallV, warnings: Seq<ComposeWarningV>) -> Result<
        (ArrowMapHostV, Seq<ComposeWarningV>),
        ComposeErrorV,
    > {
        match v {
            ArrowMapHostV::BindMount(lit) => match bound_literal(lit, call, warnings) {
                Ok((after, more)) => Ok((ArrowMapHostV::BindMount(after), more)),
                Err(error) => Err(error),
            },
            ArrowMapHostV::Named(_) => Ok((v, warnings)),
        }
    }

    fn bind(&self, call: &Call<'_>, warnings: &mut Vec<ComposeWarning>) -> (r: Result<
        Self,
        ComposeError,
    >) {
        match self {
            ArrowMapHost::BindMount(lit) => match substitute_literal(lit, call, warnings) {
                Ok(after) => Ok(ArrowMapHost::BindMount(after)),
                Err(error) => Err(error),
            },
            ArrowMapHost::Named(lit) => Ok(ArrowMapHost::Named(lit.duplicate())),
        }
    }

    proof fn lemma_bound_within(v: ArrowMapHostV, call: CallV, outer: Set<Seq<char>>) {
        if let ArrowMapHostV::BindMount(lit) = v {
            Literal::lemma_bound_within(lit, call, outer);
            assert forall|warnings: Seq<ComposeWarningV>|
                (#[trigger] Self::bound(v, call, warnings)) matches Ok(
                    (after, _),
                ) implies Self::within(
                Self::bound(v, call, warnings)->Ok_0.0,
                outer,
            ) by {
                assert(Literal::bound(lit, call, warnings) == bound_literal(lit, call, warnings));
            }
        }
    }

    proof fn lemma_bound_warns(v: ArrowMapHostV, call: CallV) {
        assert forall|warnings: Seq<ComposeWarningV>|
            (#[trigger] Self::bound(v, call, warnings)) matches Ok((_, after)) implies grown(
            warnings,
            Self::bound(v, call, warnings)->Ok_0.1,
        ) by {
            if let ArrowMapHostV::BindMount(lit) = v {
                lemma_bound_literal_warns(lit, call, warnings);
            }
        }
    }
}

impl<P: LiteralPass> Walk<P> for ArrowMapHost {
    open spec fn passed(v: ArrowMapHostV, pass: P::V) -> Result<
        ArrowMapHostV,
        ComposeErrorV,
    > {
        match (P::rewrites(pass, v.literal()), v) {
            (Err(error), _) => Err(error),
            (Ok(after), ArrowMapHostV::BindMount(_)) => Ok(ArrowMapHostV::BindMount(after)),
            (Ok(after), ArrowMapHostV::Named(_)) => Ok(ArrowMapHostV::Named(after)),
        }
    }

    fn pass(&self, pass: &P) -> (r: Result<Self, ComposeError>) {
        match self {
            ArrowMapHost::BindMount(lit) => match pass.rewrite(lit) {
                Ok(after) => Ok(ArrowMapHost::BindMount(after)),
                Err(error) => Err(error),
            },
            ArrowMapHost::Named(lit) => match pass.rewrite(lit) {
                Ok(after) => Ok(ArrowMapHost::Named(after)),
                Err(error) => Err(error),
            },
        }
    }

    proof fn lemma_passed_within(
        v: ArrowMapHostV,
        pass: P::V,
        names: Set<Seq<char>>,
    ) {
        match v {
            ArrowMapHostV::BindMount(lit) => {
                P::lemma_rewrites_within(pass, lit, names);
            },
            ArrowMapHostV::Named(lit) => {
                P::lemma_rewrites_within(pass, lit, Set::empty());
            },
        }
    }

    proof fn lemma_passed_settled(v: ArrowMapHostV, pass: P::V) {
    }
}

/// A raw value after a pass: each literal in it rewritten, keys included.
pub open spec fn passed_raw<P: LiteralPass>(value: RawValueV, pass: P::V) -> Result<
    RawValueV,
    ComposeErrorV,
>
    decreases value, 0int,
{
    match value {
        RawValueV::Literal(lit) => match P::rewrites(pass, lit) {
            Ok(after) => Ok(RawValueV::Literal(after)),
            Err(error) => Err(error),
        },
        RawValueV::List(items, span) => match passed_raw_items::<P>(items, 0, Seq::empty(), pass) {
            Ok(after) => Ok(RawValueV::List(after, span)),
            Err(error) => Err(error),
        },
        RawValueV::Mapping(entries, span) => match passed_raw_entries::<P>(
            entries,
            0,
            Seq::empty(),
            pass,
        ) {
            Ok(after) => Ok(RawValueV::Mapping(after, span)),
            Err(error) => Err(error),
        },
    }
}

/// The items of a raw list from index `i` on after a pass.
pub open spec fn passed_raw_items<P: LiteralPass>(
    items: Seq<RawValueV>,
    i: int,
    before: Seq<RawValueV>,
    pass: P::V,
) -> Result<Seq<RawValueV>, ComposeErrorV>
    decreases items, items.len() - i,
{
    if i < 0 || i >= items.len() {
        Ok(before)
    } else {
        match passed_raw::<P>(items[i], pass) {
            Ok(after) => passed_raw_items::<P>(items, i + 1, before.push(after), pass),
            Err(error) => Err(error),
        }
    }
}

/// The entries of a raw map from index `i` on after a pass.
pub open spec fn passed_raw_entries<P: LiteralPass>(
    entries: Seq<(LiteralV, RawValueV)>,
    i: int,
    before: Seq<(LiteralV, RawValueV)>,
    pass: P::V,
) -> Result<Seq<(LiteralV, RawValueV)>, ComposeErrorV>
    decreases entries, entries.len() - i,
{
    if i < 0 || i >= entries.len() {
        Ok(before)
    } else {
        match P::rewrites(pass, entries[i].0) {
            Err(error) => Err(error),
            Ok(key) => match passed_raw::<P>(entries[i].1, pass) {
                Err(error) => Err(error),
                Ok(value) => passed_raw_entries::<P>(
                    entries,
                    i + 1,
                    before.push((key, value)),
                    pass,
                ),
            },
        }
    }
}

fn pass_raw<P: LiteralPass>(value: &RawValue, pass: &P) -> (r: Result<RawValue, ComposeError>)
    ensures
        outcome(r) == passed_raw::<P>(value.deep_view(), pass.deep_view()),
    decreases value,
{
    proof {
        crate::ast::lemma_raw_view(*value);
    }
    match value {
        RawValue::Literal(lit) => match pass.rewrite(lit) {
            Ok(after) => Ok(RawValue::Literal(after)),
            Err(error) => Err(error),
        },
        RawValue::List(items, span) => {
            let mut out: Vec<RawValue> = no_items();
            let mut i: usize = 0;
            while i < items.len()
                invariant
                    i <= items@.len(),
                    decreases_to!(value => items),
                    value.deep_view() == RawValueV::List(items.deep_view(), *span),
                    passed_raw_items::<P>(
                        items.deep_view(),
                        0,
                        Seq::empty(),
                        pass.deep_view(),
                    ) == passed_raw_items::<P>(
                        items.deep_view(),
                        i as int,
                        out.deep_view(),
                        pass.deep_view(),
                    ),
                decreases items@.len() - i,
            {
                match pass_raw(&items[i], pass) {
                    Ok(after) => {
                        push_to(&mut out, after);
                    },
                    Err(error) => {
                        return Err(error);
                    },
                }
                i = i + 1;
            }
            let done = RawValue::List(out, *span);
            proof {
                crate::ast::lemma_raw_view(done);
            }
            Ok(done)
        },
        RawValue::Mapping(entries, span) => {
            let mut out: Vec<(Literal, RawValue)> = no_items();
            let mut i: usize = 0;
            while i < entries.len()
                invariant
                    i <= entries@.len(),
                    decreases_to!(value => entries),
                    value.deep_view() == RawValueV::Mapping(entries.deep_view(), *span),
                    passed_raw_entries::<P>(entries.deep_view(), 0, Seq::empty(), pass.deep_view())
                        == passed_raw_entries::<P>(
                        entries.deep_view(),
                        i as int,
                        out.deep_view(),
                        pass.deep_view(),
                    ),
                decreases entries@.len() - i,
            {
                let entry = &entries[i];
                assert(entries.deep_view()[i as int] == entry.deep_view());
                let key = match pass.rewrite(&entry.0) {
                    Ok(key) => key,
                    Err(error) => {
                        return Err(error);
                    },
                };
                match pass_raw(&entry.1, pass) {
                    Ok(after) => {
                        push_to(&mut out, (key, after));
                    },
                    Err(error) => {
                        return Err(error);
                    },
                }
                i = i + 1;
            }
            let done = RawValue::Mapping(out, *span);
            proof {
                crate::ast::lemma_raw_view(done);
            }
            Ok(done)
        },
    }
}

proof fn lemma_passed_raw_within<P: LiteralPass>(
    value: RawValueV,
    pass: P::V,
    names: Set<Seq<char>>,
)
    requires
        raw_within(value, names),
    ensures
        passed_raw::<P>(value, pass) matches Ok(after) ==> raw_within(after, names),
    decreases value, 0int,
{
    match value {
        RawValueV::Literal(lit) => {
            P::lemma_rewrites_within(pass, lit, names);
        },
        RawValueV::List(items, _) => {
            lemma_passed_raw_items_within::<P>(items, 0, Seq::empty(), pass, names);
        },
        RawValueV::Mapping(entries, _) => {
            lemma_passed_raw_entries_within::<P>(entries, 0, Seq::empty(), pass, names);
        },
    }
}

proof fn lemma_passed_raw_items_within<P: LiteralPass>(
    items: Seq<RawValueV>,
    i: int,
    before: Seq<RawValueV>,
    pass: P::V,
    names: Set<Seq<char>>,
)
    requires
        0 <= i,
        forall|k: int| 0 <= k < items.len() ==> raw_within(#[trigger] items[k], names),
        forall|k: int| 0 <= k < before.len() ==> raw_within(#[trigger] before[k], names),
    ensures
        passed_raw_items::<P>(items, i, before, pass) matches Ok(after) ==> (forall|k: int|
            0 <= k < after.len() ==> raw_within(#[trigger] after[k], names)),
    decreases items, items.len() - i,
{
    if i < items.len() {
        lemma_passed_raw_within::<P>(items[i], pass, names);
        if let Ok(after) = passed_raw::<P>(items[i], pass) {
            lemma_passed_raw_items_within::<P>(items, i + 1, before.push(after), pass, names);
        }
    }
}

proof fn lemma_passed_raw_entries_within<P: LiteralPass>(
    entries: Seq<(LiteralV, RawValueV)>,
    i: int,
    before: Seq<(LiteralV, RawValueV)>,
    pass: P::V,
    names: Set<Seq<char>>,
)
    requires
        0 <= i,
        forall|k: int|
            0 <= k < entries.len() ==> literal_within((#[trigger] entries[k]).0, names)
                && raw_within(entries[k].1, names),
        forall|k: int|
            0 <= k < before.len() ==> literal_within((#[trigger] before[k]).0, names) && raw_within(
                before[k].1,
                names,
            ),
    ensures
        passed_raw_entries::<P>(entries, i, before, pass) matches Ok(after) ==> (forall|k: int|
            0 <= k < after.len() ==> literal_within((#[trigger] after[k]).0, names) && raw_within(
                after[k].1,
                names,
            )),
    decreases entries, entries.len() - i,
{
    if i < entries.len() {
        P::lemma_rewrites_within(pass, entries[i].0, names);
        lemma_passed_raw_within::<P>(entries[i].1, pass, names);
        if let Ok(key) = P::rewrites(pass, entries[i].0) {
            if let Ok(value) = passed_raw::<P>(entries[i].1, pass) {
                lemma_passed_raw_entries_within::<P>(
                    entries,
                    i + 1,
                    before.push((key, value)),
                    pass,
                    names,
                );
            }
        }
    }
}

proof fn lemma_passed_raw_settled<P: LiteralPass>(value: RawValueV, pass: P::V)
    requires
        settles::<P>(pass),
        raw_within(value, Set::empty()),
    ensures
        passed_raw::<P>(value, pass) matches Ok(after) ==> raw_settled(after),
    decreases value, 0int,
{
    match value {
        RawValueV::Literal(lit) => {},
        RawValueV::List(items, _) => {
            lemma_passed_raw_items_settled::<P>(items, 0, Seq::empty(), pass);
        },
        RawValueV::Mapping(entries, _) => {
            lemma_passed_raw_entries_settled::<P>(entries, 0, Seq::empty(), pass);
        },
    }
}

proof fn lemma_passed_raw_items_settled<P: LiteralPass>(
    items: Seq<RawValueV>,
    i: int,
    before: Seq<RawValueV>,
    pass: P::V,
)
    requires
        0 <= i,
        settles::<P>(pass),
        forall|k: int| 0 <= k < items.len() ==> raw_within(#[trigger] items[k], Set::empty()),
        forall|k: int| 0 <= k < before.len() ==> raw_settled(#[trigger] before[k]),
    ensures
        passed_raw_items::<P>(items, i, before, pass) matches Ok(after) ==> (forall|k: int|
            0 <= k < after.len() ==> raw_settled(#[trigger] after[k])),
    decreases items, items.len() - i,
{
    if i < items.len() {
        lemma_passed_raw_settled::<P>(items[i], pass);
        if let Ok(after) = passed_raw::<P>(items[i], pass) {
            lemma_passed_raw_items_settled::<P>(items, i + 1, before.push(after), pass);
        }
    }
}

proof fn lemma_passed_raw_entries_settled<P: LiteralPass>(
    entries: Seq<(LiteralV, RawValueV)>,
    i: int,
    before: Seq<(LiteralV, RawValueV)>,
    pass: P::V,
)
    requires
        0 <= i,
        settles::<P>(pass),
        forall|k: int|
            0 <= k < entries.len() ==> literal_within((#[trigger] entries[k]).0, Set::empty())
                && raw_within(entries[k].1, Set::empty()),
        forall|k: int|
            0 <= k < before.len() ==> literal_settled((#[trigger] before[k]).0) && raw_settled(
                before[k].1,
            ),
    ensures
        passed_raw_entries::<P>(entries, i, before, pass) matches Ok(after) ==> (forall|k: int|
            0 <= k < after.len() ==> literal_settled((#[trigger] after[k]).0) && raw_settled(
                after[k].1,
            )),
    decreases entries, entries.len() - i,
{
    if i < entries.len() {
        lemma_passed_raw_settled::<P>(entries[i].1, pass);
        if let Ok(key) = P::rewrites(pass, entries[i].0) {
            if let Ok(value) = passed_raw::<P>(entries[i].1, pass) {
                lemma_passed_raw_entries_settled::<P>(
                    entries,
                    i + 1,
                    before.push((key, value)),
                    pass,
                );
            }
        }
    }
}

/// A raw value with an invocation's arguments in it. A `$param` that is
/// the whole value becomes its argument, whatever shape that has.
pub open spec fn bound_raw(value: RawValueV, call: CallV, warnings: Seq<ComposeWarningV>) -> Result<
    (RawValueV, Seq<ComposeWarningV>),
    ComposeErrorV,
>
    decreases value, 0int,
{
    match value {
        RawValueV::Literal(LiteralV::Param(name, _)) => match call.arg(name) {
            Some(arg) => Ok((arg, warnings)),
            None => Ok((value, warnings)),
        },
        RawValueV::Literal(lit) => match bound_literal(lit, call, warnings) {
            Ok((after, more)) => Ok((RawValueV::Literal(after), more)),
            Err(error) => Err(error),
        },
        RawValueV::List(items, span) => match bound_raw_items(
            items,
            0,
            Seq::empty(),
            call,
            warnings,
        ) {
            Ok((after, more)) => Ok((RawValueV::List(after, span), more)),
            Err(error) => Err(error),
        },
        RawValueV::Mapping(entries, span) => match bound_raw_entries(
            entries,
            0,
            Seq::empty(),
            call,
            warnings,
        ) {
            Ok((after, more)) => Ok((RawValueV::Mapping(after, span), more)),
            Err(error) => Err(error),
        },
    }
}

/// The items of a raw list from index `i` on with an invocation's
/// arguments in them.
pub open spec fn bound_raw_items(
    items: Seq<RawValueV>,
    i: int,
    before: Seq<RawValueV>,
    call: CallV,
    warnings: Seq<ComposeWarningV>,
) -> Result<(Seq<RawValueV>, Seq<ComposeWarningV>), ComposeErrorV>
    decreases items, items.len() - i,
{
    if i < 0 || i >= items.len() {
        Ok((before, warnings))
    } else {
        match bound_raw(items[i], call, warnings) {
            Ok((after, more)) => bound_raw_items(items, i + 1, before.push(after), call, more),
            Err(error) => Err(error),
        }
    }
}

/// The entries of a raw map from index `i` on with an invocation's
/// arguments in them.
pub open spec fn bound_raw_entries(
    entries: Seq<(LiteralV, RawValueV)>,
    i: int,
    before: Seq<(LiteralV, RawValueV)>,
    call: CallV,
    warnings: Seq<ComposeWarningV>,
) -> Result<(Seq<(LiteralV, RawValueV)>, Seq<ComposeWarningV>), ComposeErrorV>
    decreases entries, entries.len() - i,
{
    if i < 0 || i >= entries.len() {
        Ok((before, warnings))
    } else {
        match bound_literal(entries[i].0, call, warnings) {
            Err(error) => Err(error),
            Ok((key, more)) => match bound_raw(entries[i].1, call, more) {
                Err(error) => Err(error),
                Ok((value, after)) => bound_raw_entries(
                    entries,
                    i + 1,
                    before.push((key, value)),
                    call,
                    after,
                ),
            },
        }
    }
}

fn substitute_raw_value(
    value: &RawValue,
    call: &Call<'_>,
    warnings: &mut Vec<ComposeWarning>,
) -> (r: Result<RawValue, ComposeError>)
    ensures
        stepped(r, final(warnings).deep_view()) == bound_raw(
            value.deep_view(),
            call.deep_view(),
            old(warnings).deep_view(),
        ),
    decreases value,
{
    proof {
        crate::ast::lemma_raw_view(*value);
    }
    match value {
        RawValue::Literal(Literal::Param(name, _)) => match call.arg(name.as_str()) {
            Some(arg) => Ok(arg.duplicate()),
            None => Ok(value.duplicate()),
        },
        RawValue::Literal(lit) => match substitute_literal(lit, call, warnings) {
            Ok(after) => Ok(RawValue::Literal(after)),
            Err(error) => Err(error),
        },
        RawValue::List(items, span) => {
            let mut out: Vec<RawValue> = no_items();
            let mut i: usize = 0;
            while i < items.len()
                invariant
                    i <= items@.len(),
                    decreases_to!(value => items),
                    value.deep_view() == RawValueV::List(items.deep_view(), *span),
                    bound_raw_items(
                        items.deep_view(),
                        0,
                        Seq::empty(),
                        call.deep_view(),
                        old(warnings).deep_view(),
                    ) == bound_raw_items(
                        items.deep_view(),
                        i as int,
                        out.deep_view(),
                        call.deep_view(),
                        warnings.deep_view(),
                    ),
                decreases items@.len() - i,
            {
                match substitute_raw_value(&items[i], call, warnings) {
                    Ok(after) => {
                        push_to(&mut out, after);
                    },
                    Err(error) => {
                        return Err(error);
                    },
                }
                i = i + 1;
            }
            let done = RawValue::List(out, *span);
            proof {
                crate::ast::lemma_raw_view(done);
            }
            Ok(done)
        },
        RawValue::Mapping(entries, span) => {
            let mut out: Vec<(Literal, RawValue)> = no_items();
            let mut i: usize = 0;
            while i < entries.len()
                invariant
                    i <= entries@.len(),
                    decreases_to!(value => entries),
                    value.deep_view() == RawValueV::Mapping(entries.deep_view(), *span),
                    bound_raw_entries(
                        entries.deep_view(),
                        0,
                        Seq::empty(),
                        call.deep_view(),
                        old(warnings).deep_view(),
                    ) == bound_raw_entries(
                        entries.deep_view(),
                        i as int,
                        out.deep_view(),
                        call.deep_view(),
                        warnings.deep_view(),
                    ),
                decreases entries@.len() - i,
            {
                let entry = &entries[i];
                assert(entries.deep_view()[i as int] == entry.deep_view());
                let key = match substitute_literal(&entry.0, call, warnings) {
                    Ok(key) => key,
                    Err(error) => {
                        return Err(error);
                    },
                };
                match substitute_raw_value(&entry.1, call, warnings) {
                    Ok(after) => {
                        push_to(&mut out, (key, after));
                    },
                    Err(error) => {
                        return Err(error);
                    },
                }
                i = i + 1;
            }
            let done = RawValue::Mapping(out, *span);
            proof {
                crate::ast::lemma_raw_view(done);
            }
            Ok(done)
        },
    }
}

proof fn lemma_bound_raw_within(
    value: RawValueV,
    call: CallV,
    warnings: Seq<ComposeWarningV>,
    outer: Set<Seq<char>>,
)
    requires
        raw_within(value, call.names()),
        call.args_within(outer),
    ensures
        bound_raw(value, call, warnings) matches Ok((after, _)) ==> raw_within(after, outer),
    decreases value, 0int,
{
    match value {
        RawValueV::Literal(lit) => {
            lemma_bound_literal_within(lit, call, warnings, outer);
            if let LiteralV::Param(name, _) = lit {
                assert(call.names().contains(name));
                assert(call.arg(name) matches Some(arg) ==> raw_within(arg, outer));
            }
        },
        RawValueV::List(items, _) => {
            lemma_bound_raw_items_within(items, 0, Seq::empty(), call, warnings, outer);
        },
        RawValueV::Mapping(entries, _) => {
            lemma_bound_raw_entries_within(entries, 0, Seq::empty(), call, warnings, outer);
        },
    }
}

proof fn lemma_bound_raw_items_within(
    items: Seq<RawValueV>,
    i: int,
    before: Seq<RawValueV>,
    call: CallV,
    warnings: Seq<ComposeWarningV>,
    outer: Set<Seq<char>>,
)
    requires
        0 <= i,
        call.args_within(outer),
        forall|k: int| 0 <= k < items.len() ==> raw_within(#[trigger] items[k], call.names()),
        forall|k: int| 0 <= k < before.len() ==> raw_within(#[trigger] before[k], outer),
    ensures
        bound_raw_items(items, i, before, call, warnings) matches Ok((after, _)) ==> (forall|k: int|
            0 <= k < after.len() ==> raw_within(#[trigger] after[k], outer)),
    decreases items, items.len() - i,
{
    if i < items.len() {
        lemma_bound_raw_within(items[i], call, warnings, outer);
        if let Ok((after, more)) = bound_raw(items[i], call, warnings) {
            lemma_bound_raw_items_within(items, i + 1, before.push(after), call, more, outer);
        }
    }
}

proof fn lemma_bound_raw_entries_within(
    entries: Seq<(LiteralV, RawValueV)>,
    i: int,
    before: Seq<(LiteralV, RawValueV)>,
    call: CallV,
    warnings: Seq<ComposeWarningV>,
    outer: Set<Seq<char>>,
)
    requires
        0 <= i,
        call.args_within(outer),
        forall|k: int|
            0 <= k < entries.len() ==> literal_within((#[trigger] entries[k]).0, call.names())
                && raw_within(entries[k].1, call.names()),
        forall|k: int|
            0 <= k < before.len() ==> literal_within((#[trigger] before[k]).0, outer) && raw_within(
                before[k].1,
                outer,
            ),
    ensures
        bound_raw_entries(entries, i, before, call, warnings) matches Ok((after, _)) ==> (forall|
            k: int,
        |
            0 <= k < after.len() ==> literal_within((#[trigger] after[k]).0, outer) && raw_within(
                after[k].1,
                outer,
            )),
    decreases entries, entries.len() - i,
{
    if i < entries.len() {
        lemma_bound_literal_within(entries[i].0, call, warnings, outer);
        if let Ok((key, more)) = bound_literal(entries[i].0, call, warnings) {
            lemma_bound_raw_within(entries[i].1, call, more, outer);
            if let Ok((value, after)) = bound_raw(entries[i].1, call, more) {
                lemma_bound_raw_entries_within(
                    entries,
                    i + 1,
                    before.push((key, value)),
                    call,
                    after,
                    outer,
                );
            }
        }
    }
}

proof fn lemma_bound_raw_warns(value: RawValueV, call: CallV, warnings: Seq<ComposeWarningV>)
    ensures
        bound_raw(value, call, warnings) matches Ok((_, after)) ==> grown(warnings, after),
    decreases value, 0int,
{
    match value {
        RawValueV::Literal(lit) => {
            lemma_bound_literal_warns(lit, call, warnings);
        },
        RawValueV::List(items, _) => {
            lemma_bound_raw_items_warn(items, 0, Seq::empty(), call, warnings);
        },
        RawValueV::Mapping(entries, _) => {
            lemma_bound_raw_entries_warn(entries, 0, Seq::empty(), call, warnings);
        },
    }
}

proof fn lemma_bound_raw_items_warn(
    items: Seq<RawValueV>,
    i: int,
    before: Seq<RawValueV>,
    call: CallV,
    warnings: Seq<ComposeWarningV>,
)
    requires
        0 <= i,
    ensures
        bound_raw_items(items, i, before, call, warnings) matches Ok((_, after)) ==> grown(
            warnings,
            after,
        ),
    decreases items, items.len() - i,
{
    if i < items.len() {
        lemma_bound_raw_warns(items[i], call, warnings);
        if let Ok((after, more)) = bound_raw(items[i], call, warnings) {
            lemma_bound_raw_items_warn(items, i + 1, before.push(after), call, more);
        }
    }
}

proof fn lemma_bound_raw_entries_warn(
    entries: Seq<(LiteralV, RawValueV)>,
    i: int,
    before: Seq<(LiteralV, RawValueV)>,
    call: CallV,
    warnings: Seq<ComposeWarningV>,
)
    requires
        0 <= i,
    ensures
        bound_raw_entries(entries, i, before, call, warnings) matches Ok((_, after)) ==> grown(
            warnings,
            after,
        ),
    decreases entries, entries.len() - i,
{
    if i < entries.len() {
        lemma_bound_literal_warns(entries[i].0, call, warnings);
        if let Ok((key, more)) = bound_literal(entries[i].0, call, warnings) {
            lemma_bound_raw_warns(entries[i].1, call, more);
            if let Ok((value, after)) = bound_raw(entries[i].1, call, more) {
                lemma_bound_raw_entries_warn(
                    entries,
                    i + 1,
                    before.push((key, value)),
                    call,
                    after,
                );
            }
        }
    }
}

impl Slots for RawValue {
    open spec fn within(v: RawValueV, names: Set<Seq<char>>) -> bool {
        raw_within(v, names)
    }

    open spec fn settled(v: RawValueV) -> bool {
        raw_settled(v)
    }

    open spec fn bound(v: RawValueV, call: CallV, warnings: Seq<ComposeWarningV>) -> Result<
        (RawValueV, Seq<ComposeWarningV>),
        ComposeErrorV,
    > {
        bound_raw(v, call, warnings)
    }

    fn bind(&self, call: &Call<'_>, warnings: &mut Vec<ComposeWarning>) -> (r: Result<
        Self,
        ComposeError,
    >) {
        substitute_raw_value(self, call, warnings)
    }

    proof fn lemma_bound_within(v: RawValueV, call: CallV, outer: Set<Seq<char>>) {
        assert forall|warnings: Seq<ComposeWarningV>|
            (#[trigger] Self::bound(v, call, warnings)) matches Ok((after, _)) implies Self::within(
            Self::bound(v, call, warnings)->Ok_0.0,
            outer,
        ) by {
            lemma_bound_raw_within(v, call, warnings, outer);
        }
    }

    proof fn lemma_bound_warns(v: RawValueV, call: CallV) {
        assert forall|warnings: Seq<ComposeWarningV>|
            (#[trigger] Self::bound(v, call, warnings)) matches Ok((_, after)) implies grown(
            warnings,
            Self::bound(v, call, warnings)->Ok_0.1,
        ) by {
            lemma_bound_raw_warns(v, call, warnings);
        }
    }
}

impl<P: LiteralPass> Walk<P> for RawValue {
    open spec fn passed(v: RawValueV, pass: P::V) -> Result<
        RawValueV,
        ComposeErrorV,
    > {
        passed_raw::<P>(v, pass)
    }

    fn pass(&self, pass: &P) -> (r: Result<Self, ComposeError>) {
        pass_raw(self, pass)
    }

    proof fn lemma_passed_within(v: RawValueV, pass: P::V, names: Set<Seq<char>>) {
        lemma_passed_raw_within::<P>(v, pass, names);
    }

    proof fn lemma_passed_settled(v: RawValueV, pass: P::V) {
        lemma_passed_raw_settled::<P>(v, pass);
    }
}

/// A number that may be absent, with an invocation's arguments in it.
pub open spec fn bound_optional_number(
    v: Option<LiteralV>,
    call: CallV,
    warnings: Seq<ComposeWarningV>,
) -> Result<(Option<LiteralV>, Seq<ComposeWarningV>), ComposeErrorV> {
    match v {
        Some(lit) => match bound_number(lit, call, warnings) {
            Ok((after, more)) => Ok((Some(after), more)),
            Err(error) => Err(error),
        },
        None => Ok((None, warnings)),
    }
}

fn bind_optional_number(
    v: &Option<Literal>,
    call: &Call<'_>,
    warnings: &mut Vec<ComposeWarning>,
) -> (r: Result<Option<Literal>, ComposeError>)
    ensures
        stepped(r, final(warnings).deep_view()) == bound_optional_number(
            v.deep_view(),
            call.deep_view(),
            old(warnings).deep_view(),
        ),
{
    match v {
        Some(lit) => match substitute_numeric_literal(lit, call, warnings) {
            Ok(after) => Ok(Some(after)),
            Err(error) => Err(error),
        },
        None => Ok(None),
    }
}

proof fn lemma_optional_number_within(v: Option<LiteralV>, call: CallV, outer: Set<Seq<char>>)
    requires
        Option::<Literal>::within(v, call.names()),
        call.args_within(outer),
    ensures
        forall|warnings: Seq<ComposeWarningV>|
            (#[trigger] bound_optional_number(v, call, warnings)) matches Ok((after, _))
                ==> Option::<Literal>::within(after, outer),
{
    assert forall|warnings: Seq<ComposeWarningV>|
        (#[trigger] bound_optional_number(v, call, warnings)) matches Ok(
            (after, _),
        ) implies Option::<
        Literal,
    >::within(bound_optional_number(v, call, warnings)->Ok_0.0, outer) by {
        if let Some(lit) = v {
            lemma_bound_literal_within(lit, call, warnings, outer);
        }
    }
}

/// The list that a reference stands for, if it is a `$param` whose
/// argument is a list.
pub open spec fn spliced_list(reference: LiteralV, call: CallV) -> Option<
    (Seq<char>, Seq<RawValueV>),
> {
    match reference {
        LiteralV::Param(name, _) => match call.arg(name) {
            Some(RawValueV::List(items, _)) => Some((name, items)),
            _ => None,
        },
        _ => None,
    }
}

/// The items of a list that takes the place of a `$param` among
/// references, from index `j` on, behind the references before them.
pub open spec fn spliced(
    items: Seq<RawValueV>,
    j: int,
    before: Seq<LiteralV>,
    param: Seq<char>,
    call: CallV,
) -> Result<Seq<LiteralV>, ComposeErrorV>
    decreases items.len() - j,
{
    if j >= items.len() {
        Ok(before)
    } else {
        match spliced_item(items[j], param, call) {
            Ok(lit) => spliced(items, j + 1, before.push(lit), param, call),
            Err(error) => Err(error),
        }
    }
}

fn splice(items: &Vec<RawValue>, param: &str, call: &Call<'_>, out: &mut Vec<Literal>) -> (r:
    Result<(), ComposeError>)
    ensures
        match r {
            Ok(_) => spliced(
                items.deep_view(),
                0,
                old(out).deep_view(),
                param@,
                call.deep_view(),
            ) == Ok::<Seq<LiteralV>, ComposeErrorV>(final(out).deep_view()),
            Err(error) => spliced(
                items.deep_view(),
                0,
                old(out).deep_view(),
                param@,
                call.deep_view(),
            ) == Err::<Seq<LiteralV>, ComposeErrorV>(error.deep_view()),
        },
{
    let mut j: usize = 0;
    while j < items.len()
        invariant
            j <= items@.len(),
            spliced(items.deep_view(), 0, old(out).deep_view(), param@, call.deep_view())
                == spliced(
                items.deep_view(),
                j as int,
                out.deep_view(),
                param@,
                call.deep_view(),
            ),
        decreases items@.len() - j,
    {
        match reference_list_item(&items[j], param, call) {
            Ok(lit) => {
                push_to(out, lit);
            },
            Err(error) => {
                return Err(error);
            },
        }
        j = j + 1;
    }
    Ok(())
}

/// The references from index `i` on with an invocation's arguments in
/// them: a `$param` whose argument is a list is replaced by the list's
/// items, where it stood.
pub open spec fn bound_references_from(
    refs: Seq<LiteralV>,
    i: int,
    before: Seq<LiteralV>,
    call: CallV,
    warnings: Seq<ComposeWarningV>,
) -> Result<(Seq<LiteralV>, Seq<ComposeWarningV>), ComposeErrorV>
    decreases refs.len() - i,
{
    if i >= refs.len() {
        Ok((before, warnings))
    } else {
        match spliced_list(refs[i], call) {
            Some((param, items)) => match spliced(items, 0, before, param, call) {
                Ok(more) => bound_references_from(refs, i + 1, more, call, warnings),
                Err(error) => Err(error),
            },
            None => match bound_reference(refs[i], call, warnings) {
                Ok((lit, after)) => bound_references_from(
                    refs,
                    i + 1,
                    before.push(lit),
                    call,
                    after,
                ),
                Err(error) => Err(error),
            },
        }
    }
}

/// A list of references with an invocation's arguments in it.
pub open spec fn bound_references(
    refs: Seq<LiteralV>,
    call: CallV,
    warnings: Seq<ComposeWarningV>,
) -> Result<(Seq<LiteralV>, Seq<ComposeWarningV>), ComposeErrorV> {
    bound_references_from(refs, 0, Seq::empty(), call, warnings)
}

fn substitute_reference_list(
    refs: &Vec<Literal>,
    call: &Call<'_>,
    warnings: &mut Vec<ComposeWarning>,
) -> (r: Result<Vec<Literal>, ComposeError>)
    ensures
        stepped(r, final(warnings).deep_view()) == bound_references(
            refs.deep_view(),
            call.deep_view(),
            old(warnings).deep_view(),
        ),
{
    let mut out: Vec<Literal> = no_items();
    let mut i: usize = 0;
    while i < refs.len()
        invariant
            i <= refs@.len(),
            bound_references(refs.deep_view(), call.deep_view(), old(warnings).deep_view())
                == bound_references_from(
                refs.deep_view(),
                i as int,
                out.deep_view(),
                call.deep_view(),
                warnings.deep_view(),
            ),
        decreases refs@.len() - i,
    {
        let lit = &refs[i];
        assert(refs.deep_view()[i as int] == lit.deep_view());
        let bound = bound_list(lit, call);
        if let Some((param, items)) = bound {
            if let Err(error) = splice(items, param, call, &mut out) {
                return Err(error);
            }
        } else {
            match substitute_reference_literal(lit, call, warnings) {
                Ok(after) => {
                    push_to(&mut out, after);
                },
                Err(error) => {
                    return Err(error);
                },
            }
        }
        i = i + 1;
    }
    Ok(out)
}

/// The list that a reference stands for, if it is a `$param` whose
/// argument is a list.
fn bound_list<'a>(reference: &'a Literal, call: &Call<'a>) -> (r: Option<
    (&'a str, &'a Vec<RawValue>),
>)
    ensures
        r.deep_view() == spliced_list(reference.deep_view(), call.deep_view()),
{
    match reference {
        Literal::Param(name, _) => match call.arg(name.as_str()) {
            Some(arg) => {
                proof {
                    crate::ast::lemma_raw_view(*arg);
                }
                match arg {
                    RawValue::List(items, _) => Some((name.as_str(), items)),
                    _ => None,
                }
            },
            None => None,
        },
        _ => None,
    }
}

/// The same entry for each of a list's items: what a `depends_on` entry
/// becomes when its reference stands for a list.
pub open spec fn spliced_dependencies(
    items: Seq<RawValueV>,
    j: int,
    before: Seq<DependsOnEntryV>,
    entry: DependsOnEntryV,
    param: Seq<char>,
    call: CallV,
) -> Result<Seq<DependsOnEntryV>, ComposeErrorV>
    decreases items.len() - j,
{
    if j >= items.len() {
        Ok(before)
    } else {
        match spliced_item(items[j], param, call) {
            Ok(lit) => spliced_dependencies(
                items,
                j + 1,
                before.push(DependsOnEntryV { reference: lit, ..entry }),
                entry,
                param,
                call,
            ),
            Err(error) => Err(error),
        }
    }
}

/// The `depends_on` entries from index `i` on with an invocation's
/// arguments in them.
pub open spec fn bound_dependencies_from(
    entries: Seq<DependsOnEntryV>,
    i: int,
    before: Seq<DependsOnEntryV>,
    call: CallV,
    warnings: Seq<ComposeWarningV>,
) -> Result<(Seq<DependsOnEntryV>, Seq<ComposeWarningV>), ComposeErrorV>
    decreases entries.len() - i,
{
    if i >= entries.len() {
        Ok((before, warnings))
    } else {
        match spliced_list(entries[i].reference, call) {
            Some((param, items)) => match spliced_dependencies(
                items,
                0,
                before,
                entries[i],
                param,
                call,
            ) {
                Ok(more) => bound_dependencies_from(entries, i + 1, more, call, warnings),
                Err(error) => Err(error),
            },
            None => match bound_reference(entries[i].reference, call, warnings) {
                Ok((lit, after)) => bound_dependencies_from(
                    entries,
                    i + 1,
                    before.push(DependsOnEntryV { reference: lit, ..entries[i] }),
                    call,
                    after,
                ),
                Err(error) => Err(error),
            },
        }
    }
}

/// A `depends_on` field with an invocation's arguments in it.
pub open spec fn bound_dependencies(
    entries: Seq<DependsOnEntryV>,
    call: CallV,
    warnings: Seq<ComposeWarningV>,
) -> Result<(Seq<DependsOnEntryV>, Seq<ComposeWarningV>), ComposeErrorV> {
    bound_dependencies_from(entries, 0, Seq::empty(), call, warnings)
}

fn splice_dependencies(
    items: &Vec<RawValue>,
    entry: &DependsOnEntry,
    param: &str,
    call: &Call<'_>,
    out: &mut Vec<DependsOnEntry>,
) -> (r: Result<(), ComposeError>)
    ensures
        match r {
            Ok(_) => spliced_dependencies(
                items.deep_view(),
                0,
                old(out).deep_view(),
                entry.deep_view(),
                param@,
                call.deep_view(),
            ) == Ok::<Seq<DependsOnEntryV>, ComposeErrorV>(final(out).deep_view()),
            Err(error) => spliced_dependencies(
                items.deep_view(),
                0,
                old(out).deep_view(),
                entry.deep_view(),
                param@,
                call.deep_view(),
            ) == Err::<Seq<DependsOnEntryV>, ComposeErrorV>(error.deep_view()),
        },
{
    let mut j: usize = 0;
    while j < items.len()
        invariant
            j <= items@.len(),
            spliced_dependencies(
                items.deep_view(),
                0,
                old(out).deep_view(),
                entry.deep_view(),
                param@,
                call.deep_view(),
            ) == spliced_dependencies(
                items.deep_view(),
                j as int,
                out.deep_view(),
                entry.deep_view(),
                param@,
                call.deep_view(),
            ),
        decreases items@.len() - j,
    {
        match reference_list_item(&items[j], param, call) {
            Ok(lit) => {
                push_to(
                    out,
                    DependsOnEntry {
                        reference: lit,
                        condition: entry.condition.duplicate(),
                        span: entry.span,
                    },
                );
            },
            Err(error) => {
                return Err(error);
            },
        }
        j = j + 1;
    }
    Ok(())
}

fn substitute_dependencies(
    entries: &Vec<DependsOnEntry>,
    call: &Call<'_>,
    warnings: &mut Vec<ComposeWarning>,
) -> (r: Result<Vec<DependsOnEntry>, ComposeError>)
    ensures
        stepped(r, final(warnings).deep_view()) == bound_dependencies(
            entries.deep_view(),
            call.deep_view(),
            old(warnings).deep_view(),
        ),
{
    let mut out: Vec<DependsOnEntry> = no_items();
    let mut i: usize = 0;
    while i < entries.len()
        invariant
            i <= entries@.len(),
            bound_dependencies(entries.deep_view(), call.deep_view(), old(warnings).deep_view())
                == bound_dependencies_from(
                entries.deep_view(),
                i as int,
                out.deep_view(),
                call.deep_view(),
                warnings.deep_view(),
            ),
        decreases entries@.len() - i,
    {
        let entry = &entries[i];
        assert(entries.deep_view()[i as int] == entry.deep_view());
        let bound = bound_list(&entry.reference, call);
        if let Some((param, items)) = bound {
            if let Err(error) = splice_dependencies(items, entry, param, call, &mut out) {
                return Err(error);
            }
        } else {
            match substitute_reference_literal(&entry.reference, call, warnings) {
                Ok(after) => {
                    push_to(
                        &mut out,
                        DependsOnEntry {
                            reference: after,
                            condition: entry.condition.duplicate(),
                            span: entry.span,
                        },
                    );
                },
                Err(error) => {
                    return Err(error);
                },
            }
        }
        i = i + 1;
    }
    Ok(out)
}

proof fn lemma_spliced_item_within(
    item: RawValueV,
    param: Seq<char>,
    call: CallV,
    outer: Set<Seq<char>>,
)
    requires
        raw_within(item, outer),
    ensures
        spliced_item(item, param, call) matches Ok(lit) ==> literal_within(lit, outer),
{
}

proof fn lemma_spliced_within(
    items: Seq<RawValueV>,
    j: int,
    before: Seq<LiteralV>,
    param: Seq<char>,
    call: CallV,
    outer: Set<Seq<char>>,
)
    requires
        0 <= j,
        forall|k: int| 0 <= k < items.len() ==> raw_within(#[trigger] items[k], outer),
        Vec::<Literal>::within(before, outer),
    ensures
        spliced(items, j, before, param, call) matches Ok(after) ==> Vec::<Literal>::within(
            after,
            outer,
        ),
    decreases items.len() - j,
{
    if j < items.len() {
        lemma_spliced_item_within(items[j], param, call, outer);
        if let Ok(lit) = spliced_item(items[j], param, call) {
            lemma_spliced_within(items, j + 1, before.push(lit), param, call, outer);
        }
    }
}

proof fn lemma_spliced_dependencies_within(
    items: Seq<RawValueV>,
    j: int,
    before: Seq<DependsOnEntryV>,
    entry: DependsOnEntryV,
    param: Seq<char>,
    call: CallV,
    outer: Set<Seq<char>>,
)
    requires
        0 <= j,
        forall|k: int| 0 <= k < items.len() ==> raw_within(#[trigger] items[k], outer),
        Vec::<DependsOnEntry>::within(before, outer),
    ensures
        spliced_dependencies(items, j, before, entry, param, call) matches Ok(after) ==> Vec::<
            DependsOnEntry,
        >::within(after, outer),
    decreases items.len() - j,
{
    if j < items.len() {
        lemma_spliced_item_within(items[j], param, call, outer);
        if let Ok(lit) = spliced_item(items[j], param, call) {
            lemma_spliced_dependencies_within(
                items,
                j + 1,
                before.push(DependsOnEntryV { reference: lit, ..entry }),
                entry,
                param,
                call,
                outer,
            );
        }
    }
}

proof fn lemma_references_from_within(
    refs: Seq<LiteralV>,
    i: int,
    before: Seq<LiteralV>,
    call: CallV,
    warnings: Seq<ComposeWarningV>,
    outer: Set<Seq<char>>,
)
    requires
        0 <= i,
        call.args_within(outer),
        Vec::<Literal>::within(refs, call.names()),
        Vec::<Literal>::within(before, outer),
    ensures
        bound_references_from(refs, i, before, call, warnings) matches Ok((after, _)) ==> Vec::<
            Literal,
        >::within(after, outer),
    decreases refs.len() - i,
{
    if i < refs.len() {
        assert(Literal::within(refs[i], call.names()));
        if let Some((param, items)) = spliced_list(refs[i], call) {
            assert(call.arg(param) matches Some(value) ==> raw_within(value, outer));
            lemma_spliced_within(items, 0, before, param, call, outer);
            if let Ok(more) = spliced(items, 0, before, param, call) {
                lemma_references_from_within(refs, i + 1, more, call, warnings, outer);
            }
        } else {
            lemma_bound_literal_within(refs[i], call, warnings, outer);
            if let Ok((lit, after)) = bound_reference(refs[i], call, warnings) {
                lemma_references_from_within(refs, i + 1, before.push(lit), call, after, outer);
            }
        }
    }
}

proof fn lemma_dependencies_from_within(
    entries: Seq<DependsOnEntryV>,
    i: int,
    before: Seq<DependsOnEntryV>,
    call: CallV,
    warnings: Seq<ComposeWarningV>,
    outer: Set<Seq<char>>,
)
    requires
        0 <= i,
        call.args_within(outer),
        Vec::<DependsOnEntry>::within(entries, call.names()),
        Vec::<DependsOnEntry>::within(before, outer),
    ensures
        bound_dependencies_from(entries, i, before, call, warnings) matches Ok((after, _))
            ==> Vec::<DependsOnEntry>::within(after, outer),
    decreases entries.len() - i,
{
    if i < entries.len() {
        assert(DependsOnEntry::within(entries[i], call.names()));
        if let Some((param, items)) = spliced_list(entries[i].reference, call) {
            assert(call.arg(param) matches Some(value) ==> raw_within(value, outer));
            lemma_spliced_dependencies_within(items, 0, before, entries[i], param, call, outer);
            if let Ok(more) = spliced_dependencies(items, 0, before, entries[i], param, call) {
                lemma_dependencies_from_within(entries, i + 1, more, call, warnings, outer);
            }
        } else {
            lemma_bound_literal_within(entries[i].reference, call, warnings, outer);
            if let Ok((lit, after)) = bound_reference(entries[i].reference, call, warnings) {
                lemma_dependencies_from_within(
                    entries,
                    i + 1,
                    before.push(DependsOnEntryV { reference: lit, ..entries[i] }),
                    call,
                    after,
                    outer,
                );
            }
        }
    }
}

proof fn lemma_references_within(refs: Seq<LiteralV>, call: CallV, outer: Set<Seq<char>>)
    requires
        call.args_within(outer),
        Vec::<Literal>::within(refs, call.names()),
    ensures
        forall|warnings: Seq<ComposeWarningV>|
            (#[trigger] bound_references(refs, call, warnings)) matches Ok((after, _)) ==> Vec::<
                Literal,
            >::within(after, outer),
{
    assert forall|warnings: Seq<ComposeWarningV>|
        (#[trigger] bound_references(refs, call, warnings)) matches Ok((after, _)) implies Vec::<
        Literal,
    >::within(bound_references(refs, call, warnings)->Ok_0.0, outer) by {
        lemma_references_from_within(refs, 0, Seq::empty(), call, warnings, outer);
    }
}

proof fn lemma_dependencies_within(
    entries: Seq<DependsOnEntryV>,
    call: CallV,
    outer: Set<Seq<char>>,
)
    requires
        call.args_within(outer),
        Vec::<DependsOnEntry>::within(entries, call.names()),
    ensures
        forall|warnings: Seq<ComposeWarningV>|
            (#[trigger] bound_dependencies(entries, call, warnings)) matches Ok((after, _))
                ==> Vec::<DependsOnEntry>::within(after, outer),
{
    assert forall|warnings: Seq<ComposeWarningV>|
        (#[trigger] bound_dependencies(entries, call, warnings)) matches Ok(
            (after, _),
        ) implies Vec::<
        DependsOnEntry,
    >::within(bound_dependencies(entries, call, warnings)->Ok_0.0, outer) by {
        lemma_dependencies_from_within(entries, 0, Seq::empty(), call, warnings, outer);
    }
}

proof fn lemma_optional_number_warns(v: Option<LiteralV>, call: CallV)
    ensures
        forall|warnings: Seq<ComposeWarningV>|
            (#[trigger] bound_optional_number(v, call, warnings)) matches Ok((_, after)) ==> grown(
                warnings,
                after,
            ),
{
    assert forall|warnings: Seq<ComposeWarningV>|
        (#[trigger] bound_optional_number(v, call, warnings)) matches Ok((_, after)) implies grown(
        warnings,
        bound_optional_number(v, call, warnings)->Ok_0.1,
    ) by {
        if let Some(lit) = v {
            lemma_bound_literal_warns(lit, call, warnings);
        }
    }
}

proof fn lemma_references_from_warn(
    refs: Seq<LiteralV>,
    i: int,
    before: Seq<LiteralV>,
    call: CallV,
    warnings: Seq<ComposeWarningV>,
)
    requires
        0 <= i,
    ensures
        bound_references_from(refs, i, before, call, warnings) matches Ok((_, after)) ==> grown(
            warnings,
            after,
        ),
    decreases refs.len() - i,
{
    if i < refs.len() {
        if let Some((param, items)) = spliced_list(refs[i], call) {
            if let Ok(more) = spliced(items, 0, before, param, call) {
                lemma_references_from_warn(refs, i + 1, more, call, warnings);
            }
        } else {
            lemma_bound_literal_warns(refs[i], call, warnings);
            if let Ok((lit, after)) = bound_reference(refs[i], call, warnings) {
                lemma_references_from_warn(refs, i + 1, before.push(lit), call, after);
            }
        }
    }
}

proof fn lemma_references_warn(refs: Seq<LiteralV>, call: CallV)
    ensures
        forall|warnings: Seq<ComposeWarningV>|
            (#[trigger] bound_references(refs, call, warnings)) matches Ok((_, after)) ==> grown(
                warnings,
                after,
            ),
{
    assert forall|warnings: Seq<ComposeWarningV>|
        (#[trigger] bound_references(refs, call, warnings)) matches Ok((_, after)) implies grown(
        warnings,
        bound_references(refs, call, warnings)->Ok_0.1,
    ) by {
        lemma_references_from_warn(refs, 0, Seq::empty(), call, warnings);
    }
}

proof fn lemma_dependencies_from_warn(
    entries: Seq<DependsOnEntryV>,
    i: int,
    before: Seq<DependsOnEntryV>,
    call: CallV,
    warnings: Seq<ComposeWarningV>,
)
    requires
        0 <= i,
    ensures
        bound_dependencies_from(entries, i, before, call, warnings) matches Ok((_, after))
            ==> grown(warnings, after),
    decreases entries.len() - i,
{
    if i < entries.len() {
        if let Some((param, items)) = spliced_list(entries[i].reference, call) {
            if let Ok(more) = spliced_dependencies(items, 0, before, entries[i], param, call) {
                lemma_dependencies_from_warn(entries, i + 1, more, call, warnings);
            }
        } else {
            lemma_bound_literal_warns(entries[i].reference, call, warnings);
            if let Ok((lit, after)) = bound_reference(entries[i].reference, call, warnings) {
                lemma_dependencies_from_warn(
                    entries,
                    i + 1,
                    before.push(DependsOnEntryV { reference: lit, ..entries[i] }),
                    call,
                    after,
                );
            }
        }
    }
}

proof fn lemma_dependencies_warn(entries: Seq<DependsOnEntryV>, call: CallV)
    ensures
        forall|warnings: Seq<ComposeWarningV>|
            (#[trigger] bound_dependencies(entries, call, warnings)) matches Ok((_, after))
                ==> grown(warnings, after),
{
    assert forall|warnings: Seq<ComposeWarningV>|
        (#[trigger] bound_dependencies(entries, call, warnings)) matches Ok(
            (_, after),
        ) implies grown(
        warnings,
        bound_dependencies(entries, call, warnings)->Ok_0.1,
    ) by {
        lemma_dependencies_from_warn(entries, 0, Seq::empty(), call, warnings);
    }
}

impl Slots for EnvEntry {
    open spec fn within(v: EnvEntryV, names: Set<Seq<char>>) -> bool {
        &&& Literal::within(v.key, names)
        &&& Literal::within(v.value, names)
    }

    open spec fn settled(v: EnvEntryV) -> bool {
        &&& Literal::settled(v.key)
        &&& Literal::settled(v.value)
    }

    open spec fn bound(v: EnvEntryV, call: CallV, warnings: Seq<ComposeWarningV>) -> Result<
        (EnvEntryV, Seq<ComposeWarningV>),
        ComposeErrorV,
    > {
        match Literal::bound(v.key, call, warnings) {
            Err(error) => Err(error),
            Ok((key, w1)) => match Literal::bound(v.value, call, w1) {
                Err(error) => Err(error),
                Ok((value, after)) => Ok((EnvEntryV { key, value, ..v }, after)),
            },
        }
    }

    fn bind(
        &self,
        call: &Call<'_>,
        warnings: &mut Vec<ComposeWarning>,
    ) -> (r: Result<Self, ComposeError>) {
        let key = match self.key.bind(call, warnings) {
            Ok(value) => value,
            Err(error) => {
                return Err(error);
            },
        };
        let value = match self.value.bind(call, warnings) {
            Ok(value) => value,
            Err(error) => {
                return Err(error);
            },
        };
        Ok(
            EnvEntry {
                key,
                value,
                span: self.span.duplicate(),
            },
        )
    }

    proof fn lemma_bound_within(v: EnvEntryV, call: CallV, outer: Set<Seq<char>>) {
        Literal::lemma_bound_within(v.key, call, outer);
        Literal::lemma_bound_within(v.value, call, outer);
    }

    proof fn lemma_bound_warns(v: EnvEntryV, call: CallV) {
        broadcast use lemma_grown_twice;

        Literal::lemma_bound_warns(v.key, call);
        Literal::lemma_bound_warns(v.value, call);
    }
}

impl<P: LiteralPass> Walk<P> for EnvEntry {
    open spec fn passed(v: EnvEntryV, pass: P::V) -> Result<EnvEntryV, ComposeErrorV> {
        match <Literal as Walk<P>>::passed(v.key, pass) {
            Err(error) => Err(error),
            Ok(key) => match <Literal as Walk<P>>::passed(v.value, pass) {
                Err(error) => Err(error),
                Ok(value) => Ok(EnvEntryV { key, value, ..v }),
            },
        }
    }

    fn pass(&self, pass: &P) -> (r: Result<Self, ComposeError>) {
        let key = match self.key.pass(pass) {
            Ok(value) => value,
            Err(error) => {
                return Err(error);
            },
        };
        let value = match self.value.pass(pass) {
            Ok(value) => value,
            Err(error) => {
                return Err(error);
            },
        };
        Ok(
            EnvEntry {
                key,
                value,
                span: self.span.duplicate(),
            },
        )
    }

    proof fn lemma_passed_within(v: EnvEntryV, pass: P::V, names: Set<Seq<char>>) {
        <Literal as Walk<P>>::lemma_passed_within(v.key, pass, names);
        <Literal as Walk<P>>::lemma_passed_within(v.value, pass, names);
    }

    proof fn lemma_passed_settled(v: EnvEntryV, pass: P::V) {
        <Literal as Walk<P>>::lemma_passed_settled(v.key, pass);
        <Literal as Walk<P>>::lemma_passed_settled(v.value, pass);
    }
}

impl Slots for LabelEntry {
    open spec fn within(v: LabelEntryV, names: Set<Seq<char>>) -> bool {
        &&& Literal::within(v.key, names)
        &&& LabelValue::within(v.value, names)
    }

    open spec fn settled(v: LabelEntryV) -> bool {
        &&& Literal::settled(v.key)
        &&& LabelValue::settled(v.value)
    }

    open spec fn bound(v: LabelEntryV, call: CallV, warnings: Seq<ComposeWarningV>) -> Result<
        (LabelEntryV, Seq<ComposeWarningV>),
        ComposeErrorV,
    > {
        match Literal::bound(v.key, call, warnings) {
            Err(error) => Err(error),
            Ok((key, w1)) => match LabelValue::bound(v.value, call, w1) {
                Err(error) => Err(error),
                Ok((value, after)) => Ok((LabelEntryV { key, value, ..v }, after)),
            },
        }
    }

    fn bind(
        &self,
        call: &Call<'_>,
        warnings: &mut Vec<ComposeWarning>,
    ) -> (r: Result<Self, ComposeError>) {
        let key = match self.key.bind(call, warnings) {
            Ok(value) => value,
            Err(error) => {
                return Err(error);
            },
        };
        let value = match self.value.bind(call, warnings) {
            Ok(value) => value,
            Err(error) => {
                return Err(error);
            },
        };
        Ok(
            LabelEntry {
                key,
                value,
                span: self.span.duplicate(),
            },
        )
    }

    proof fn lemma_bound_within(v: LabelEntryV, call: CallV, outer: Set<Seq<char>>) {
        Literal::lemma_bound_within(v.key, call, outer);
        LabelValue::lemma_bound_within(v.value, call, outer);
    }

    proof fn lemma_bound_warns(v: LabelEntryV, call: CallV) {
        broadcast use lemma_grown_twice;

        Literal::lemma_bound_warns(v.key, call);
        LabelValue::lemma_bound_warns(v.value, call);
    }
}

impl<P: LiteralPass> Walk<P> for LabelEntry {
    open spec fn passed(v: LabelEntryV, pass: P::V) -> Result<LabelEntryV, ComposeErrorV> {
        match <Literal as Walk<P>>::passed(v.key, pass) {
            Err(error) => Err(error),
            Ok(key) => match <LabelValue as Walk<P>>::passed(v.value, pass) {
                Err(error) => Err(error),
                Ok(value) => Ok(LabelEntryV { key, value, ..v }),
            },
        }
    }

    fn pass(&self, pass: &P) -> (r: Result<Self, ComposeError>) {
        let key = match self.key.pass(pass) {
            Ok(value) => value,
            Err(error) => {
                return Err(error);
            },
        };
        let value = match self.value.pass(pass) {
            Ok(value) => value,
            Err(error) => {
                return Err(error);
            },
        };
        Ok(
            LabelEntry {
                key,
                value,
                span: self.span.duplicate(),
            },
        )
    }

    proof fn lemma_passed_within(v: LabelEntryV, pass: P::V, names: Set<Seq<char>>) {
        <Literal as Walk<P>>::lemma_passed_within(v.key, pass, names);
        <LabelValue as Walk<P>>::lemma_passed_within(v.value, pass, names);
    }

    proof fn lemma_passed_settled(v: LabelEntryV, pass: P::V) {
        <Literal as Walk<P>>::lemma_passed_settled(v.key, pass);
        <LabelValue as Walk<P>>::lemma_passed_settled(v.value, pass);
    }
}

impl Slots for RawEntry {
    open spec fn within(v: RawEntryV, names: Set<Seq<char>>) -> bool {
        &&& Literal::within(v.key, names)
        &&& RawValue::within(v.value, names)
    }

    open spec fn settled(v: RawEntryV) -> bool {
        &&& Literal::settled(v.key)
        &&& RawValue::settled(v.value)
    }

    open spec fn bound(v: RawEntryV, call: CallV, warnings: Seq<ComposeWarningV>) -> Result<
        (RawEntryV, Seq<ComposeWarningV>),
        ComposeErrorV,
    > {
        match Literal::bound(v.key, call, warnings) {
            Err(error) => Err(error),
            Ok((key, w1)) => match RawValue::bound(v.value, call, w1) {
                Err(error) => Err(error),
                Ok((value, after)) => Ok((RawEntryV { key, value, ..v }, after)),
            },
        }
    }

    fn bind(
        &self,
        call: &Call<'_>,
        warnings: &mut Vec<ComposeWarning>,
    ) -> (r: Result<Self, ComposeError>) {
        let key = match self.key.bind(call, warnings) {
            Ok(value) => value,
            Err(error) => {
                return Err(error);
            },
        };
        let value = match self.value.bind(call, warnings) {
            Ok(value) => value,
            Err(error) => {
                return Err(error);
            },
        };
        Ok(
            RawEntry {
                key,
                value,
                span: self.span.duplicate(),
            },
        )
    }

    proof fn lemma_bound_within(v: RawEntryV, call: CallV, outer: Set<Seq<char>>) {
        Literal::lemma_bound_within(v.key, call, outer);
        RawValue::lemma_bound_within(v.value, call, outer);
    }

    proof fn lemma_bound_warns(v: RawEntryV, call: CallV) {
        broadcast use lemma_grown_twice;

        Literal::lemma_bound_warns(v.key, call);
        RawValue::lemma_bound_warns(v.value, call);
    }
}

impl<P: LiteralPass> Walk<P> for RawEntry {
    open spec fn passed(v: RawEntryV, pass: P::V) -> Result<RawEntryV, ComposeErrorV> {
        match <Literal as Walk<P>>::passed(v.key, pass) {
            Err(error) => Err(error),
            Ok(key) => match <RawValue as Walk<P>>::passed(v.value, pass) {
                Err(error) => Err(error),
                Ok(value) => Ok(RawEntryV { key, value, ..v }),
            },
        }
    }

    fn pass(&self, pass: &P) -> (r: Result<Self, ComposeError>) {
        let key = match self.key.pass(pass) {
            Ok(value) => value,
            Err(error) => {
                return Err(error);
            },
        };
        let value = match self.value.pass(pass) {
            Ok(value) => value,
            Err(error) => {
                return Err(error);
            },
        };
        Ok(
            RawEntry {
                key,
                value,
                span: self.span.duplicate(),
            },
        )
    }

    proof fn lemma_passed_within(v: RawEntryV, pass: P::V, names: Set<Seq<char>>) {
        <Literal as Walk<P>>::lemma_passed_within(v.key, pass, names);
        <RawValue as Walk<P>>::lemma_passed_within(v.value, pass, names);
    }

    proof fn lemma_passed_settled(v: RawEntryV, pass: P::V) {
        <Literal as Walk<P>>::lemma_passed_settled(v.key, pass);
        <RawValue as Walk<P>>::lemma_passed_settled(v.value, pass);
    }
}

impl Slots for ArrowMapEntry {
    open spec fn within(v: ArrowMapEntryV, names: Set<Seq<char>>) -> bool {
        &&& ArrowMapHost::within(v.host, names)
        &&& Literal::within(v.container, names)
    }

    open spec fn settled(v: ArrowMapEntryV) -> bool {
        &&& ArrowMapHost::settled(v.host)
        &&& Literal::settled(v.container)
    }

    open spec fn bound(v: ArrowMapEntryV, call: CallV, warnings: Seq<ComposeWarningV>) -> Result<
        (ArrowMapEntryV, Seq<ComposeWarningV>),
        ComposeErrorV,
    > {
        match ArrowMapHost::bound(v.host, call, warnings) {
            Err(error) => Err(error),
            Ok((host, w1)) => match Literal::bound(v.container, call, w1) {
                Err(error) => Err(error),
                Ok((container, after)) => Ok((ArrowMapEntryV { host, container, ..v }, after)),
            },
        }
    }

    fn bind(
        &self,
        call: &Call<'_>,
        warnings: &mut Vec<ComposeWarning>,
    ) -> (r: Result<Self, ComposeError>) {
        let host = match self.host.bind(call, warnings) {
            Ok(value) => value,
            Err(error) => {
                return Err(error);
            },
        };
        let container = match self.container.bind(call, warnings) {
            Ok(value) => value,
            Err(error) => {
                return Err(error);
            },
        };
        Ok(
            ArrowMapEntry {
                host,
                container,
                read_only: self.read_only.duplicate(),
                span: self.span.duplicate(),
            },
        )
    }

    proof fn lemma_bound_within(v: ArrowMapEntryV, call: CallV, outer: Set<Seq<char>>) {
        ArrowMapHost::lemma_bound_within(v.host, call, outer);
        Literal::lemma_bound_within(v.container, call, outer);
    }

    proof fn lemma_bound_warns(v: ArrowMapEntryV, call: CallV) {
        broadcast use lemma_grown_twice;

        ArrowMapHost::lemma_bound_warns(v.host, call);
        Literal::lemma_bound_warns(v.container, call);
    }
}

impl<P: LiteralPass> Walk<P> for ArrowMapEntry {
    open spec fn passed(v: ArrowMapEntryV, pass: P::V) -> Result<ArrowMapEntryV, ComposeErrorV> {
        match <ArrowMapHost as Walk<P>>::passed(v.host, pass) {
            Err(error) => Err(error),
            Ok(host) => match <Literal as Walk<P>>::passed(v.container, pass) {
                Err(error) => Err(error),
                Ok(container) => Ok(ArrowMapEntryV { host, container, ..v }),
            },
        }
    }

    fn pass(&self, pass: &P) -> (r: Result<Self, ComposeError>) {
        let host = match self.host.pass(pass) {
            Ok(value) => value,
            Err(error) => {
                return Err(error);
            },
        };
        let container = match self.container.pass(pass) {
            Ok(value) => value,
            Err(error) => {
                return Err(error);
            },
        };
        Ok(
            ArrowMapEntry {
                host,
                container,
                read_only: self.read_only.duplicate(),
                span: self.span.duplicate(),
            },
        )
    }

    proof fn lemma_passed_within(v: ArrowMapEntryV, pass: P::V, names: Set<Seq<char>>) {
        <ArrowMapHost as Walk<P>>::lemma_passed_within(v.host, pass, names);
        <Literal as Walk<P>>::lemma_passed_within(v.container, pass, names);
    }

    proof fn lemma_passed_settled(v: ArrowMapEntryV, pass: P::V) {
        <ArrowMapHost as Walk<P>>::lemma_passed_settled(v.host, pass);
        <Literal as Walk<P>>::lemma_passed_settled(v.container, pass);
    }
}

impl Slots for ArrowMap {
    open spec fn within(v: ArrowMapV, names: Set<Seq<char>>) -> bool {
        &&& Vec::<ArrowMapEntry>::within(v.entries, names)
    }

    open spec fn settled(v: ArrowMapV) -> bool {
        &&& Vec::<ArrowMapEntry>::settled(v.entries)
    }

    open spec fn bound(v: ArrowMapV, call: CallV, warnings: Seq<ComposeWarningV>) -> Result<
        (ArrowMapV, Seq<ComposeWarningV>),
        ComposeErrorV,
    > {
        match Vec::<ArrowMapEntry>::bound(v.entries, call, warnings) {
            Err(error) => Err(error),
            Ok((entries, after)) => Ok((ArrowMapV { entries }, after)),
        }
    }

    fn bind(
        &self,
        call: &Call<'_>,
        warnings: &mut Vec<ComposeWarning>,
    ) -> (r: Result<Self, ComposeError>) {
        let entries = match self.entries.bind(call, warnings) {
            Ok(value) => value,
            Err(error) => {
                return Err(error);
            },
        };
        Ok(
            ArrowMap {
                entries,
            },
        )
    }

    proof fn lemma_bound_within(v: ArrowMapV, call: CallV, outer: Set<Seq<char>>) {
        Vec::<ArrowMapEntry>::lemma_bound_within(v.entries, call, outer);
    }

    proof fn lemma_bound_warns(v: ArrowMapV, call: CallV) {
        Vec::<ArrowMapEntry>::lemma_bound_warns(v.entries, call);
    }
}

impl<P: LiteralPass> Walk<P> for ArrowMap {
    open spec fn passed(v: ArrowMapV, pass: P::V) -> Result<ArrowMapV, ComposeErrorV> {
        match <Vec<ArrowMapEntry> as Walk<P>>::passed(v.entries, pass) {
            Err(error) => Err(error),
            Ok(entries) => Ok(ArrowMapV { entries }),
        }
    }

    fn pass(&self, pass: &P) -> (r: Result<Self, ComposeError>) {
        let entries = match self.entries.pass(pass) {
            Ok(value) => value,
            Err(error) => {
                return Err(error);
            },
        };
        Ok(
            ArrowMap {
                entries,
            },
        )
    }

    proof fn lemma_passed_within(v: ArrowMapV, pass: P::V, names: Set<Seq<char>>) {
        <Vec<ArrowMapEntry> as Walk<P>>::lemma_passed_within(v.entries, pass, names);
    }

    proof fn lemma_passed_settled(v: ArrowMapV, pass: P::V) {
        <Vec<ArrowMapEntry> as Walk<P>>::lemma_passed_settled(v.entries, pass);
    }
}

impl Slots for EnvMap {
    open spec fn within(v: EnvMapV, names: Set<Seq<char>>) -> bool {
        &&& Vec::<EnvEntry>::within(v.entries, names)
    }

    open spec fn settled(v: EnvMapV) -> bool {
        &&& Vec::<EnvEntry>::settled(v.entries)
    }

    open spec fn bound(v: EnvMapV, call: CallV, warnings: Seq<ComposeWarningV>) -> Result<
        (EnvMapV, Seq<ComposeWarningV>),
        ComposeErrorV,
    > {
        match Vec::<EnvEntry>::bound(v.entries, call, warnings) {
            Err(error) => Err(error),
            Ok((entries, after)) => Ok((EnvMapV { entries }, after)),
        }
    }

    fn bind(
        &self,
        call: &Call<'_>,
        warnings: &mut Vec<ComposeWarning>,
    ) -> (r: Result<Self, ComposeError>) {
        let entries = match self.entries.bind(call, warnings) {
            Ok(value) => value,
            Err(error) => {
                return Err(error);
            },
        };
        Ok(
            EnvMap {
                entries,
            },
        )
    }

    proof fn lemma_bound_within(v: EnvMapV, call: CallV, outer: Set<Seq<char>>) {
        Vec::<EnvEntry>::lemma_bound_within(v.entries, call, outer);
    }

    proof fn lemma_bound_warns(v: EnvMapV, call: CallV) {
        Vec::<EnvEntry>::lemma_bound_warns(v.entries, call);
    }
}

impl<P: LiteralPass> Walk<P> for EnvMap {
    open spec fn passed(v: EnvMapV, pass: P::V) -> Result<EnvMapV, ComposeErrorV> {
        match <Vec<EnvEntry> as Walk<P>>::passed(v.entries, pass) {
            Err(error) => Err(error),
            Ok(entries) => Ok(EnvMapV { entries }),
        }
    }

    fn pass(&self, pass: &P) -> (r: Result<Self, ComposeError>) {
        let entries = match self.entries.pass(pass) {
            Ok(value) => value,
            Err(error) => {
                return Err(error);
            },
        };
        Ok(
            EnvMap {
                entries,
            },
        )
    }

    proof fn lemma_passed_within(v: EnvMapV, pass: P::V, names: Set<Seq<char>>) {
        <Vec<EnvEntry> as Walk<P>>::lemma_passed_within(v.entries, pass, names);
    }

    proof fn lemma_passed_settled(v: EnvMapV, pass: P::V) {
        <Vec<EnvEntry> as Walk<P>>::lemma_passed_settled(v.entries, pass);
    }
}

impl Slots for LabelMap {
    open spec fn within(v: LabelMapV, names: Set<Seq<char>>) -> bool {
        &&& Vec::<LabelEntry>::within(v.entries, names)
    }

    open spec fn settled(v: LabelMapV) -> bool {
        &&& Vec::<LabelEntry>::settled(v.entries)
    }

    open spec fn bound(v: LabelMapV, call: CallV, warnings: Seq<ComposeWarningV>) -> Result<
        (LabelMapV, Seq<ComposeWarningV>),
        ComposeErrorV,
    > {
        match Vec::<LabelEntry>::bound(v.entries, call, warnings) {
            Err(error) => Err(error),
            Ok((entries, after)) => Ok((LabelMapV { entries }, after)),
        }
    }

    fn bind(
        &self,
        call: &Call<'_>,
        warnings: &mut Vec<ComposeWarning>,
    ) -> (r: Result<Self, ComposeError>) {
        let entries = match self.entries.bind(call, warnings) {
            Ok(value) => value,
            Err(error) => {
                return Err(error);
            },
        };
        Ok(
            LabelMap {
                entries,
            },
        )
    }

    proof fn lemma_bound_within(v: LabelMapV, call: CallV, outer: Set<Seq<char>>) {
        Vec::<LabelEntry>::lemma_bound_within(v.entries, call, outer);
    }

    proof fn lemma_bound_warns(v: LabelMapV, call: CallV) {
        Vec::<LabelEntry>::lemma_bound_warns(v.entries, call);
    }
}

impl<P: LiteralPass> Walk<P> for LabelMap {
    open spec fn passed(v: LabelMapV, pass: P::V) -> Result<LabelMapV, ComposeErrorV> {
        match <Vec<LabelEntry> as Walk<P>>::passed(v.entries, pass) {
            Err(error) => Err(error),
            Ok(entries) => Ok(LabelMapV { entries }),
        }
    }

    fn pass(&self, pass: &P) -> (r: Result<Self, ComposeError>) {
        let entries = match self.entries.pass(pass) {
            Ok(value) => value,
            Err(error) => {
                return Err(error);
            },
        };
        Ok(
            LabelMap {
                entries,
            },
        )
    }

    proof fn lemma_passed_within(v: LabelMapV, pass: P::V, names: Set<Seq<char>>) {
        <Vec<LabelEntry> as Walk<P>>::lemma_passed_within(v.entries, pass, names);
    }

    proof fn lemma_passed_settled(v: LabelMapV, pass: P::V) {
        <Vec<LabelEntry> as Walk<P>>::lemma_passed_settled(v.entries, pass);
    }
}

impl Slots for RawMap {
    open spec fn within(v: RawMapV, names: Set<Seq<char>>) -> bool {
        &&& Vec::<RawEntry>::within(v.entries, names)
    }

    open spec fn settled(v: RawMapV) -> bool {
        &&& Vec::<RawEntry>::settled(v.entries)
    }

    open spec fn bound(v: RawMapV, call: CallV, warnings: Seq<ComposeWarningV>) -> Result<
        (RawMapV, Seq<ComposeWarningV>),
        ComposeErrorV,
    > {
        match Vec::<RawEntry>::bound(v.entries, call, warnings) {
            Err(error) => Err(error),
            Ok((entries, after)) => Ok((RawMapV { entries }, after)),
        }
    }

    fn bind(
        &self,
        call: &Call<'_>,
        warnings: &mut Vec<ComposeWarning>,
    ) -> (r: Result<Self, ComposeError>) {
        let entries = match self.entries.bind(call, warnings) {
            Ok(value) => value,
            Err(error) => {
                return Err(error);
            },
        };
        Ok(
            RawMap {
                entries,
            },
        )
    }

    proof fn lemma_bound_within(v: RawMapV, call: CallV, outer: Set<Seq<char>>) {
        Vec::<RawEntry>::lemma_bound_within(v.entries, call, outer);
    }

    proof fn lemma_bound_warns(v: RawMapV, call: CallV) {
        Vec::<RawEntry>::lemma_bound_warns(v.entries, call);
    }
}

impl<P: LiteralPass> Walk<P> for RawMap {
    open spec fn passed(v: RawMapV, pass: P::V) -> Result<RawMapV, ComposeErrorV> {
        match <Vec<RawEntry> as Walk<P>>::passed(v.entries, pass) {
            Err(error) => Err(error),
            Ok(entries) => Ok(RawMapV { entries }),
        }
    }

    fn pass(&self, pass: &P) -> (r: Result<Self, ComposeError>) {
        let entries = match self.entries.pass(pass) {
            Ok(value) => value,
            Err(error) => {
                return Err(error);
            },
        };
        Ok(
            RawMap {
                entries,
            },
        )
    }

    proof fn lemma_passed_within(v: RawMapV, pass: P::V, names: Set<Seq<char>>) {
        <Vec<RawEntry> as Walk<P>>::lemma_passed_within(v.entries, pass, names);
    }

    proof fn lemma_passed_settled(v: RawMapV, pass: P::V) {
        <Vec<RawEntry> as Walk<P>>::lemma_passed_settled(v.entries, pass);
    }
}

impl Slots for TemplateInvocation {
    open spec fn within(v: TemplateInvocationV, names: Set<Seq<char>>) -> bool {
        &&& RawMap::within(v.args, names)
    }

    open spec fn settled(v: TemplateInvocationV) -> bool {
        &&& RawMap::settled(v.args)
    }

    open spec fn bound(
        v: TemplateInvocationV,
        call: CallV,
        warnings: Seq<ComposeWarningV>,
    ) -> Result<
        (TemplateInvocationV, Seq<ComposeWarningV>),
        ComposeErrorV,
    > {
        match RawMap::bound(v.args, call, warnings) {
            Err(error) => Err(error),
            Ok((args, after)) => Ok((TemplateInvocationV { args, ..v }, after)),
        }
    }

    fn bind(
        &self,
        call: &Call<'_>,
        warnings: &mut Vec<ComposeWarning>,
    ) -> (r: Result<Self, ComposeError>) {
        let args = match self.args.bind(call, warnings) {
            Ok(value) => value,
            Err(error) => {
                return Err(error);
            },
        };
        Ok(
            TemplateInvocation {
                qualifier: self.qualifier.duplicate(),
                name: self.name.duplicate(),
                args,
                span: self.span.duplicate(),
            },
        )
    }

    proof fn lemma_bound_within(v: TemplateInvocationV, call: CallV, outer: Set<Seq<char>>) {
        RawMap::lemma_bound_within(v.args, call, outer);
    }

    proof fn lemma_bound_warns(v: TemplateInvocationV, call: CallV) {
        RawMap::lemma_bound_warns(v.args, call);
    }
}

impl<P: LiteralPass> Walk<P> for TemplateInvocation {
    open spec fn passed(
        v: TemplateInvocationV,
        pass: P::V,
    ) -> Result<TemplateInvocationV, ComposeErrorV> {
        match <RawMap as Walk<P>>::passed(v.args, pass) {
            Err(error) => Err(error),
            Ok(args) => Ok(TemplateInvocationV { args, ..v }),
        }
    }

    fn pass(&self, pass: &P) -> (r: Result<Self, ComposeError>) {
        let args = match self.args.pass(pass) {
            Ok(value) => value,
            Err(error) => {
                return Err(error);
            },
        };
        Ok(
            TemplateInvocation {
                qualifier: self.qualifier.duplicate(),
                name: self.name.duplicate(),
                args,
                span: self.span.duplicate(),
            },
        )
    }

    proof fn lemma_passed_within(v: TemplateInvocationV, pass: P::V, names: Set<Seq<char>>) {
        <RawMap as Walk<P>>::lemma_passed_within(v.args, pass, names);
    }

    proof fn lemma_passed_settled(v: TemplateInvocationV, pass: P::V) {
        <RawMap as Walk<P>>::lemma_passed_settled(v.args, pass);
    }
}

impl Slots for Image {
    open spec fn within(v: ImageV, names: Set<Seq<char>>) -> bool {
        &&& Option::<Literal>::within(v.reference, names)
    }

    open spec fn settled(v: ImageV) -> bool {
        &&& Option::<Literal>::settled(v.reference)
    }

    open spec fn bound(v: ImageV, call: CallV, warnings: Seq<ComposeWarningV>) -> Result<
        (ImageV, Seq<ComposeWarningV>),
        ComposeErrorV,
    > {
        match Option::<Literal>::bound(v.reference, call, warnings) {
            Err(error) => Err(error),
            Ok((reference, after)) => Ok((ImageV { reference, ..v }, after)),
        }
    }

    fn bind(
        &self,
        call: &Call<'_>,
        warnings: &mut Vec<ComposeWarning>,
    ) -> (r: Result<Self, ComposeError>) {
        let reference = match self.reference.bind(call, warnings) {
            Ok(value) => value,
            Err(error) => {
                return Err(error);
            },
        };
        Ok(
            Image {
                reference,
                span: self.span.duplicate(),
            },
        )
    }

    proof fn lemma_bound_within(v: ImageV, call: CallV, outer: Set<Seq<char>>) {
        Option::<Literal>::lemma_bound_within(v.reference, call, outer);
    }

    proof fn lemma_bound_warns(v: ImageV, call: CallV) {
        Option::<Literal>::lemma_bound_warns(v.reference, call);
    }
}

impl<P: LiteralPass> Walk<P> for Image {
    open spec fn passed(v: ImageV, pass: P::V) -> Result<ImageV, ComposeErrorV> {
        match <Option<Literal> as Walk<P>>::passed(v.reference, pass) {
            Err(error) => Err(error),
            Ok(reference) => Ok(ImageV { reference, ..v }),
        }
    }

    fn pass(&self, pass: &P) -> (r: Result<Self, ComposeError>) {
        let reference = match self.reference.pass(pass) {
            Ok(value) => value,
            Err(error) => {
                return Err(error);
            },
        };
        Ok(
            Image {
                reference,
                span: self.span.duplicate(),
            },
        )
    }

    proof fn lemma_passed_within(v: ImageV, pass: P::V, names: Set<Seq<char>>) {
        <Option<Literal> as Walk<P>>::lemma_passed_within(v.reference, pass, names);
    }

    proof fn lemma_passed_settled(v: ImageV, pass: P::V) {
        <Option<Literal> as Walk<P>>::lemma_passed_settled(v.reference, pass);
    }
}

impl Slots for Build {
    open spec fn within(v: BuildV, names: Set<Seq<char>>) -> bool {
        &&& Option::<Literal>::within(v.context, names)
        &&& Option::<Literal>::within(v.dockerfile, names)
    }

    open spec fn settled(v: BuildV) -> bool {
        &&& Option::<Literal>::settled(v.context)
        &&& Option::<Literal>::settled(v.dockerfile)
    }

    open spec fn bound(v: BuildV, call: CallV, warnings: Seq<ComposeWarningV>) -> Result<
        (BuildV, Seq<ComposeWarningV>),
        ComposeErrorV,
    > {
        match Option::<Literal>::bound(v.context, call, warnings) {
            Err(error) => Err(error),
            Ok((context, w1)) => match Option::<Literal>::bound(v.dockerfile, call, w1) {
                Err(error) => Err(error),
                Ok((dockerfile, after)) => Ok((BuildV { context, dockerfile, ..v }, after)),
            },
        }
    }

    fn bind(
        &self,
        call: &Call<'_>,
        warnings: &mut Vec<ComposeWarning>,
    ) -> (r: Result<Self, ComposeError>) {
        let context = match self.context.bind(call, warnings) {
            Ok(value) => value,
            Err(error) => {
                return Err(error);
            },
        };
        let dockerfile = match self.dockerfile.bind(call, warnings) {
            Ok(value) => value,
            Err(error) => {
                return Err(error);
            },
        };
        Ok(
            Build {
                context,
                dockerfile,
                span: self.span.duplicate(),
            },
        )
    }

    proof fn lemma_bound_within(v: BuildV, call: CallV, outer: Set<Seq<char>>) {
        Option::<Literal>::lemma_bound_within(v.context, call, outer);
        Option::<Literal>::lemma_bound_within(v.dockerfile, call, outer);
    }

    proof fn lemma_bound_warns(v: BuildV, call: CallV) {
        broadcast use lemma_grown_twice;

        Option::<Literal>::lemma_bound_warns(v.context, call);
        Option::<Literal>::lemma_bound_warns(v.dockerfile, call);
    }
}

impl<P: LiteralPass> Walk<P> for Build {
    open spec fn passed(v: BuildV, pass: P::V) -> Result<BuildV, ComposeErrorV> {
        match <Option<Literal> as Walk<P>>::passed(v.context, pass) {
            Err(error) => Err(error),
            Ok(context) => match <Option<Literal> as Walk<P>>::passed(v.dockerfile, pass) {
                Err(error) => Err(error),
                Ok(dockerfile) => Ok(BuildV { context, dockerfile, ..v }),
            },
        }
    }

    fn pass(&self, pass: &P) -> (r: Result<Self, ComposeError>) {
        let context = match self.context.pass(pass) {
            Ok(value) => value,
            Err(error) => {
                return Err(error);
            },
        };
        let dockerfile = match self.dockerfile.pass(pass) {
            Ok(value) => value,
            Err(error) => {
                return Err(error);
            },
        };
        Ok(
            Build {
                context,
                dockerfile,
                span: self.span.duplicate(),
            },
        )
    }

    proof fn lemma_passed_within(v: BuildV, pass: P::V, names: Set<Seq<char>>) {
        <Option<Literal> as Walk<P>>::lemma_passed_within(v.context, pass, names);
        <Option<Literal> as Walk<P>>::lemma_passed_within(v.dockerfile, pass, names);
    }

    proof fn lemma_passed_settled(v: BuildV, pass: P::V) {
        <Option<Literal> as Walk<P>>::lemma_passed_settled(v.context, pass);
        <Option<Literal> as Walk<P>>::lemma_passed_settled(v.dockerfile, pass);
    }
}

impl Slots for Restart {
    open spec fn within(v: RestartV, names: Set<Seq<char>>) -> bool {
        &&& Option::<Literal>::within(v.policy, names)
    }

    open spec fn settled(v: RestartV) -> bool {
        &&& Option::<Literal>::settled(v.policy)
    }

    open spec fn bound(v: RestartV, call: CallV, warnings: Seq<ComposeWarningV>) -> Result<
        (RestartV, Seq<ComposeWarningV>),
        ComposeErrorV,
    > {
        match Option::<Literal>::bound(v.policy, call, warnings) {
            Err(error) => Err(error),
            Ok((policy, after)) => Ok((RestartV { policy, ..v }, after)),
        }
    }

    fn bind(
        &self,
        call: &Call<'_>,
        warnings: &mut Vec<ComposeWarning>,
    ) -> (r: Result<Self, ComposeError>) {
        let policy = match self.policy.bind(call, warnings) {
            Ok(value) => value,
            Err(error) => {
                return Err(error);
            },
        };
        Ok(
            Restart {
                policy,
                span: self.span.duplicate(),
            },
        )
    }

    proof fn lemma_bound_within(v: RestartV, call: CallV, outer: Set<Seq<char>>) {
        Option::<Literal>::lemma_bound_within(v.policy, call, outer);
    }

    proof fn lemma_bound_warns(v: RestartV, call: CallV) {
        Option::<Literal>::lemma_bound_warns(v.policy, call);
    }
}

impl<P: LiteralPass> Walk<P> for Restart {
    open spec fn passed(v: RestartV, pass: P::V) -> Result<RestartV, ComposeErrorV> {
        match <Option<Literal> as Walk<P>>::passed(v.policy, pass) {
            Err(error) => Err(error),
            Ok(policy) => Ok(RestartV { policy, ..v }),
        }
    }

    fn pass(&self, pass: &P) -> (r: Result<Self, ComposeError>) {
        let policy = match self.policy.pass(pass) {
            Ok(value) => value,
            Err(error) => {
                return Err(error);
            },
        };
        Ok(
            Restart {
                policy,
                span: self.span.duplicate(),
            },
        )
    }

    proof fn lemma_passed_within(v: RestartV, pass: P::V, names: Set<Seq<char>>) {
        <Option<Literal> as Walk<P>>::lemma_passed_within(v.policy, pass, names);
    }

    proof fn lemma_passed_settled(v: RestartV, pass: P::V) {
        <Option<Literal> as Walk<P>>::lemma_passed_settled(v.policy, pass);
    }
}

impl Slots for DependsOnEntry {
    open spec fn within(v: DependsOnEntryV, names: Set<Seq<char>>) -> bool {
        &&& Literal::within(v.reference, names)
    }

    open spec fn settled(v: DependsOnEntryV) -> bool {
        &&& Literal::settled(v.reference)
    }

    open spec fn bound(v: DependsOnEntryV, call: CallV, warnings: Seq<ComposeWarningV>) -> Result<
        (DependsOnEntryV, Seq<ComposeWarningV>),
        ComposeErrorV,
    > {
        match Literal::bound(v.reference, call, warnings) {
            Err(error) => Err(error),
            Ok((reference, after)) => Ok((DependsOnEntryV { reference, ..v }, after)),
        }
    }

    fn bind(
        &self,
        call: &Call<'_>,
        warnings: &mut Vec<ComposeWarning>,
    ) -> (r: Result<Self, ComposeError>) {
        let reference = match self.reference.bind(call, warnings) {
            Ok(value) => value,
            Err(error) => {
                return Err(error);
            },
        };
        Ok(
            DependsOnEntry {
                reference,
                condition: self.condition.duplicate(),
                span: self.span.duplicate(),
            },
        )
    }

    proof fn lemma_bound_within(v: DependsOnEntryV, call: CallV, outer: Set<Seq<char>>) {
        Literal::lemma_bound_within(v.reference, call, outer);
    }

    proof fn lemma_bound_warns(v: DependsOnEntryV, call: CallV) {
        Literal::lemma_bound_warns(v.reference, call);
    }
}

impl<P: LiteralPass> Walk<P> for DependsOnEntry {
    open spec fn passed(v: DependsOnEntryV, pass: P::V) -> Result<DependsOnEntryV, ComposeErrorV> {
        match <Literal as Walk<P>>::passed(v.reference, pass) {
            Err(error) => Err(error),
            Ok(reference) => Ok(DependsOnEntryV { reference, ..v }),
        }
    }

    fn pass(&self, pass: &P) -> (r: Result<Self, ComposeError>) {
        let reference = match self.reference.pass(pass) {
            Ok(value) => value,
            Err(error) => {
                return Err(error);
            },
        };
        Ok(
            DependsOnEntry {
                reference,
                condition: self.condition.duplicate(),
                span: self.span.duplicate(),
            },
        )
    }

    proof fn lemma_passed_within(v: DependsOnEntryV, pass: P::V, names: Set<Seq<char>>) {
        <Literal as Walk<P>>::lemma_passed_within(v.reference, pass, names);
    }

    proof fn lemma_passed_settled(v: DependsOnEntryV, pass: P::V) {
        <Literal as Walk<P>>::lemma_passed_settled(v.reference, pass);
    }
}

impl Slots for Expose {
    open spec fn within(v: ExposeV, names: Set<Seq<char>>) -> bool {
        &&& Option::<Literal>::within(v.port, names)
    }

    open spec fn settled(v: ExposeV) -> bool {
        &&& Option::<Literal>::settled(v.port)
    }

    open spec fn bound(v: ExposeV, call: CallV, warnings: Seq<ComposeWarningV>) -> Result<
        (ExposeV, Seq<ComposeWarningV>),
        ComposeErrorV,
    > {
        match bound_optional_number(v.port, call, warnings) {
            Err(error) => Err(error),
            Ok((port, after)) => Ok((ExposeV { port, ..v }, after)),
        }
    }

    fn bind(
        &self,
        call: &Call<'_>,
        warnings: &mut Vec<ComposeWarning>,
    ) -> (r: Result<Self, ComposeError>) {
        let port = match bind_optional_number(&self.port, call, warnings) {
            Ok(value) => value,
            Err(error) => {
                return Err(error);
            },
        };
        Ok(
            Expose {
                port,
                span: self.span.duplicate(),
            },
        )
    }

    proof fn lemma_bound_within(v: ExposeV, call: CallV, outer: Set<Seq<char>>) {
        lemma_optional_number_within(v.port, call, outer);
    }

    proof fn lemma_bound_warns(v: ExposeV, call: CallV) {
        lemma_optional_number_warns(v.port, call);
    }
}

impl<P: LiteralPass> Walk<P> for Expose {
    open spec fn passed(v: ExposeV, pass: P::V) -> Result<ExposeV, ComposeErrorV> {
        match <Option<Literal> as Walk<P>>::passed(v.port, pass) {
            Err(error) => Err(error),
            Ok(port) => Ok(ExposeV { port, ..v }),
        }
    }

    fn pass(&self, pass: &P) -> (r: Result<Self, ComposeError>) {
        let port = match self.port.pass(pass) {
            Ok(value) => value,
            Err(error) => {
                return Err(error);
            },
        };
        Ok(
            Expose {
                port,
                span: self.span.duplicate(),
            },
        )
    }

    proof fn lemma_passed_within(v: ExposeV, pass: P::V, names: Set<Seq<char>>) {
        <Option<Literal> as Walk<P>>::lemma_passed_within(v.port, pass, names);
    }

    proof fn lemma_passed_settled(v: ExposeV, pass: P::V) {
        <Option<Literal> as Walk<P>>::lemma_passed_settled(v.port, pass);
    }
}

impl Slots for Healthcheck {
    open spec fn within(v: HealthcheckV, names: Set<Seq<char>>) -> bool {
        &&& Option::<HealthcheckTest>::within(v.test, names)
        &&& Option::<Literal>::within(v.interval, names)
        &&& Option::<Literal>::within(v.timeout, names)
        &&& Option::<Literal>::within(v.retries, names)
        &&& Option::<Literal>::within(v.start_period, names)
        &&& Option::<Literal>::within(v.start_interval, names)
    }

    open spec fn settled(v: HealthcheckV) -> bool {
        &&& Option::<HealthcheckTest>::settled(v.test)
        &&& Option::<Literal>::settled(v.interval)
        &&& Option::<Literal>::settled(v.timeout)
        &&& Option::<Literal>::settled(v.retries)
        &&& Option::<Literal>::settled(v.start_period)
        &&& Option::<Literal>::settled(v.start_interval)
    }

    open spec fn bound(v: HealthcheckV, call: CallV, warnings: Seq<ComposeWarningV>) -> Result<
        (HealthcheckV, Seq<ComposeWarningV>),
        ComposeErrorV,
    > {
        match Option::<HealthcheckTest>::bound(v.test, call, warnings) {
            Err(error) => Err(error),
            Ok((test, w1)) => match bound_optional_number(v.retries, call, w1) {
                Err(error) => Err(error),
                Ok((retries, w2)) => match Option::<Literal>::bound(v.interval, call, w2) {
                    Err(error) => Err(error),
                    Ok((interval, w3)) => match Option::<Literal>::bound(v.timeout, call, w3) {
                        Err(error) => Err(error),
                        Ok((timeout, w4)) => match Option::<Literal>::bound(
                            v.start_period,
                            call,
                            w4,
                        ) {
                            Err(error) => Err(error),
                            Ok((start_period, w5)) => match Option::<Literal>::bound(
                                v.start_interval,
                                call,
                                w5,
                            ) {
                                Err(error) => Err(error),
                                Ok((start_interval, after)) => Ok(
                                    (
                                        HealthcheckV {
                                            test,
                                            retries,
                                            interval,
                                            timeout,
                                            start_period,
                                            start_interval,
                                            ..v
                                        },
                                        after,
                                    ),
                                ),
                            },
                        },
                    },
                },
            },
        }
    }

    fn bind(
        &self,
        call: &Call<'_>,
        warnings: &mut Vec<ComposeWarning>,
    ) -> (r: Result<Self, ComposeError>) {
        let test = match self.test.bind(call, warnings) {
            Ok(value) => value,
            Err(error) => {
                return Err(error);
            },
        };
        let retries = match bind_optional_number(&self.retries, call, warnings) {
            Ok(value) => value,
            Err(error) => {
                return Err(error);
            },
        };
        let interval = match self.interval.bind(call, warnings) {
            Ok(value) => value,
            Err(error) => {
                return Err(error);
            },
        };
        let timeout = match self.timeout.bind(call, warnings) {
            Ok(value) => value,
            Err(error) => {
                return Err(error);
            },
        };
        let start_period = match self.start_period.bind(call, warnings) {
            Ok(value) => value,
            Err(error) => {
                return Err(error);
            },
        };
        let start_interval = match self.start_interval.bind(call, warnings) {
            Ok(value) => value,
            Err(error) => {
                return Err(error);
            },
        };
        Ok(
            Healthcheck {
                test,
                interval,
                timeout,
                retries,
                start_period,
                start_interval,
                disable: self.disable.duplicate(),
                span: self.span.duplicate(),
            },
        )
    }

    proof fn lemma_bound_within(v: HealthcheckV, call: CallV, outer: Set<Seq<char>>) {
        Option::<HealthcheckTest>::lemma_bound_within(v.test, call, outer);
        lemma_optional_number_within(v.retries, call, outer);
        Option::<Literal>::lemma_bound_within(v.interval, call, outer);
        Option::<Literal>::lemma_bound_within(v.timeout, call, outer);
        Option::<Literal>::lemma_bound_within(v.start_period, call, outer);
        Option::<Literal>::lemma_bound_within(v.start_interval, call, outer);
    }

    proof fn lemma_bound_warns(v: HealthcheckV, call: CallV) {
        broadcast use lemma_grown_twice;

        Option::<HealthcheckTest>::lemma_bound_warns(v.test, call);
        lemma_optional_number_warns(v.retries, call);
        Option::<Literal>::lemma_bound_warns(v.interval, call);
        Option::<Literal>::lemma_bound_warns(v.timeout, call);
        Option::<Literal>::lemma_bound_warns(v.start_period, call);
        Option::<Literal>::lemma_bound_warns(v.start_interval, call);
    }
}

impl<P: LiteralPass> Walk<P> for Healthcheck {
    open spec fn passed(v: HealthcheckV, pass: P::V) -> Result<HealthcheckV, ComposeErrorV> {
        match <Option<HealthcheckTest> as Walk<P>>::passed(v.test, pass) {
            Err(error) => Err(error),
            Ok(test) => match <Option<Literal> as Walk<P>>::passed(v.interval, pass) {
                Err(error) => Err(error),
                Ok(interval) => match <Option<Literal> as Walk<P>>::passed(v.timeout, pass) {
                    Err(error) => Err(error),
                    Ok(timeout) => match <Option<Literal> as Walk<P>>::passed(v.retries, pass) {
                        Err(error) => Err(error),
                        Ok(retries) => match <Option<Literal> as Walk<P>>::passed(
                            v.start_period,
                            pass,
                        ) {
                            Err(error) => Err(error),
                            Ok(start_period) => match <Option<Literal> as Walk<P>>::passed(
                                v.start_interval,
                                pass,
                            ) {
                                Err(error) => Err(error),
                                Ok(start_interval) => Ok(
                                    HealthcheckV {
                                        test,
                                        interval,
                                        timeout,
                                        retries,
                                        start_period,
                                        start_interval,
                                        ..v
                                    },
                                ),
                            },
                        },
                    },
                },
            },
        }
    }

    fn pass(&self, pass: &P) -> (r: Result<Self, ComposeError>) {
        let test = match self.test.pass(pass) {
            Ok(value) => value,
            Err(error) => {
                return Err(error);
            },
        };
        let interval = match self.interval.pass(pass) {
            Ok(value) => value,
            Err(error) => {
                return Err(error);
            },
        };
        let timeout = match self.timeout.pass(pass) {
            Ok(value) => value,
            Err(error) => {
                return Err(error);
            },
        };
        let retries = match self.retries.pass(pass) {
            Ok(value) => value,
            Err(error) => {
                return Err(error);
            },
        };
        let start_period = match self.start_period.pass(pass) {
            Ok(value) => value,
            Err(error) => {
                return Err(error);
            },
        };
        let start_interval = match self.start_interval.pass(pass) {
            Ok(value) => value,
            Err(error) => {
                return Err(error);
            },
        };
        Ok(
            Healthcheck {
                test,
                interval,
                timeout,
                retries,
                start_period,
                start_interval,
                disable: self.disable.duplicate(),
                span: self.span.duplicate(),
            },
        )
    }

    proof fn lemma_passed_within(v: HealthcheckV, pass: P::V, names: Set<Seq<char>>) {
        <Option<HealthcheckTest> as Walk<P>>::lemma_passed_within(v.test, pass, names);
        <Option<Literal> as Walk<P>>::lemma_passed_within(v.interval, pass, names);
        <Option<Literal> as Walk<P>>::lemma_passed_within(v.timeout, pass, names);
        <Option<Literal> as Walk<P>>::lemma_passed_within(v.retries, pass, names);
        <Option<Literal> as Walk<P>>::lemma_passed_within(v.start_period, pass, names);
        <Option<Literal> as Walk<P>>::lemma_passed_within(v.start_interval, pass, names);
    }

    proof fn lemma_passed_settled(v: HealthcheckV, pass: P::V) {
        <Option<HealthcheckTest> as Walk<P>>::lemma_passed_settled(v.test, pass);
        <Option<Literal> as Walk<P>>::lemma_passed_settled(v.interval, pass);
        <Option<Literal> as Walk<P>>::lemma_passed_settled(v.timeout, pass);
        <Option<Literal> as Walk<P>>::lemma_passed_settled(v.retries, pass);
        <Option<Literal> as Walk<P>>::lemma_passed_settled(v.start_period, pass);
        <Option<Literal> as Walk<P>>::lemma_passed_settled(v.start_interval, pass);
    }
}

// The order in which the fields are walked decides which of several
// errors is reported, and in which order warnings are raised.

/// A body with a pass made over what a service runs and is called.
pub open spec fn passed_basics<P: LiteralPass>(v: ServiceFieldsV, pass: P::V) -> Result<
    ServiceFieldsV,
    ComposeErrorV,
> {
    match <Option<Image> as Walk<P>>::passed(v.image, pass) {
        Err(error) => Err(error),
        Ok(image) => match <Option<Build> as Walk<P>>::passed(v.build, pass) {
            Err(error) => Err(error),
            Ok(build) => match <Option<Expose> as Walk<P>>::passed(v.expose, pass) {
                Err(error) => Err(error),
                Ok(expose) => match <Option<Restart> as Walk<P>>::passed(v.restart, pass) {
                    Err(error) => Err(error),
                    Ok(restart) => match <Option<Literal> as Walk<P>>::passed(
                        v.container_name,
                        pass,
                    ) {
                        Err(error) => Err(error),
                        Ok(container_name) => Ok(
                            ServiceFieldsV { image, build, expose, restart, container_name, ..v },
                        ),
                    },
                },
            },
        },
    }
}

fn pass_basics<P: LiteralPass>(fields: ServiceFields, pass: &P) -> (r: Result<
    ServiceFields,
    ComposeError,
>)
    ensures
        outcome(r) == passed_basics::<P>(fields.deep_view(), pass.deep_view()),
{
    let image = match fields.image.pass(pass) {
        Ok(value) => value,
        Err(error) => {
            return Err(error);
        },
    };
    let build = match fields.build.pass(pass) {
        Ok(value) => value,
        Err(error) => {
            return Err(error);
        },
    };
    let expose = match fields.expose.pass(pass) {
        Ok(value) => value,
        Err(error) => {
            return Err(error);
        },
    };
    let restart = match fields.restart.pass(pass) {
        Ok(value) => value,
        Err(error) => {
            return Err(error);
        },
    };
    let container_name = match fields.container_name.pass(pass) {
        Ok(value) => value,
        Err(error) => {
            return Err(error);
        },
    };
    Ok(ServiceFields { image, build, expose, restart, container_name, ..fields })
}

/// A body with an invocation's arguments in what a service runs and is called.
pub open spec fn bound_basics(
    v: ServiceFieldsV,
    call: CallV,
    warnings: Seq<ComposeWarningV>,
) -> Result<(ServiceFieldsV, Seq<ComposeWarningV>), ComposeErrorV> {
    match Option::<Image>::bound(v.image, call, warnings) {
        Err(error) => Err(error),
        Ok((image, w1)) => match Option::<Build>::bound(v.build, call, w1) {
            Err(error) => Err(error),
            Ok((build, w2)) => match Option::<Expose>::bound(v.expose, call, w2) {
                Err(error) => Err(error),
                Ok((expose, w3)) => match Option::<Restart>::bound(v.restart, call, w3) {
                    Err(error) => Err(error),
                    Ok((restart, w4)) => match Option::<Literal>::bound(
                        v.container_name,
                        call,
                        w4,
                    ) {
                        Err(error) => Err(error),
                        Ok((container_name, after)) => Ok(
                            (
                                ServiceFieldsV {
                                    image,
                                    build,
                                    expose,
                                    restart,
                                    container_name,
                                    ..v
                                },
                                after,
                            ),
                        ),
                    },
                },
            },
        },
    }
}

fn bind_basics(fields: ServiceFields, call: &Call<'_>, warnings: &mut Vec<ComposeWarning>) -> (r:
    Result<ServiceFields, ComposeError>)
    ensures
        stepped(r, final(warnings).deep_view()) == bound_basics(
            fields.deep_view(),
            call.deep_view(),
            old(warnings).deep_view(),
        ),
{
    let image = match fields.image.bind(call, warnings) {
        Ok(value) => value,
        Err(error) => {
            return Err(error);
        },
    };
    let build = match fields.build.bind(call, warnings) {
        Ok(value) => value,
        Err(error) => {
            return Err(error);
        },
    };
    let expose = match fields.expose.bind(call, warnings) {
        Ok(value) => value,
        Err(error) => {
            return Err(error);
        },
    };
    let restart = match fields.restart.bind(call, warnings) {
        Ok(value) => value,
        Err(error) => {
            return Err(error);
        },
    };
    let container_name = match fields.container_name.bind(call, warnings) {
        Ok(value) => value,
        Err(error) => {
            return Err(error);
        },
    };
    Ok(ServiceFields { image, build, expose, restart, container_name, ..fields })
}

/// A body with a pass made over how a service is started and probed.
pub open spec fn passed_running<P: LiteralPass>(v: ServiceFieldsV, pass: P::V) -> Result<
    ServiceFieldsV,
    ComposeErrorV,
> {
    match <Option<Command> as Walk<P>>::passed(v.command, pass) {
        Err(error) => Err(error),
        Ok(command) => match <Option<Entrypoint> as Walk<P>>::passed(v.entrypoint, pass) {
            Err(error) => Err(error),
            Ok(entrypoint) => match <Option<Healthcheck> as Walk<P>>::passed(v.healthcheck, pass) {
                Err(error) => Err(error),
                Ok(healthcheck) => Ok(ServiceFieldsV { command, entrypoint, healthcheck, ..v }),
            },
        },
    }
}

fn pass_running<P: LiteralPass>(fields: ServiceFields, pass: &P) -> (r: Result<
    ServiceFields,
    ComposeError,
>)
    ensures
        outcome(r) == passed_running::<P>(fields.deep_view(), pass.deep_view()),
{
    let command = match fields.command.pass(pass) {
        Ok(value) => value,
        Err(error) => {
            return Err(error);
        },
    };
    let entrypoint = match fields.entrypoint.pass(pass) {
        Ok(value) => value,
        Err(error) => {
            return Err(error);
        },
    };
    let healthcheck = match fields.healthcheck.pass(pass) {
        Ok(value) => value,
        Err(error) => {
            return Err(error);
        },
    };
    Ok(ServiceFields { command, entrypoint, healthcheck, ..fields })
}

/// A body with an invocation's arguments in how a service is started and probed.
pub open spec fn bound_running(
    v: ServiceFieldsV,
    call: CallV,
    warnings: Seq<ComposeWarningV>,
) -> Result<(ServiceFieldsV, Seq<ComposeWarningV>), ComposeErrorV> {
    match Option::<Command>::bound(v.command, call, warnings) {
        Err(error) => Err(error),
        Ok((command, w1)) => match Option::<Entrypoint>::bound(v.entrypoint, call, w1) {
            Err(error) => Err(error),
            Ok((entrypoint, w2)) => match Option::<Healthcheck>::bound(v.healthcheck, call, w2) {
                Err(error) => Err(error),
                Ok((healthcheck, after)) => Ok(
                    (ServiceFieldsV { command, entrypoint, healthcheck, ..v }, after),
                ),
            },
        },
    }
}

fn bind_running(fields: ServiceFields, call: &Call<'_>, warnings: &mut Vec<ComposeWarning>) -> (r:
    Result<ServiceFields, ComposeError>)
    ensures
        stepped(r, final(warnings).deep_view()) == bound_running(
            fields.deep_view(),
            call.deep_view(),
            old(warnings).deep_view(),
        ),
{
    let command = match fields.command.bind(call, warnings) {
        Ok(value) => value,
        Err(error) => {
            return Err(error);
        },
    };
    let entrypoint = match fields.entrypoint.bind(call, warnings) {
        Ok(value) => value,
        Err(error) => {
            return Err(error);
        },
    };
    let healthcheck = match fields.healthcheck.bind(call, warnings) {
        Ok(value) => value,
        Err(error) => {
            return Err(error);
        },
    };
    Ok(ServiceFields { command, entrypoint, healthcheck, ..fields })
}

/// A body with a pass made over what leads from the host into a service.
pub open spec fn passed_mounts<P: LiteralPass>(v: ServiceFieldsV, pass: P::V) -> Result<
    ServiceFieldsV,
    ComposeErrorV,
> {
    match <ArrowMap as Walk<P>>::passed(v.volumes, pass) {
        Err(error) => Err(error),
        Ok(volumes) => match <ArrowMap as Walk<P>>::passed(v.publish, pass) {
            Err(error) => Err(error),
            Ok(publish) => match <ArrowMap as Walk<P>>::passed(v.devices, pass) {
                Err(error) => Err(error),
                Ok(devices) => Ok(ServiceFieldsV { volumes, publish, devices, ..v }),
            },
        },
    }
}

fn pass_mounts<P: LiteralPass>(fields: ServiceFields, pass: &P) -> (r: Result<
    ServiceFields,
    ComposeError,
>)
    ensures
        outcome(r) == passed_mounts::<P>(fields.deep_view(), pass.deep_view()),
{
    let volumes = match fields.volumes.pass(pass) {
        Ok(value) => value,
        Err(error) => {
            return Err(error);
        },
    };
    let publish = match fields.publish.pass(pass) {
        Ok(value) => value,
        Err(error) => {
            return Err(error);
        },
    };
    let devices = match fields.devices.pass(pass) {
        Ok(value) => value,
        Err(error) => {
            return Err(error);
        },
    };
    Ok(ServiceFields { volumes, publish, devices, ..fields })
}

/// A body with an invocation's arguments in what leads from the host into a service.
pub open spec fn bound_mounts(
    v: ServiceFieldsV,
    call: CallV,
    warnings: Seq<ComposeWarningV>,
) -> Result<(ServiceFieldsV, Seq<ComposeWarningV>), ComposeErrorV> {
    match ArrowMap::bound(v.volumes, call, warnings) {
        Err(error) => Err(error),
        Ok((volumes, w1)) => match ArrowMap::bound(v.publish, call, w1) {
            Err(error) => Err(error),
            Ok((publish, w2)) => match ArrowMap::bound(v.devices, call, w2) {
                Err(error) => Err(error),
                Ok((devices, after)) => Ok(
                    (ServiceFieldsV { volumes, publish, devices, ..v }, after),
                ),
            },
        },
    }
}

fn bind_mounts(fields: ServiceFields, call: &Call<'_>, warnings: &mut Vec<ComposeWarning>) -> (r:
    Result<ServiceFields, ComposeError>)
    ensures
        stepped(r, final(warnings).deep_view()) == bound_mounts(
            fields.deep_view(),
            call.deep_view(),
            old(warnings).deep_view(),
        ),
{
    let volumes = match fields.volumes.bind(call, warnings) {
        Ok(value) => value,
        Err(error) => {
            return Err(error);
        },
    };
    let publish = match fields.publish.bind(call, warnings) {
        Ok(value) => value,
        Err(error) => {
            return Err(error);
        },
    };
    let devices = match fields.devices.bind(call, warnings) {
        Ok(value) => value,
        Err(error) => {
            return Err(error);
        },
    };
    Ok(ServiceFields { volumes, publish, devices, ..fields })
}

/// A body with a pass made over the other maps of a service, and its invocations.
pub open spec fn passed_entries<P: LiteralPass>(v: ServiceFieldsV, pass: P::V) -> Result<
    ServiceFieldsV,
    ComposeErrorV,
> {
    match <EnvMap as Walk<P>>::passed(v.env, pass) {
        Err(error) => Err(error),
        Ok(env) => match <LabelMap as Walk<P>>::passed(v.labels, pass) {
            Err(error) => Err(error),
            Ok(labels) => match <RawMap as Walk<P>>::passed(v.raw, pass) {
                Err(error) => Err(error),
                Ok(raw) => match <Vec<TemplateInvocation> as Walk<P>>::passed(v.with, pass) {
                    Err(error) => Err(error),
                    Ok(with) => Ok(ServiceFieldsV { env, labels, raw, with, ..v }),
                },
            },
        },
    }
}

fn pass_entries<P: LiteralPass>(fields: ServiceFields, pass: &P) -> (r: Result<
    ServiceFields,
    ComposeError,
>)
    ensures
        outcome(r) == passed_entries::<P>(fields.deep_view(), pass.deep_view()),
{
    let env = match fields.env.pass(pass) {
        Ok(value) => value,
        Err(error) => {
            return Err(error);
        },
    };
    let labels = match fields.labels.pass(pass) {
        Ok(value) => value,
        Err(error) => {
            return Err(error);
        },
    };
    let raw = match fields.raw.pass(pass) {
        Ok(value) => value,
        Err(error) => {
            return Err(error);
        },
    };
    let with = match fields.with.pass(pass) {
        Ok(value) => value,
        Err(error) => {
            return Err(error);
        },
    };
    Ok(ServiceFields { env, labels, raw, with, ..fields })
}

/// A body with an invocation's arguments in the other maps of a service, and its invocations.
pub open spec fn bound_entries(
    v: ServiceFieldsV,
    call: CallV,
    warnings: Seq<ComposeWarningV>,
) -> Result<(ServiceFieldsV, Seq<ComposeWarningV>), ComposeErrorV> {
    match EnvMap::bound(v.env, call, warnings) {
        Err(error) => Err(error),
        Ok((env, w1)) => match LabelMap::bound(v.labels, call, w1) {
            Err(error) => Err(error),
            Ok((labels, w2)) => match RawMap::bound(v.raw, call, w2) {
                Err(error) => Err(error),
                Ok((raw, w3)) => match Vec::<TemplateInvocation>::bound(v.with, call, w3) {
                    Err(error) => Err(error),
                    Ok((with, after)) => Ok(
                        (ServiceFieldsV { env, labels, raw, with, ..v }, after),
                    ),
                },
            },
        },
    }
}

fn bind_entries(fields: ServiceFields, call: &Call<'_>, warnings: &mut Vec<ComposeWarning>) -> (r:
    Result<ServiceFields, ComposeError>)
    ensures
        stepped(r, final(warnings).deep_view()) == bound_entries(
            fields.deep_view(),
            call.deep_view(),
            old(warnings).deep_view(),
        ),
{
    let env = match fields.env.bind(call, warnings) {
        Ok(value) => value,
        Err(error) => {
            return Err(error);
        },
    };
    let labels = match fields.labels.bind(call, warnings) {
        Ok(value) => value,
        Err(error) => {
            return Err(error);
        },
    };
    let raw = match fields.raw.bind(call, warnings) {
        Ok(value) => value,
        Err(error) => {
            return Err(error);
        },
    };
    let with = match fields.with.bind(call, warnings) {
        Ok(value) => value,
        Err(error) => {
            return Err(error);
        },
    };
    Ok(ServiceFields { env, labels, raw, with, ..fields })
}

/// A body with a pass made over the lists of a service.
pub open spec fn passed_lists<P: LiteralPass>(v: ServiceFieldsV, pass: P::V) -> Result<
    ServiceFieldsV,
    ComposeErrorV,
> {
    match <Vec<Literal> as Walk<P>>::passed(v.networks, pass) {
        Err(error) => Err(error),
        Ok(networks) => match <Vec<Literal> as Walk<P>>::passed(v.dns, pass) {
            Err(error) => Err(error),
            Ok(dns) => match <Vec<Literal> as Walk<P>>::passed(v.env_file, pass) {
                Err(error) => Err(error),
                Ok(env_file) => match <Vec<DependsOnEntry> as Walk<P>>::passed(v.depends_on, pass) {
                    Err(error) => Err(error),
                    Ok(depends_on) => Ok(
                        ServiceFieldsV { networks, dns, env_file, depends_on, ..v },
                    ),
                },
            },
        },
    }
}

fn pass_lists<P: LiteralPass>(fields: ServiceFields, pass: &P) -> (r: Result<
    ServiceFields,
    ComposeError,
>)
    ensures
        outcome(r) == passed_lists::<P>(fields.deep_view(), pass.deep_view()),
{
    let networks = match fields.networks.pass(pass) {
        Ok(value) => value,
        Err(error) => {
            return Err(error);
        },
    };
    let dns = match fields.dns.pass(pass) {
        Ok(value) => value,
        Err(error) => {
            return Err(error);
        },
    };
    let env_file = match fields.env_file.pass(pass) {
        Ok(value) => value,
        Err(error) => {
            return Err(error);
        },
    };
    let depends_on = match fields.depends_on.pass(pass) {
        Ok(value) => value,
        Err(error) => {
            return Err(error);
        },
    };
    Ok(ServiceFields { networks, dns, env_file, depends_on, ..fields })
}

/// A body with an invocation's arguments in the lists of a service.
pub open spec fn bound_lists(
    v: ServiceFieldsV,
    call: CallV,
    warnings: Seq<ComposeWarningV>,
) -> Result<(ServiceFieldsV, Seq<ComposeWarningV>), ComposeErrorV> {
    match bound_references(v.networks, call, warnings) {
        Err(error) => Err(error),
        Ok((networks, w1)) => match bound_references(v.dns, call, w1) {
            Err(error) => Err(error),
            Ok((dns, w2)) => match bound_references(v.env_file, call, w2) {
                Err(error) => Err(error),
                Ok((env_file, w3)) => match bound_dependencies(v.depends_on, call, w3) {
                    Err(error) => Err(error),
                    Ok((depends_on, after)) => Ok(
                        (ServiceFieldsV { networks, dns, env_file, depends_on, ..v }, after),
                    ),
                },
            },
        },
    }
}

fn bind_lists(fields: ServiceFields, call: &Call<'_>, warnings: &mut Vec<ComposeWarning>) -> (r:
    Result<ServiceFields, ComposeError>)
    ensures
        stepped(r, final(warnings).deep_view()) == bound_lists(
            fields.deep_view(),
            call.deep_view(),
            old(warnings).deep_view(),
        ),
{
    let networks = match substitute_reference_list(&fields.networks, call, warnings) {
        Ok(value) => value,
        Err(error) => {
            return Err(error);
        },
    };
    let dns = match substitute_reference_list(&fields.dns, call, warnings) {
        Ok(value) => value,
        Err(error) => {
            return Err(error);
        },
    };
    let env_file = match substitute_reference_list(&fields.env_file, call, warnings) {
        Ok(value) => value,
        Err(error) => {
            return Err(error);
        },
    };
    let depends_on = match substitute_dependencies(&fields.depends_on, call, warnings) {
        Ok(value) => value,
        Err(error) => {
            return Err(error);
        },
    };
    Ok(ServiceFields { networks, dns, env_file, depends_on, ..fields })
}

impl Slots for ServiceFields {
    open spec fn within(v: ServiceFieldsV, names: Set<Seq<char>>) -> bool {
        &&& Option::<Image>::within(v.image, names)
        &&& Option::<Build>::within(v.build, names)
        &&& Option::<Expose>::within(v.expose, names)
        &&& Option::<Restart>::within(v.restart, names)
        &&& Option::<Literal>::within(v.container_name, names)
        &&& Option::<Command>::within(v.command, names)
        &&& Option::<Entrypoint>::within(v.entrypoint, names)
        &&& Option::<Healthcheck>::within(v.healthcheck, names)
        &&& ArrowMap::within(v.volumes, names)
        &&& ArrowMap::within(v.publish, names)
        &&& ArrowMap::within(v.devices, names)
        &&& EnvMap::within(v.env, names)
        &&& LabelMap::within(v.labels, names)
        &&& RawMap::within(v.raw, names)
        &&& Vec::<TemplateInvocation>::within(v.with, names)
        &&& Vec::<Literal>::within(v.networks, names)
        &&& Vec::<Literal>::within(v.dns, names)
        &&& Vec::<Literal>::within(v.env_file, names)
        &&& Vec::<DependsOnEntry>::within(v.depends_on, names)
    }

    open spec fn settled(v: ServiceFieldsV) -> bool {
        &&& Option::<Image>::settled(v.image)
        &&& Option::<Build>::settled(v.build)
        &&& Option::<Expose>::settled(v.expose)
        &&& Option::<Restart>::settled(v.restart)
        &&& Option::<Literal>::settled(v.container_name)
        &&& Option::<Command>::settled(v.command)
        &&& Option::<Entrypoint>::settled(v.entrypoint)
        &&& Option::<Healthcheck>::settled(v.healthcheck)
        &&& ArrowMap::settled(v.volumes)
        &&& ArrowMap::settled(v.publish)
        &&& ArrowMap::settled(v.devices)
        &&& EnvMap::settled(v.env)
        &&& LabelMap::settled(v.labels)
        &&& RawMap::settled(v.raw)
        &&& Vec::<TemplateInvocation>::settled(v.with)
        &&& Vec::<Literal>::settled(v.networks)
        &&& Vec::<Literal>::settled(v.dns)
        &&& Vec::<Literal>::settled(v.env_file)
        &&& Vec::<DependsOnEntry>::settled(v.depends_on)
    }

    open spec fn bound(v: ServiceFieldsV, call: CallV, warnings: Seq<ComposeWarningV>) -> Result<
        (ServiceFieldsV, Seq<ComposeWarningV>),
        ComposeErrorV,
    > {
        match bound_basics(v, call, warnings) {
            Err(error) => Err(error),
            Ok((v1, w1)) => match bound_running(v1, call, w1) {
                Err(error) => Err(error),
                Ok((v2, w2)) => match bound_mounts(v2, call, w2) {
                    Err(error) => Err(error),
                    Ok((v3, w3)) => match bound_entries(v3, call, w3) {
                        Err(error) => Err(error),
                        Ok((v4, w4)) => bound_lists(v4, call, w4),
                    },
                },
            },
        }
    }

    fn bind(&self, call: &Call<'_>, warnings: &mut Vec<ComposeWarning>) -> (r: Result<
        Self,
        ComposeError,
    >) {
        let fields = self.duplicate();
        let fields = match bind_basics(fields, call, warnings) {
            Ok(fields) => fields,
            Err(error) => {
                return Err(error);
            },
        };
        let fields = match bind_running(fields, call, warnings) {
            Ok(fields) => fields,
            Err(error) => {
                return Err(error);
            },
        };
        let fields = match bind_mounts(fields, call, warnings) {
            Ok(fields) => fields,
            Err(error) => {
                return Err(error);
            },
        };
        let fields = match bind_entries(fields, call, warnings) {
            Ok(fields) => fields,
            Err(error) => {
                return Err(error);
            },
        };
        bind_lists(fields, call, warnings)
    }

    proof fn lemma_bound_within(v: ServiceFieldsV, call: CallV, outer: Set<Seq<char>>) {
        Option::<Image>::lemma_bound_within(v.image, call, outer);
        Option::<Build>::lemma_bound_within(v.build, call, outer);
        Option::<Expose>::lemma_bound_within(v.expose, call, outer);
        Option::<Restart>::lemma_bound_within(v.restart, call, outer);
        Option::<Literal>::lemma_bound_within(v.container_name, call, outer);
        Option::<Command>::lemma_bound_within(v.command, call, outer);
        Option::<Entrypoint>::lemma_bound_within(v.entrypoint, call, outer);
        Option::<Healthcheck>::lemma_bound_within(v.healthcheck, call, outer);
        ArrowMap::lemma_bound_within(v.volumes, call, outer);
        ArrowMap::lemma_bound_within(v.publish, call, outer);
        ArrowMap::lemma_bound_within(v.devices, call, outer);
        EnvMap::lemma_bound_within(v.env, call, outer);
        LabelMap::lemma_bound_within(v.labels, call, outer);
        RawMap::lemma_bound_within(v.raw, call, outer);
        Vec::<TemplateInvocation>::lemma_bound_within(v.with, call, outer);
        lemma_references_within(v.networks, call, outer);
        lemma_references_within(v.dns, call, outer);
        lemma_references_within(v.env_file, call, outer);
        lemma_dependencies_within(v.depends_on, call, outer);
    }

    proof fn lemma_bound_warns(v: ServiceFieldsV, call: CallV) {
        broadcast use lemma_grown_twice;

        Option::<Image>::lemma_bound_warns(v.image, call);
        Option::<Build>::lemma_bound_warns(v.build, call);
        Option::<Expose>::lemma_bound_warns(v.expose, call);
        Option::<Restart>::lemma_bound_warns(v.restart, call);
        Option::<Literal>::lemma_bound_warns(v.container_name, call);
        Option::<Command>::lemma_bound_warns(v.command, call);
        Option::<Entrypoint>::lemma_bound_warns(v.entrypoint, call);
        Option::<Healthcheck>::lemma_bound_warns(v.healthcheck, call);
        ArrowMap::lemma_bound_warns(v.volumes, call);
        ArrowMap::lemma_bound_warns(v.publish, call);
        ArrowMap::lemma_bound_warns(v.devices, call);
        EnvMap::lemma_bound_warns(v.env, call);
        LabelMap::lemma_bound_warns(v.labels, call);
        RawMap::lemma_bound_warns(v.raw, call);
        Vec::<TemplateInvocation>::lemma_bound_warns(v.with, call);
        lemma_references_warn(v.networks, call);
        lemma_references_warn(v.dns, call);
        lemma_references_warn(v.env_file, call);
        lemma_dependencies_warn(v.depends_on, call);
    }
}

impl<P: LiteralPass> Walk<P> for ServiceFields {
    open spec fn passed(v: ServiceFieldsV, pass: P::V) -> Result<ServiceFieldsV, ComposeErrorV> {
        match passed_basics::<P>(v, pass) {
            Err(error) => Err(error),
            Ok(v1) => match passed_running::<P>(v1, pass) {
                Err(error) => Err(error),
                Ok(v2) => match passed_mounts::<P>(v2, pass) {
                    Err(error) => Err(error),
                    Ok(v3) => match passed_entries::<P>(v3, pass) {
                        Err(error) => Err(error),
                        Ok(v4) => passed_lists::<P>(v4, pass),
                    },
                },
            },
        }
    }

    fn pass(&self, pass: &P) -> (r: Result<Self, ComposeError>) {
        let fields = self.duplicate();
        let fields = match pass_basics(fields, pass) {
            Ok(fields) => fields,
            Err(error) => {
                return Err(error);
            },
        };
        let fields = match pass_running(fields, pass) {
            Ok(fields) => fields,
            Err(error) => {
                return Err(error);
            },
        };
        let fields = match pass_mounts(fields, pass) {
            Ok(fields) => fields,
            Err(error) => {
                return Err(error);
            },
        };
        let fields = match pass_entries(fields, pass) {
            Ok(fields) => fields,
            Err(error) => {
                return Err(error);
            },
        };
        pass_lists(fields, pass)
    }

    proof fn lemma_passed_within(v: ServiceFieldsV, pass: P::V, names: Set<Seq<char>>) {
        <Option<Image> as Walk<P>>::lemma_passed_within(v.image, pass, names);
        <Option<Build> as Walk<P>>::lemma_passed_within(v.build, pass, names);
        <Option<Expose> as Walk<P>>::lemma_passed_within(v.expose, pass, names);
        <Option<Restart> as Walk<P>>::lemma_passed_within(v.restart, pass, names);
        <Option<Literal> as Walk<P>>::lemma_passed_within(v.container_name, pass, names);
        <Option<Command> as Walk<P>>::lemma_passed_within(v.command, pass, names);
        <Option<Entrypoint> as Walk<P>>::lemma_passed_within(v.entrypoint, pass, names);
        <Option<Healthcheck> as Walk<P>>::lemma_passed_within(v.healthcheck, pass, names);
        <ArrowMap as Walk<P>>::lemma_passed_within(v.volumes, pass, names);
        <ArrowMap as Walk<P>>::lemma_passed_within(v.publish, pass, names);
        <ArrowMap as Walk<P>>::lemma_passed_within(v.devices, pass, names);
        <EnvMap as Walk<P>>::lemma_passed_within(v.env, pass, names);
        <LabelMap as Walk<P>>::lemma_passed_within(v.labels, pass, names);
        <RawMap as Walk<P>>::lemma_passed_within(v.raw, pass, names);
        <Vec<TemplateInvocation> as Walk<P>>::lemma_passed_within(v.with, pass, names);
        <Vec<Literal> as Walk<P>>::lemma_passed_within(v.networks, pass, names);
        <Vec<Literal> as Walk<P>>::lemma_passed_within(v.dns, pass, names);
        <Vec<Literal> as Walk<P>>::lemma_passed_within(v.env_file, pass, names);
        <Vec<DependsOnEntry> as Walk<P>>::lemma_passed_within(v.depends_on, pass, names);
    }

    proof fn lemma_passed_settled(v: ServiceFieldsV, pass: P::V) {
        <Option<Image> as Walk<P>>::lemma_passed_settled(v.image, pass);
        <Option<Build> as Walk<P>>::lemma_passed_settled(v.build, pass);
        <Option<Expose> as Walk<P>>::lemma_passed_settled(v.expose, pass);
        <Option<Restart> as Walk<P>>::lemma_passed_settled(v.restart, pass);
        <Option<Literal> as Walk<P>>::lemma_passed_settled(v.container_name, pass);
        <Option<Command> as Walk<P>>::lemma_passed_settled(v.command, pass);
        <Option<Entrypoint> as Walk<P>>::lemma_passed_settled(v.entrypoint, pass);
        <Option<Healthcheck> as Walk<P>>::lemma_passed_settled(v.healthcheck, pass);
        <ArrowMap as Walk<P>>::lemma_passed_settled(v.volumes, pass);
        <ArrowMap as Walk<P>>::lemma_passed_settled(v.publish, pass);
        <ArrowMap as Walk<P>>::lemma_passed_settled(v.devices, pass);
        <EnvMap as Walk<P>>::lemma_passed_settled(v.env, pass);
        <LabelMap as Walk<P>>::lemma_passed_settled(v.labels, pass);
        <RawMap as Walk<P>>::lemma_passed_settled(v.raw, pass);
        <Vec<TemplateInvocation> as Walk<P>>::lemma_passed_settled(v.with, pass);
        <Vec<Literal> as Walk<P>>::lemma_passed_settled(v.networks, pass);
        <Vec<Literal> as Walk<P>>::lemma_passed_settled(v.dns, pass);
        <Vec<Literal> as Walk<P>>::lemma_passed_settled(v.env_file, pass);
        <Vec<DependsOnEntry> as Walk<P>>::lemma_passed_settled(v.depends_on, pass);
    }
}

} // verus!
