//! Substituting an invocation's arguments into one literal of the
//! template's body.

use vstd::prelude::*;
use vstd::string::*;

use crate::ast::{
    FieldAccess, FieldAccessV, Literal, LiteralV, RawEntry, RawEntryV, RawValue, RawValueV,
};
use crate::compose::interpolate::{resolve_by, BindingLookup};
use crate::compose_error::{ComposeError, ComposeErrorV};
use crate::deep::{outcome, Duplicate};
use crate::interp::{binding_at, next_binding, resolved};
use crate::source::Span;
use crate::text::{chars_of, join_texts, same_text, texts_joined};
use crate::warning::{warn, warned, ComposeWarning, ComposeWarningV};

verus! {

/// One invocation being resolved: the template it names, and the
/// arguments it gives.
pub struct Call<'a> {
    pub template: &'a str,
    pub args: &'a Vec<RawEntry>,
}

/// The view of [`Call`].
#[verifier::ext_equal]
pub struct CallV {
    pub template: Seq<char>,
    pub args: Seq<RawEntryV>,
}

impl<'a> DeepView for Call<'a> {
    type V = CallV;

    open spec fn deep_view(&self) -> CallV {
        CallV { template: self.template@, args: self.args.deep_view() }
    }
}

/// The value of the first argument called `name` at or after index `i`.
pub open spec fn arg_from(args: Seq<RawEntryV>, name: Seq<char>, i: int) -> Option<RawValueV>
    decreases args.len() - i,
{
    if i >= args.len() {
        None
    } else if args[i].key.text() == name {
        Some(args[i].value)
    } else {
        arg_from(args, name, i + 1)
    }
}

impl CallV {
    /// The argument called `name`, if one is given.
    pub open spec fn arg(self, name: Seq<char>) -> Option<RawValueV> {
        arg_from(self.args, name, 0)
    }
}

impl<'a> Call<'a> {
    /// The argument called `name`, if one is given.
    pub(crate) fn arg(&self, name: &str) -> (r: Option<&'a RawValue>)
        ensures
            r.deep_view() == self.deep_view().arg(name@),
    {
        let args: &'a Vec<RawEntry> = self.args;
        let ghost all = args.deep_view();
        let mut i: usize = 0;
        while i < args.len()
            invariant
                i <= args@.len(),
                args == self.args,
                all == args.deep_view(),
                arg_from(all, name@, 0) == arg_from(all, name@, i as int),
            decreases args@.len() - i,
        {
            let entry: &'a RawEntry = &args[i];
            assert(all[i as int] == entry.deep_view());
            if same_text(entry.key.text(), name) {
                return Some(&entry.value);
            }
            i = i + 1;
        }
        None
    }
}

/// What an argument is, as a diagnostic says it.
pub open spec fn kind_of_argument(value: RawValueV) -> Seq<char> {
    match value {
        RawValueV::Literal(LiteralV::Str(_, _)) => "a quoted string"@,
        RawValueV::Literal(LiteralV::Number { .. }) => "a number"@,
        RawValueV::Literal(LiteralV::Ident(_, _)) => "a bare identifier"@,
        RawValueV::Literal(LiteralV::Param(_, _)) => "a parameter"@,
        RawValueV::Literal(LiteralV::Field(_)) => "a field access"@,
        RawValueV::Literal(LiteralV::Qualified(_)) => "a qualified reference"@,
        RawValueV::List(_, _) => "a list"@,
        RawValueV::Mapping(_, _) => "a nested map"@,
    }
}

fn argument_kind(value: &RawValue) -> (r: &'static str)
    ensures
        r@ == kind_of_argument(value.deep_view()),
{
    match value {
        RawValue::Literal(Literal::Str(_, _)) => "a quoted string",
        RawValue::Literal(Literal::Number { .. }) => "a number",
        RawValue::Literal(Literal::Ident(_, _)) => "a bare identifier",
        RawValue::Literal(Literal::Param(_, _)) => "a parameter",
        RawValue::Literal(Literal::Field(_)) => "a field access",
        RawValue::Literal(Literal::Qualified(_)) => "a qualified reference",
        RawValue::List(_, _) => "a list",
        RawValue::Mapping(_, _) => "a nested map",
    }
}

/// The text one value contributes where it is interpolated; a list or a
/// map has none. What is not concrete yet is renamed into the scope the
/// string is moving to: a forwarded parameter, and a field access.
pub open spec fn scalar_text(value: RawValueV) -> Option<Seq<char>> {
    match value {
        RawValueV::Literal(LiteralV::Param(name, _)) => Some("{{"@ + name + "}}"@),
        RawValueV::Literal(LiteralV::Str(text, _)) => Some(text),
        RawValueV::Literal(LiteralV::Number { text, .. }) => Some(text),
        RawValueV::Literal(LiteralV::Ident(name, _)) => Some(name),
        RawValueV::Literal(LiteralV::Field(access)) => Some("{{"@ + access.dotted() + "}}"@),
        RawValueV::Literal(LiteralV::Qualified(q)) => Some(q.name),
        RawValueV::List(_, _) => None,
        RawValueV::Mapping(_, _) => None,
    }
}

fn scalar_interpolated_text(value: &RawValue) -> (r: Option<String>)
    ensures
        r.deep_view() == scalar_text(value.deep_view()),
{
    match value {
        RawValue::Literal(Literal::Param(name, _)) => {
            let mut out = "{{".to_owned();
            out.append(name.as_str());
            out.append("}}");
            Some(out)
        },
        RawValue::Literal(Literal::Str(text, _)) => Some(text.clone()),
        RawValue::Literal(Literal::Number { text, .. }) => Some(text.clone()),
        RawValue::Literal(Literal::Ident(name, _)) => Some(name.clone()),
        RawValue::Literal(Literal::Field(access)) => {
            let mut out = "{{".to_owned();
            out.append(access.dotted().as_str());
            out.append("}}");
            Some(out)
        },
        RawValue::Literal(Literal::Qualified(q)) => Some(q.name.clone()),
        RawValue::List(_, _) => None,
        RawValue::Mapping(_, _) => None,
    }
}

/// The texts of the items from index `i` on, behind those before them,
/// or the first item that has none.
pub open spec fn item_texts(items: Seq<RawValueV>, i: int, before: Seq<Seq<char>>) -> Result<
    Seq<Seq<char>>,
    RawValueV,
>
    decreases items.len() - i,
{
    if i >= items.len() {
        Ok(before)
    } else {
        match scalar_text(items[i]) {
            Some(text) => item_texts(items, i + 1, before.push(text)),
            None => Err(items[i]),
        }
    }
}

/// The text an argument contributes where it is interpolated: that of a
/// single value, or those of a list's items with commas between them.
/// Where there is none, the value at fault.
pub open spec fn argument_text(value: RawValueV) -> Result<Seq<char>, RawValueV> {
    match value {
        RawValueV::List(items, _) => match item_texts(items, 0, Seq::empty()) {
            Ok(texts) => Ok(texts_joined(texts, ","@)),
            Err(item) => Err(item),
        },
        _ => match scalar_text(value) {
            Some(text) => Ok(text),
            None => Err(value),
        },
    }
}

fn interpolated_text<'a>(value: &'a RawValue) -> (r: Result<String, &'a RawValue>)
    ensures
        outcome(r) == argument_text(value.deep_view()),
{
    match value {
        RawValue::List(items, _) => {
            proof {
                crate::ast::lemma_raw_view(*value);
            }
            let mut texts: Vec<String> = crate::deep::no_items();
            let mut i: usize = 0;
            while i < items.len()
                invariant
                    i <= items@.len(),
                    item_texts(items.deep_view(), 0, Seq::empty()) == item_texts(
                        items.deep_view(),
                        i as int,
                        texts.deep_view(),
                    ),
                    argument_text(value.deep_view()) == (match item_texts(
                        items.deep_view(),
                        0,
                        Seq::empty(),
                    ) {
                        Ok(texts) => Ok(texts_joined(texts, ","@)),
                        Err(item) => Err(item),
                    }),
                decreases items@.len() - i,
            {
                match scalar_interpolated_text(&items[i]) {
                    Some(text) => {
                        crate::deep::push_to(&mut texts, text);
                    },
                    None => {
                        return Err(&items[i]);
                    },
                }
                i = i + 1;
            }
            Ok(join_texts(&texts, ","))
        },
        _ => match scalar_interpolated_text(value) {
            Some(text) => Ok(text),
            None => Err(value),
        },
    }
}

/// The text an argument contributes as what a field is read off, if it
/// can name a declaration.
pub open spec fn base_text(value: RawValueV) -> Option<Seq<char>> {
    match value {
        RawValueV::Literal(LiteralV::Ident(name, _)) => Some(name),
        RawValueV::Literal(LiteralV::Str(name, _)) => Some(name),
        RawValueV::Literal(LiteralV::Param(name, _)) => Some(name),
        RawValueV::Literal(LiteralV::Qualified(q)) => Some(q.qualifier.name + "."@ + q.name),
        _ => None,
    }
}

fn field_base_text(value: &RawValue) -> (r: Option<String>)
    ensures
        r.deep_view() == base_text(value.deep_view()),
{
    match value {
        RawValue::Literal(Literal::Ident(name, _)) => Some(name.clone()),
        RawValue::Literal(Literal::Str(name, _)) => Some(name.clone()),
        RawValue::Literal(Literal::Param(name, _)) => Some(name.clone()),
        RawValue::Literal(Literal::Qualified(q)) => {
            let mut out = q.qualifier.name.clone();
            out.append(".");
            out.append(q.name.as_str());
            Some(out)
        },
        _ => None,
    }
}

/// Where `c` first stands at or after `from`, or the length of `s`.
pub open spec fn char_at(s: Seq<char>, c: char, from: int) -> int
    decreases s.len() - from,
{
    if from >= s.len() {
        s.len() as int
    } else if s[from] == c {
        from
    } else {
        char_at(s, c, from + 1)
    }
}

/// Finds the first `c` at or after `from`.
pub(crate) fn find_char(chars: &Vec<char>, c: char, from: usize) -> (r: usize)
    requires
        from <= chars@.len(),
    ensures
        r == char_at(chars@, c, from as int),
        from <= r <= chars@.len(),
        r < chars@.len() ==> chars@[r as int] == c,
{
    let mut i: usize = from;
    while i < chars.len()
        invariant
            from <= i <= chars@.len(),
            char_at(chars@, c, from as int) == char_at(chars@, c, i as int),
        decreases chars@.len() - i,
    {
        if chars[i] == c {
            return i;
        }
        i = i + 1;
    }
    i
}

/// What an invocation answers to a binding inside one of the template's
/// strings: nothing to `{{name}}`, which is the enclosing service's own
/// name, and nothing to what is no parameter of the template. A dotted
/// binding reads a field off what its head is bound to, so its head is
/// replaced and the access left for later.
pub open spec fn bound_answer(call: CallV, binding: Seq<char>) -> Result<
    Option<Seq<char>>,
    ComposeErrorV,
> {
    let dot = char_at(binding, '.', 0);
    if binding == "name"@ {
        Ok(None)
    } else if dot < binding.len() {
        let head = binding.subrange(0, dot);
        let field = binding.subrange(dot + 1, binding.len() as int);
        match call.arg(head) {
            None => Ok(None),
            Some(arg) => match base_text(arg) {
                None => Err(
                    ComposeErrorV::ArgumentCantCarryField {
                        template: call.template,
                        param: head,
                        found: kind_of_argument(arg),
                        span: arg.span(),
                    },
                ),
                Some(base) => Ok(Some("{{"@ + base + "."@ + field + "}}"@)),
            },
        }
    } else {
        match call.arg(binding) {
            None => Ok(None),
            Some(arg) => match argument_text(arg) {
                Ok(text) => Ok(Some(text)),
                Err(bad) => Err(
                    ComposeErrorV::ArgumentNotInterpolable {
                        template: call.template,
                        param: binding,
                        found: kind_of_argument(bad),
                        span: bad.span(),
                    },
                ),
            },
        }
    }
}

/// What an invocation answers to each binding.
pub open spec fn bound_answers(call: CallV) -> spec_fn(Seq<char>) -> Result<
    Option<Seq<char>>,
    ComposeErrorV,
> {
    |binding: Seq<char>| bound_answer(call, binding)
}

impl<'a> BindingLookup for Call<'a> {
    open spec fn answers(&self) -> spec_fn(Seq<char>) -> Result<Option<Seq<char>>, ComposeErrorV> {
        bound_answers(self.deep_view())
    }

    fn answer(&self, binding: &str) -> (r: Result<Option<String>, ComposeError>) {
        if same_text(binding, "name") {
            return Ok(None);
        }
        let chars = chars_of(binding);
        let dot = find_char(&chars, '.', 0);
        if dot < chars.len() {
            let head = binding.substring_char(0, dot);
            let field = binding.substring_char(dot + 1, chars.len());
            match self.arg(head) {
                None => Ok(None),
                Some(arg) => match field_base_text(arg) {
                    None => Err(
                        ComposeError::ArgumentCantCarryField {
                            template: self.template.to_owned(),
                            param: head.to_owned(),
                            found: argument_kind(arg),
                            span: arg.span(),
                        },
                    ),
                    Some(base) => {
                        let mut out = "{{".to_owned();
                        out.append(base.as_str());
                        out.append(".");
                        out.append(field);
                        out.append("}}");
                        Ok(Some(out))
                    },
                },
            }
        } else {
            match self.arg(binding) {
                None => Ok(None),
                Some(arg) => match interpolated_text(arg) {
                    Ok(text) => Ok(Some(text)),
                    Err(bad) => Err(
                        ComposeError::ArgumentNotInterpolable {
                            template: self.template.to_owned(),
                            param: binding.to_owned(),
                            found: argument_kind(bad),
                            span: bad.span(),
                        },
                    ),
                },
            }
        }
    }
}

/// Whether `c` can stand in an identifier.
pub open spec fn is_name_char(c: char) -> bool {
    ('0' <= c && c <= '9') || ('a' <= c && c <= 'z') || ('A' <= c && c <= 'Z') || c == '_' || c
        == '-'
}

/// Where the identifier that starts at `from` ends.
pub open spec fn name_end(s: Seq<char>, from: int) -> int
    decreases s.len() - from,
{
    if from >= s.len() {
        s.len() as int
    } else if is_name_char(s[from]) {
        name_end(s, from + 1)
    } else {
        from
    }
}

fn find_name_end(chars: &Vec<char>, from: usize) -> (r: usize)
    requires
        from <= chars@.len(),
    ensures
        r == name_end(chars@, from as int),
        from <= r <= chars@.len(),
{
    let mut i: usize = from;
    while i < chars.len()
        invariant
            from <= i <= chars@.len(),
            name_end(chars@, from as int) == name_end(chars@, i as int),
        decreases chars@.len() - i,
    {
        let c = chars[i];
        if !(('0' <= c && c <= '9') || ('a' <= c && c <= 'z') || ('A' <= c && c <= 'Z') || c == '_'
            || c == '-') {
            return i;
        }
        i = i + 1;
    }
    i
}

/// The warnings after the `$param`s in `s` from `i` on: one for each `$`
/// whose identifier names an argument, left to right.
pub open spec fn inert_warnings(
    s: Seq<char>,
    i: int,
    call: CallV,
    span: Span,
    warnings: Seq<ComposeWarningV>,
) -> Seq<ComposeWarningV>
    decreases s.len() - i,
{
    if i >= s.len() {
        warnings
    } else {
        let name = s.subrange(i + 1, name_end(s, i + 1));
        let next = if s[i] == '$' && call.arg(name) is Some {
            warned(
                warnings,
                ComposeWarningV::InertParameterInString {
                    template: call.template,
                    param: name,
                    span,
                },
            )
        } else {
            warnings
        };
        inert_warnings(s, i + 1, call, span, next)
    }
}

fn warn_of_inert_params(
    text: &str,
    call: &Call<'_>,
    span: Span,
    warnings: &mut Vec<ComposeWarning>,
)
    ensures
        final(warnings).deep_view() == inert_warnings(
            text@,
            0,
            call.deep_view(),
            span,
            old(warnings).deep_view(),
        ),
{
    let chars = chars_of(text);
    let mut i: usize = 0;
    while i < chars.len()
        invariant
            i <= chars@.len(),
            chars@ == text@,
            inert_warnings(text@, 0, call.deep_view(), span, old(warnings).deep_view())
                == inert_warnings(text@, i as int, call.deep_view(), span, warnings.deep_view()),
        decreases chars@.len() - i,
    {
        if chars[i] == '$' {
            let end = find_name_end(&chars, i + 1);
            let name = text.substring_char(i + 1, end);
            if call.arg(name).is_some() {
                warn(
                    warnings,
                    ComposeWarning::InertParameterInString {
                        template: call.template.to_owned(),
                        param: name.to_owned(),
                        span,
                    },
                );
            }
        }
        i = i + 1;
    }
}

/// Whether `s` holds the binding `{{name}}` at or after `from`.
pub open spec fn interpolates_name(s: Seq<char>, from: int) -> bool
    decreases s.len() - from,
{
    match binding_at(s, from) {
        Some((open, close)) => s.subrange(open + 2, close) == "name"@ || interpolates_name(
            s,
            close + 2,
        ),
        None => false,
    }
}

fn holds_name_binding(text: &str) -> (r: bool)
    ensures
        r == interpolates_name(text@, 0),
{
    let chars = chars_of(text);
    let mut from: usize = 0;
    loop
        invariant
            from <= chars@.len(),
            chars@ == text@,
            interpolates_name(text@, 0) == interpolates_name(text@, from as int),
        decreases chars@.len() - from,
    {
        match next_binding(&chars, from) {
            None => {
                return false;
            },
            Some((open, close)) => {
                if same_text(text.substring_char(open + 2, close), "name") {
                    return true;
                }
                from = close + 2;
            },
        }
    }
}

/// The warnings after an invocation's arguments have gone into the string
/// `s`.
pub open spec fn string_warnings(
    s: Seq<char>,
    call: CallV,
    span: Span,
    warnings: Seq<ComposeWarningV>,
) -> Seq<ComposeWarningV> {
    let inert = inert_warnings(s, 0, call, span, warnings);
    if interpolates_name(s, 0) && call.arg("name"@) is Some {
        warned(
            inert,
            ComposeWarningV::NameParameterNotInterpolated { template: call.template, span },
        )
    } else {
        inert
    }
}

fn substitute_string_content(
    text: &str,
    span: Span,
    call: &Call<'_>,
    warnings: &mut Vec<ComposeWarning>,
) -> (r: Result<String, ComposeError>)
    ensures
        outcome(r) == resolved(text@, bound_answers(call.deep_view())),
        final(warnings).deep_view() == string_warnings(
            text@,
            call.deep_view(),
            span,
            old(warnings).deep_view(),
        ),
{
    warn_of_inert_params(text, call, span, warnings);
    if holds_name_binding(text) && call.arg("name").is_some() {
        warn(
            warnings,
            ComposeWarning::NameParameterNotInterpolated {
                template: call.template.to_owned(),
                span,
            },
        );
    }
    resolve_by(text, call)
}

/// A field access with its base bound to an argument, where the base is a
/// parameter: only what names a declaration, or may yet, can carry a
/// field.
pub open spec fn bound_access(access: FieldAccessV, call: CallV) -> Result<
    FieldAccessV,
    ComposeErrorV,
> {
    match access.base {
        LiteralV::Param(param, _) => match call.arg(param) {
            None => Ok(access),
            Some(arg) => if base_text(arg) is Some {
                Ok(FieldAccessV { base: arg->Literal_0, ..access })
            } else {
                Err(
                    ComposeErrorV::ArgumentCantCarryField {
                        template: call.template,
                        param,
                        found: kind_of_argument(arg),
                        span: arg.span(),
                    },
                )
            },
        },
        _ => Ok(access),
    }
}

fn substitute_field_base(access: &FieldAccess, call: &Call<'_>) -> (r: Result<
    FieldAccess,
    ComposeError,
>)
    ensures
        outcome(r) == bound_access(access.deep_view(), call.deep_view()),
{
    match &access.base {
        Literal::Param(param, _) => match call.arg(param.as_str()) {
            None => Ok(access.duplicate()),
            Some(arg) => match arg {
                RawValue::Literal(Literal::Ident(_, _)) | RawValue::Literal(Literal::Str(_, _))
                | RawValue::Literal(Literal::Param(_, _))
                | RawValue::Literal(Literal::Qualified(_)) => {
                    let base = match arg {
                        RawValue::Literal(lit) => lit.duplicate(),
                        _ => access.base.duplicate(),
                    };
                    Ok(FieldAccess { base, field: access.field.duplicate(), span: access.span })
                },
                _ => Err(
                    ComposeError::ArgumentCantCarryField {
                        template: call.template.to_owned(),
                        param: param.clone(),
                        found: argument_kind(arg),
                        span: arg.span(),
                    },
                ),
            },
        },
        _ => Ok(access.duplicate()),
    }
}

/// The outcome of a step that may add warnings, which a failed step does
/// not get to report.
pub open spec fn stepped<T: DeepView>(
    r: Result<T, ComposeError>,
    warnings: Seq<ComposeWarningV>,
) -> Result<(T::V, Seq<ComposeWarningV>), ComposeErrorV> {
    match r {
        Ok(value) => Ok((value.deep_view(), warnings)),
        Err(error) => Err(error.deep_view()),
    }
}

/// A literal with an invocation's arguments in it: a `$param` becomes its
/// argument, which has to be a single value; in a string the bindings are
/// answered; in a field access the base is bound.
pub open spec fn bound_literal(
    lit: LiteralV,
    call: CallV,
    warnings: Seq<ComposeWarningV>,
) -> Result<(LiteralV, Seq<ComposeWarningV>), ComposeErrorV> {
    match lit {
        LiteralV::Param(name, span) => match call.arg(name) {
            None => Ok((lit, warnings)),
            Some(RawValueV::Literal(actual)) => Ok((actual, warnings)),
            Some(_) => Err(
                ComposeErrorV::TemplateArgumentNotScalar {
                    template: call.template,
                    param: name,
                    span,
                },
            ),
        },
        LiteralV::Str(text, span) => match resolved(text, bound_answers(call)) {
            Ok(content) => Ok(
                (LiteralV::Str(content, span), string_warnings(text, call, span, warnings)),
            ),
            Err(error) => Err(error),
        },
        LiteralV::Field(access) => match bound_access(*access, call) {
            Ok(bound) => Ok((LiteralV::Field(Box::new(bound)), warnings)),
            Err(error) => Err(error),
        },
        _ => Ok((lit, warnings)),
    }
}

pub(crate) fn substitute_literal(
    lit: &Literal,
    call: &Call<'_>,
    warnings: &mut Vec<ComposeWarning>,
) -> (r: Result<Literal, ComposeError>)
    ensures
        stepped(r, final(warnings).deep_view()) == bound_literal(
            lit.deep_view(),
            call.deep_view(),
            old(warnings).deep_view(),
        ),
{
    match lit {
        Literal::Param(name, span) => match call.arg(name.as_str()) {
            None => Ok(lit.duplicate()),
            Some(RawValue::Literal(actual)) => Ok(actual.duplicate()),
            Some(_) => Err(
                ComposeError::TemplateArgumentNotScalar {
                    template: call.template.to_owned(),
                    param: name.clone(),
                    span: *span,
                },
            ),
        },
        Literal::Str(text, span) => match substitute_string_content(
            text.as_str(),
            *span,
            call,
            warnings,
        ) {
            Ok(content) => Ok(Literal::Str(content, *span)),
            Err(error) => Err(error),
        },
        Literal::Field(access) => match substitute_field_base(&**access, call) {
            Ok(bound) => Ok(Literal::Field(Box::new(bound))),
            Err(error) => Err(error),
        },
        _ => Ok(lit.duplicate()),
    }
}

/// Why a literal cannot stand where a number belongs, if it cannot. A
/// parameter is not decided yet.
pub open spec fn not_a_number(lit: LiteralV) -> Option<Seq<char>> {
    match lit {
        LiteralV::Number { .. } => None,
        LiteralV::Param(_, _) => None,
        LiteralV::Str(_, _) => Some("a quoted string"@),
        LiteralV::Ident(_, _) => Some("a bare identifier"@),
        LiteralV::Qualified(_) => Some("a qualified reference"@),
        LiteralV::Field(_) => Some("a field access"@),
    }
}

pub(crate) fn numeric_mismatch(lit: &Literal) -> (r: Option<&'static str>)
    ensures
        r.deep_view() == not_a_number(lit.deep_view()),
{
    match lit {
        Literal::Number { .. } => None,
        Literal::Param(_, _) => None,
        Literal::Str(_, _) => Some("a quoted string"),
        Literal::Ident(_, _) => Some("a bare identifier"),
        Literal::Qualified(_) => Some("a qualified reference"),
        Literal::Field(_) => Some("a field access"),
    }
}

/// A literal where a number belongs, with an invocation's arguments in
/// it: what takes the place of a `$param` has to be a number, or a
/// parameter still.
pub open spec fn bound_number(
    lit: LiteralV,
    call: CallV,
    warnings: Seq<ComposeWarningV>,
) -> Result<(LiteralV, Seq<ComposeWarningV>), ComposeErrorV> {
    match bound_literal(lit, call, warnings) {
        Err(error) => Err(error),
        Ok((bound, after)) => match (lit, not_a_number(bound)) {
            (LiteralV::Param(param, _), Some(found)) => Err(
                ComposeErrorV::ArgumentNotNumeric {
                    template: call.template,
                    param,
                    found,
                    span: bound.span(),
                },
            ),
            _ => Ok((bound, after)),
        },
    }
}

pub(crate) fn substitute_numeric_literal(
    lit: &Literal,
    call: &Call<'_>,
    warnings: &mut Vec<ComposeWarning>,
) -> (r: Result<Literal, ComposeError>)
    ensures
        stepped(r, final(warnings).deep_view()) == bound_number(
            lit.deep_view(),
            call.deep_view(),
            old(warnings).deep_view(),
        ),
{
    let bound = match substitute_literal(lit, call, warnings) {
        Ok(bound) => bound,
        Err(error) => {
            return Err(error);
        },
    };
    if let Literal::Param(param, _) = lit {
        if let Some(found) = numeric_mismatch(&bound) {
            return Err(
                ComposeError::ArgumentNotNumeric {
                    template: call.template.to_owned(),
                    param: param.clone(),
                    found,
                    span: bound.span(),
                },
            );
        }
    }
    Ok(bound)
}

/// A literal where a reference belongs, with an invocation's arguments in
/// it: what takes the place of a `$param` must not be a number.
pub open spec fn bound_reference(
    lit: LiteralV,
    call: CallV,
    warnings: Seq<ComposeWarningV>,
) -> Result<(LiteralV, Seq<ComposeWarningV>), ComposeErrorV> {
    match bound_literal(lit, call, warnings) {
        Err(error) => Err(error),
        Ok((bound, after)) => match (lit, bound) {
            (LiteralV::Param(param, _), LiteralV::Number { span, .. }) => Err(
                ComposeErrorV::ArgumentNotReferenceShaped { template: call.template, param, span },
            ),
            _ => Ok((bound, after)),
        },
    }
}

pub(crate) fn substitute_reference_literal(
    lit: &Literal,
    call: &Call<'_>,
    warnings: &mut Vec<ComposeWarning>,
) -> (r: Result<Literal, ComposeError>)
    ensures
        stepped(r, final(warnings).deep_view()) == bound_reference(
            lit.deep_view(),
            call.deep_view(),
            old(warnings).deep_view(),
        ),
{
    let bound = match substitute_literal(lit, call, warnings) {
        Ok(bound) => bound,
        Err(error) => {
            return Err(error);
        },
    };
    if let Literal::Param(param, _) = lit {
        if let Literal::Number { span, .. } = &bound {
            return Err(
                ComposeError::ArgumentNotReferenceShaped {
                    template: call.template.to_owned(),
                    param: param.clone(),
                    span: *span,
                },
            );
        }
    }
    Ok(bound)
}

/// One item of a list that takes the place of a `$param` among
/// references: a single value, and no number.
pub open spec fn spliced_item(item: RawValueV, param: Seq<char>, call: CallV) -> Result<
    LiteralV,
    ComposeErrorV,
> {
    match item {
        RawValueV::Literal(LiteralV::Number { span, .. }) => Err(
            ComposeErrorV::ArgumentNotReferenceShaped { template: call.template, param, span },
        ),
        RawValueV::Literal(lit) => Ok(lit),
        _ => Err(
            ComposeErrorV::TemplateArgumentNotScalar {
                template: call.template,
                param,
                span: item.span(),
            },
        ),
    }
}

pub(crate) fn reference_list_item(item: &RawValue, param: &str, call: &Call<'_>) -> (r: Result<
    Literal,
    ComposeError,
>)
    ensures
        outcome(r) == spliced_item(item.deep_view(), param@, call.deep_view()),
{
    match item {
        RawValue::Literal(Literal::Number { span, .. }) => Err(
            ComposeError::ArgumentNotReferenceShaped {
                template: call.template.to_owned(),
                param: param.to_owned(),
                span: *span,
            },
        ),
        RawValue::Literal(lit) => Ok(lit.duplicate()),
        _ => Err(
            ComposeError::TemplateArgumentNotScalar {
                template: call.template.to_owned(),
                param: param.to_owned(),
                span: item.span(),
            },
        ),
    }
}

} // verus!
