//! What composition reports without failing.

use vstd::prelude::*;
use vstd::string::*;

use crate::deep::{Duplicate, SameView};
use crate::source::{location, SourceMap, Span};

verus! {

/// A spelling that looks like it does something and does not.
#[derive(Debug, PartialEq)]
pub enum ComposeWarning {
    /// A `$param` inside a string, which is emitted as written.
    InertParameterInString { template: String, param: String, span: Span },
    /// A `{{name}}` in a template that has a parameter called `name`: the
    /// binding is the enclosing service's name all the same.
    NameParameterNotInterpolated { template: String, span: Span },
}

/// The view of [`ComposeWarning`].
#[verifier::ext_equal]
pub enum ComposeWarningV {
    InertParameterInString { template: Seq<char>, param: Seq<char>, span: Span },
    NameParameterNotInterpolated { template: Seq<char>, span: Span },
}

impl DeepView for ComposeWarning {
    type V = ComposeWarningV;

    open spec fn deep_view(&self) -> ComposeWarningV {
        match self {
            ComposeWarning::InertParameterInString { template, param, span } =>
                ComposeWarningV::InertParameterInString {
                template: template@,
                param: param@,
                span: *span,
            },
            ComposeWarning::NameParameterNotInterpolated { template, span } =>
                ComposeWarningV::NameParameterNotInterpolated { template: template@, span: *span },
        }
    }
}

impl Duplicate for ComposeWarning {
    fn duplicate(&self) -> (r: Self) {
        match self {
            ComposeWarning::InertParameterInString { template, param, span } =>
                ComposeWarning::InertParameterInString {
                template: template.clone(),
                param: param.clone(),
                span: *span,
            },
            ComposeWarning::NameParameterNotInterpolated { template, span } =>
                ComposeWarning::NameParameterNotInterpolated {
                template: template.clone(),
                span: *span,
            },
        }
    }
}

impl Clone for ComposeWarning {
    fn clone(&self) -> (r: Self)
        ensures
            r.deep_view() == self.deep_view(),
    {
        self.duplicate()
    }
}

impl SameView for ComposeWarning {
    fn same(&self, other: &Self) -> (r: bool) {
        match (self, other) {
            (
                ComposeWarning::InertParameterInString { template, param, span },
                ComposeWarning::InertParameterInString { template: t, param: p, span: s },
            ) => template.same(t) && param.same(p) && span.same(s),
            (
                ComposeWarning::NameParameterNotInterpolated { template, span },
                ComposeWarning::NameParameterNotInterpolated { template: t, span: s },
            ) => template.same(t) && span.same(s),
            _ => false,
        }
    }
}

impl ComposeWarningV {
    /// Where a warning points.
    pub open spec fn span(self) -> Span {
        match self {
            ComposeWarningV::InertParameterInString { span, .. } => span,
            ComposeWarningV::NameParameterNotInterpolated { span, .. } => span,
        }
    }

    /// What a diagnostic prints for a warning.
    pub open spec fn text(self, files: Option<Seq<Seq<char>>>) -> Seq<char> {
        let at = location(self.span(), files);
        match self {
            ComposeWarningV::InertParameterInString { template, param, .. } => at
                + ": warning: `$"@ + param
                + "` inside a string is not a parameter reference — it is emitted verbatim; write `{{"@
                + param + "}}` to interpolate template `"@ + template + "`'s `"@ + param
                + "` here"@,
            ComposeWarningV::NameParameterNotInterpolated { template, .. } => at
                + ": warning: `{{name}}` is the enclosing service's name, not template `"@
                + template
                + "`'s `name` parameter — write `$name` for the parameter, or rename it to interpolate it"@,
        }
    }
}

impl ComposeWarning {
    /// Where the warning points.
    pub fn span(&self) -> (r: Span)
        ensures
            r == self.deep_view().span(),
    {
        match self {
            ComposeWarning::InertParameterInString { span, .. } => *span,
            ComposeWarning::NameParameterNotInterpolated { span, .. } => *span,
        }
    }

    /// What a diagnostic prints for this warning, with its file named
    /// where `files` knows it.
    pub fn display(&self, files: &SourceMap) -> (r: String)
        ensures
            r@ == self.deep_view().text(Some(files.deep_view())),
    {
        self.write(Some(files))
    }

    /// What a diagnostic prints for this warning when it comes from a
    /// single file.
    pub fn message(&self) -> (r: String)
        ensures
            r@ == self.deep_view().text(None),
    {
        self.write(None)
    }

    fn write(&self, files: Option<&SourceMap>) -> (r: String)
        ensures
            r@ == self.deep_view().text(files.deep_view()),
    {
        let mut out = self.span().locate(files);
        match self {
            ComposeWarning::InertParameterInString { template, param, .. } => {
                out.append(": warning: `$");
                out.append(param.as_str());
                out.append(
                    "` inside a string is not a parameter reference — it is emitted verbatim; write `{{",
                );
                out.append(param.as_str());
                out.append("}}` to interpolate template `");
                out.append(template.as_str());
                out.append("`'s `");
                out.append(param.as_str());
                out.append("` here");
            },
            ComposeWarning::NameParameterNotInterpolated { template, .. } => {
                out.append(
                    ": warning: `{{name}}` is the enclosing service's name, not template `",
                );
                out.append(template.as_str());
                out.append(
                    "`'s `name` parameter — write `$name` for the parameter, or rename it to interpolate it",
                );
            },
        }
        out
    }
}

/// The warnings raised so far and one more, unless it is among them.
pub open spec fn warned(
    warnings: Seq<ComposeWarningV>,
    warning: ComposeWarningV,
) -> Seq<ComposeWarningV> {
    if warnings.contains(warning) {
        warnings
    } else {
        warnings.push(warning)
    }
}

/// Whether warnings have only been added to, none of them twice.
pub open spec fn grown(before: Seq<ComposeWarningV>, after: Seq<ComposeWarningV>) -> bool {
    &&& before.is_prefix_of(after)
    &&& before.no_duplicates() ==> after.no_duplicates()
}

/// Adding to warnings twice is adding to them.
pub broadcast proof fn lemma_grown_twice(
    first: Seq<ComposeWarningV>,
    second: Seq<ComposeWarningV>,
    third: Seq<ComposeWarningV>,
)
    requires
        #[trigger] grown(first, second),
        #[trigger] grown(second, third),
    ensures
        grown(first, third),
{
}

/// Recording a warning adds it, unless it is there.
pub proof fn lemma_warned_grows(warnings: Seq<ComposeWarningV>, warning: ComposeWarningV)
    ensures
        grown(warnings, warned(warnings, warning)),
{
}

/// Records a warning unless an identical one is there already.
pub(crate) fn warn(warnings: &mut Vec<ComposeWarning>, warning: ComposeWarning)
    ensures
        final(warnings).deep_view() == warned(old(warnings).deep_view(), warning.deep_view()),
{
    let mut i: usize = 0;
    while i < warnings.len()
        invariant
            i <= warnings@.len(),
            *warnings == *old(warnings),
            forall|k: int| 0 <= k < i ==> warnings.deep_view()[k] != warning.deep_view(),
        decreases warnings@.len() - i,
    {
        if warnings[i].same(&warning) {
            assert(warnings.deep_view()[i as int] == warning.deep_view());
            return;
        }
        i = i + 1;
    }
    crate::deep::push_to(warnings, warning);
}

} // verus!
