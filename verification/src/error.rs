//! The ways in which a derivation fails.

use vstd::prelude::*;
use vstd::string::*;

verus! {

/// Why no resolver could be generated. The first failure met ends the
/// derivation; nothing is generated beside it.
#[derive(Clone, Debug, PartialEq, Eq)]
pub enum DeriveError {
    /// The enumeration has no variant.
    EmptyEnumeration,
    /// A route annotation is not a method, a comma and a string literal.
    MalformedAnnotation,
    /// The template of `variant` has not as many placeholders as the variant
    /// has fields.
    ArityMismatch { variant: String },
    /// A variant has named fields.
    UnsupportedShape,
}

/// What a `DeriveError` says, with text as sequences of characters.
pub enum DeriveErrorView {
    EmptyEnumeration,
    MalformedAnnotation,
    ArityMismatch { variant: Seq<char> },
    UnsupportedShape,
}

impl DeepView for DeriveError {
    type V = DeriveErrorView;

    open spec fn deep_view(&self) -> DeriveErrorView {
        match *self {
            DeriveError::EmptyEnumeration => DeriveErrorView::EmptyEnumeration,
            DeriveError::MalformedAnnotation => DeriveErrorView::MalformedAnnotation,
            DeriveError::ArityMismatch { variant } => DeriveErrorView::ArityMismatch {
                variant: variant@,
            },
            DeriveError::UnsupportedShape => DeriveErrorView::UnsupportedShape,
        }
    }
}

impl View for DeriveError {
    type V = DeriveErrorView;

    #[verifier::inline]
    open spec fn view(&self) -> DeriveErrorView {
        self.deep_view()
    }
}

impl DeriveErrorView {
    /// The message that reports the failure.
    pub open spec fn message(self) -> Seq<char> {
        match self {
            DeriveErrorView::EmptyEnumeration => "Cannot derive `Routes` on empty enum"@,
            DeriveErrorView::MalformedAnnotation => "Invalid syntax for `route` attribute"@,
            DeriveErrorView::ArityMismatch { variant } =>
                "Must have the same amount of parameter names as types in enum field `"@
                    + variant + "`."@,
            DeriveErrorView::UnsupportedShape => "Fields cannot be named."@,
        }
    }
}

impl DeriveError {
    /// The message that reports the failure.
    pub fn message(&self) -> (text: String)
        ensures
            text@ == self@.message(),
    {
        match self {
            DeriveError::EmptyEnumeration => String::from_str(
                "Cannot derive `Routes` on empty enum",
            ),
            DeriveError::MalformedAnnotation => String::from_str(
                "Invalid syntax for `route` attribute",
            ),
            DeriveError::ArityMismatch { variant } => {
                let mut text = String::from_str(
                    "Must have the same amount of parameter names as types in enum field `",
                );
                text.append(variant.as_str());
                text.append("`.");
                text
            },
            DeriveError::UnsupportedShape => String::from_str("Fields cannot be named."),
        }
    }
}

} // verus!
