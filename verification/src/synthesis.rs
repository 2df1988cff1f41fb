//! From a variant and its route to the branch of the resolver.
//!
//! A variant without data gets a branch that gives its template as it is. A
//! variant with unnamed fields gets one that binds its fields, in their order,
//! to the names of the template's placeholders, in theirs: there must be as
//! many of the one as of the other. A variant with named fields gets none.

use vstd::prelude::*;
use vstd::string::*;

use crate::annotation::{RouteSpec, RouteSpecView};
use crate::branch::{DispatchBranch, DispatchBranchView};
use crate::description::{Shape, ShapeView, Variant, VariantView};
use crate::error::{DeriveError, DeriveErrorView};
use crate::placeholder::{extract_placeholders, placeholder_names};
use crate::substitution::{
    all_among, lemma_distinct_names_substitute_in_order, lemma_own_names_cover,
    substituted_in_order,
};

verus! {

/// The branch for a variant without data.
pub open spec fn unit_branch(
    enum_name: Seq<char>,
    variant: Seq<char>,
    route: RouteSpecView,
) -> DispatchBranchView {
    DispatchBranchView {
        enum_name,
        variant,
        bindings: None,
        method: route.method,
        url_literal: route.url_literal,
        url_template: route.url_template,
    }
}

/// The branch for a variant with unnamed fields: the field at each place is
/// bound to the name of the placeholder at that place.
pub open spec fn positional_branch(
    enum_name: Seq<char>,
    variant: Seq<char>,
    route: RouteSpecView,
) -> DispatchBranchView {
    DispatchBranchView {
        enum_name,
        variant,
        bindings: Some(placeholder_names(route.url_template)),
        method: route.method,
        url_literal: route.url_literal,
        url_template: route.url_template,
    }
}

/// The branch for a variant with the unnamed fields `fields`, or the failure
/// where the template has not as many placeholders as there are fields.
pub open spec fn positional_arm(
    enum_name: Seq<char>,
    variant: Seq<char>,
    fields: Seq<Seq<char>>,
    route: RouteSpecView,
) -> Result<DispatchBranchView, DeriveErrorView> {
    if placeholder_names(route.url_template).len() == fields.len() {
        Ok(positional_branch(enum_name, variant, route))
    } else {
        Err(DeriveErrorView::ArityMismatch { variant })
    }
}

/// The branch for `variant` with the route `route`, or the failure to make one.
pub open spec fn synthesized(
    enum_name: Seq<char>,
    variant: VariantView,
    route: RouteSpecView,
) -> Result<DispatchBranchView, DeriveErrorView> {
    match variant.shape {
        ShapeView::Unit => Ok(unit_branch(enum_name, variant.name, route)),
        ShapeView::Positional(fields) => positional_arm(enum_name, variant.name, fields, route),
        ShapeView::Named(_) => Err(DeriveErrorView::UnsupportedShape),
    }
}

/// The branch of a variant without data gives the method of the route and its
/// template as it is, whatever the template holds.
pub proof fn lemma_unit_branch_gives_template(
    enum_name: Seq<char>,
    variant: VariantView,
    route: RouteSpecView,
)
    requires
        variant.shape is Unit,
    ensures
        synthesized(enum_name, variant, route) matches Ok(branch) && branch.resolved(Seq::empty())
            == Some((route.method, route.url_template)),
{
}

/// A variant with as many unnamed fields as its template has placeholders gets
/// a branch whose pattern binds one name for each field, in which each
/// placeholder's name is bound and each bound name is that of a placeholder.
pub proof fn lemma_positional_branch_binds_what_it_uses(
    enum_name: Seq<char>,
    variant: VariantView,
    route: RouteSpecView,
)
    requires
        variant.shape matches ShapeView::Positional(fields) && fields.len() == placeholder_names(
            route.url_template,
        ).len(),
    ensures
        synthesized(enum_name, variant, route) matches Ok(branch) && branch.bindings matches Some(
            bindings,
        ) && bindings.len() == variant.shape->Positional_0.len() && all_among(
            placeholder_names(branch.url_template),
            bindings,
        ) && all_among(bindings, placeholder_names(branch.url_template)),
{
    lemma_own_names_cover(placeholder_names(route.url_template));
}

/// A variant with as many unnamed fields as its template has placeholders gets
/// a branch. Where no two placeholders have the same name, the branch gives, on
/// a value of the variant, the method of the route and the template with its
/// placeholders replaced, from left to right, by the texts of the fields in
/// their order.
pub proof fn lemma_positional_branch_substitutes_in_order(
    enum_name: Seq<char>,
    variant: VariantView,
    route: RouteSpecView,
    values: Seq<Seq<char>>,
)
    requires
        variant.shape matches ShapeView::Positional(fields) && fields.len() == placeholder_names(
            route.url_template,
        ).len() && values.len() == fields.len(),
        placeholder_names(route.url_template).no_duplicates(),
    ensures
        synthesized(enum_name, variant, route) matches Ok(branch) && branch.resolved(values)
            == Some((route.method, substituted_in_order(route.url_template, values))),
{
    lemma_distinct_names_substitute_in_order(route.url_template, values);
}

/// A variant whose unnamed fields are not as many as the placeholders of its
/// template gets no branch.
pub proof fn lemma_arity_mismatch_is_rejected(
    enum_name: Seq<char>,
    variant: VariantView,
    route: RouteSpecView,
)
    requires
        variant.shape matches ShapeView::Positional(fields) && fields.len() != placeholder_names(
            route.url_template,
        ).len(),
    ensures
        synthesized(enum_name, variant, route) == Err::<DispatchBranchView, DeriveErrorView>(
            DeriveErrorView::ArityMismatch { variant: variant.name },
        ),
{
}

/// A variant with named fields gets no branch, however many fields it has and
/// whatever its template holds.
pub proof fn lemma_named_fields_are_rejected(
    enum_name: Seq<char>,
    variant: VariantView,
    route: RouteSpecView,
)
    requires
        variant.shape is Named,
    ensures
        synthesized(enum_name, variant, route) == Err::<DispatchBranchView, DeriveErrorView>(
            DeriveErrorView::UnsupportedShape,
        ),
{
}

/// Makes the branch for a variant without data.
pub fn impl_unit(enum_name: &String, variant: &Variant, route: &RouteSpec) -> (branch:
    DispatchBranch)
    ensures
        branch@ == unit_branch(enum_name@, variant@.name, route@),
{
    DispatchBranch {
        enum_name: enum_name.clone(),
        variant: variant.name.clone(),
        bindings: None,
        method: route.method.clone(),
        url_literal: route.url_literal.clone(),
        url_template: route.url_template.clone(),
    }
}

/// Makes the branch for a variant with the unnamed fields `fields`.
pub fn impl_unnamed_fields(
    enum_name: &String,
    variant: &Variant,
    fields: &Vec<String>,
    route: &RouteSpec,
) -> (arm: Result<DispatchBranch, DeriveError>)
    ensures
        match arm {
            Ok(branch) => positional_arm(enum_name@, variant@.name, fields.deep_view(), route@)
                == Ok::<DispatchBranchView, DeriveErrorView>(branch@),
            Err(error) => positional_arm(enum_name@, variant@.name, fields.deep_view(), route@)
                == Err::<DispatchBranchView, DeriveErrorView>(error@),
        },
        arm is Ok <==> placeholder_names(route@.url_template).len() == fields.len(),
{
    let parameter_names = extract_placeholders(route.url_template.as_str());
    if parameter_names.len() != fields.len() {
        return Err(DeriveError::ArityMismatch { variant: variant.name.clone() });
    }
    Ok(
        DispatchBranch {
            enum_name: enum_name.clone(),
            variant: variant.name.clone(),
            bindings: Some(parameter_names),
            method: route.method.clone(),
            url_literal: route.url_literal.clone(),
            url_template: route.url_template.clone(),
        },
    )
}

/// Makes the branch for `variant` with the route `route`.
pub fn synthesize_arm(enum_name: &String, variant: &Variant, route: &RouteSpec) -> (arm: Result<
    DispatchBranch,
    DeriveError,
>)
    ensures
        match arm {
            Ok(branch) => synthesized(enum_name@, variant@, route@) == Ok::<
                DispatchBranchView,
                DeriveErrorView,
            >(branch@),
            Err(error) => synthesized(enum_name@, variant@, route@) == Err::<
                DispatchBranchView,
                DeriveErrorView,
            >(error@),
        },
{
    match &variant.shape {
        Shape::Unit => Ok(impl_unit(enum_name, variant, route)),
        Shape::Positional(fields) => impl_unnamed_fields(enum_name, variant, fields, route),
        Shape::Named(_) => Err(DeriveError::UnsupportedShape),
    }
}

} // verus!
