//! The derivation as a whole: from the description of an enumeration to the
//! source text of its resolver.
//!
//! The variants are taken in their order. One without a route annotation gets
//! no branch, so the resolver covers the annotated variants and no others. One
//! with named fields is rejected, annotated or not. The first failure ends the
//! derivation.

use vstd::prelude::*;
use vstd::string::*;

use crate::annotation::variant_route;
use crate::branch::{join, joined, DispatchBranch, DispatchBranchView};
use crate::description::{Shape, TargetType, TargetTypeView, Variant, VariantView};
use crate::error::{DeriveError, DeriveErrorView};
use crate::synthesis::{synthesize_arm, synthesized};

verus! {

/// The branch for `variant`. The annotation is read first: where it spells no
/// route, that is the failure. A variant with named fields is a failure whether
/// it is annotated or not. Any other variant without a route annotation gets no
/// branch, and an annotated one the branch that can be made for it, or the
/// failure to make one.
pub open spec fn variant_branch(enum_name: Seq<char>, variant: VariantView) -> Option<
    Result<DispatchBranchView, DeriveErrorView>,
> {
    match variant_route(variant) {
        None => if variant.shape is Named {
            Some(Err(DeriveErrorView::UnsupportedShape))
        } else {
            None
        },
        Some(Err(error)) => Some(Err(error)),
        Some(Ok(route)) => Some(synthesized(enum_name, variant, route)),
    }
}

/// The branches for `variants`, in the order of the variants, or the failure of
/// the first variant that fails.
pub open spec fn derived_branches(enum_name: Seq<char>, variants: Seq<VariantView>) -> Result<
    Seq<DispatchBranchView>,
    DeriveErrorView,
>
    decreases variants.len(),
{
    if variants.len() == 0 {
        Ok(Seq::empty())
    } else {
        match derived_branches(enum_name, variants.drop_last()) {
            Err(error) => Err(error),
            Ok(branches) => match variant_branch(enum_name, variants.last()) {
                None => Ok(branches),
                Some(Err(error)) => Err(error),
                Some(Ok(branch)) => Ok(branches.push(branch)),
            },
        }
    }
}

/// The variants among `variants` that have a route annotation, in their order.
pub open spec fn annotated_variants(variants: Seq<VariantView>) -> Seq<VariantView>
    decreases variants.len(),
{
    if variants.len() == 0 {
        Seq::empty()
    } else if variant_route(variants.last()) is Some {
        annotated_variants(variants.drop_last()).push(variants.last())
    } else {
        annotated_variants(variants.drop_last())
    }
}

/// Where the derivation succeeds, there is one branch for each annotated
/// variant and none for any other: the branch at each place is the one of the
/// annotated variant at that place.
pub proof fn lemma_branches_cover_annotated_variants(
    enum_name: Seq<char>,
    variants: Seq<VariantView>,
)
    requires
        derived_branches(enum_name, variants) is Ok,
    ensures
        derived_branches(enum_name, variants) matches Ok(branches) && branches.len()
            == annotated_variants(variants).len() && forall|k: int|
            0 <= k < branches.len() ==> variant_branch(
                enum_name,
                #[trigger] annotated_variants(variants)[k],
            ) == Some(Ok::<DispatchBranchView, DeriveErrorView>(branches[k])),
    decreases variants.len(),
{
    if variants.len() > 0 {
        lemma_branches_cover_annotated_variants(enum_name, variants.drop_last());
    }
}

/// A variant with named fields is rejected, annotated or not and however many
/// fields it has: for its shape, unless its annotation spells no route, which
/// is found first.
pub proof fn lemma_named_variant_is_rejected(enum_name: Seq<char>, variant: VariantView)
    requires
        variant.shape is Named,
    ensures
        variant_branch(enum_name, variant) matches Some(Err(_)),
        !(variant_route(variant) matches Some(Err(_))) ==> variant_branch(enum_name, variant)
            == Some(Err::<DispatchBranchView, DeriveErrorView>(DeriveErrorView::UnsupportedShape)),
{
}

/// An enumeration that has a variant with named fields has no resolver.
pub proof fn lemma_named_variant_fails_the_derivation(target: TargetTypeView, index: int)
    requires
        0 <= index < target.variants.len(),
        target.variants[index].shape is Named,
    ensures
        derived(target) is Err,
{
    let upto = target.variants.take(index + 1);
    assert(upto.last() == target.variants[index]);
    lemma_named_variant_is_rejected(target.name, target.variants[index]);
    assert(derived_branches(target.name, upto) is Err);
    lemma_failure_stays(target.name, target.variants, index + 1);
}

/// Where no variant before the first one with named fields fails, and that one
/// has no malformed annotation, the derivation fails for the shape.
pub proof fn lemma_first_named_variant_is_unsupported(target: TargetTypeView, index: int)
    requires
        0 <= index < target.variants.len(),
        target.variants[index].shape is Named,
        !(variant_route(target.variants[index]) matches Some(Err(_))),
        derived_branches(target.name, target.variants.take(index)) is Ok,
    ensures
        derived(target) == Err::<Seq<char>, DeriveErrorView>(DeriveErrorView::UnsupportedShape),
{
    let upto = target.variants.take(index + 1);
    assert(upto.last() == target.variants[index]);
    assert(upto.drop_last() =~= target.variants.take(index));
    lemma_named_variant_is_rejected(target.name, target.variants[index]);
    lemma_failure_stays(target.name, target.variants, index + 1);
}

/// An enumeration without variants has no resolver.
pub proof fn lemma_empty_enumeration_is_rejected(target: TargetTypeView)
    requires
        target.variants.len() == 0,
    ensures
        derived(target) == Err::<Seq<char>, DeriveErrorView>(DeriveErrorView::EmptyEnumeration),
{
}

/// The source text of each branch.
pub open spec fn rendered_branches(branches: Seq<DispatchBranchView>) -> Seq<Seq<char>> {
    Seq::new(branches.len(), |k: int| branches[k].rendered())
}

/// The source text of the resolver of the enumeration `enum_name` with the
/// branches `branches`.
pub open spec fn resolver_source(enum_name: Seq<char>, branches: Seq<DispatchBranchView>) -> Seq<
    char,
> {
    "impl "@ + enum_name + " { pub fn resolve(&self) -> (Method, String) { match self { "@ + joined(
        rendered_branches(branches),
        ", "@,
    ) + " } } }"@
}

/// The source text of the resolver of `target`, or the failure to derive one.
pub open spec fn derived(target: TargetTypeView) -> Result<Seq<char>, DeriveErrorView> {
    if target.variants.len() == 0 {
        Err(DeriveErrorView::EmptyEnumeration)
    } else {
        match derived_branches(target.name, target.variants) {
            Err(error) => Err(error),
            Ok(branches) => Ok(resolver_source(target.name, branches)),
        }
    }
}

/// Makes the branch for `variant`: none for a variant without a route
/// annotation, unless it has named fields, which is a failure.
pub fn derive_branch(enum_name: &String, variant: &Variant) -> (arm: Option<
    Result<DispatchBranch, DeriveError>,
>)
    ensures
        match arm {
            None => variant_branch(enum_name@, variant@) is None,
            Some(Ok(branch)) => variant_branch(enum_name@, variant@) == Some(
                Ok::<DispatchBranchView, DeriveErrorView>(branch@),
            ),
            Some(Err(error)) => variant_branch(enum_name@, variant@) == Some(
                Err::<DispatchBranchView, DeriveErrorView>(error@),
            ),
        },
{
    match variant.route() {
        None => match &variant.shape {
            Shape::Named(_) => Some(Err(DeriveError::UnsupportedShape)),
            _ => None,
        },
        Some(Err(error)) => Some(Err(error)),
        Some(Ok(route)) => Some(synthesize_arm(enum_name, variant, &route)),
    }
}

/// Makes the branches for the annotated variants of `target`, in the order of
/// the variants.
pub fn derive_branches(target: &TargetType) -> (arms: Result<Vec<DispatchBranch>, DeriveError>)
    ensures
        match arms {
            Ok(branches) => derived_branches(target@.name, target@.variants) == Ok::<
                Seq<DispatchBranchView>,
                DeriveErrorView,
            >(branches.deep_view()),
            Err(error) => derived_branches(target@.name, target@.variants) == Err::<
                Seq<DispatchBranchView>,
                DeriveErrorView,
            >(error@),
        },
{
    let mut routes: Vec<DispatchBranch> = Vec::new();
    let mut i: usize = 0;
    assert(routes.deep_view() =~= Seq::empty());
    while i < target.variants.len()
        invariant
            i <= target.variants.len(),
            derived_branches(target@.name, target@.variants.take(i as int)) == Ok::<
                Seq<DispatchBranchView>,
                DeriveErrorView,
            >(routes.deep_view()),
        decreases target.variants.len() - i,
    {
        proof {
            let before = target@.variants.take(i as int);
            let after = target@.variants.take(i + 1);
            assert(after.drop_last() =~= before);
            assert(after.last() == target.variants[i as int]@);
        }
        let ghost done = routes.deep_view();
        match derive_branch(&target.name, &target.variants[i]) {
            None => {},
            Some(Err(error)) => {
                proof {
                    lemma_failure_stays(target@.name, target@.variants, i + 1);
                }
                return Err(error);
            },
            Some(Ok(branch)) => {
                routes.push(branch);
                assert(routes.deep_view() =~= done.push(branch@));
            },
        }
        i += 1;
    }
    proof {
        assert(target@.variants.take(target.variants.len() as int) =~= target@.variants);
    }
    Ok(routes)
}

/// A derivation that has failed on the first `count` variants fails in the same
/// way on all of them.
pub proof fn lemma_failure_stays(enum_name: Seq<char>, variants: Seq<VariantView>, count: int)
    requires
        0 <= count <= variants.len(),
        derived_branches(enum_name, variants.take(count)) is Err,
    ensures
        derived_branches(enum_name, variants) == derived_branches(enum_name, variants.take(count)),
    decreases variants.len() - count,
{
    if count == variants.len() {
        assert(variants.take(count) =~= variants);
    } else {
        assert(variants.take(count + 1).drop_last() =~= variants.take(count));
        lemma_failure_stays(enum_name, variants, count + 1);
    }
}

/// Writes the source text of the resolver of the enumeration `enum_name` with
/// the branches `branches`.
pub fn render_resolver(enum_name: &String, branches: &Vec<DispatchBranch>) -> (text: String)
    ensures
        text@ == resolver_source(enum_name@, branches.deep_view()),
{
    let mut arms: Vec<String> = Vec::new();
    let mut k: usize = 0;
    while k < branches.len()
        invariant
            k <= branches.len(),
            arms.len() == k,
            forall|j: int| 0 <= j < k ==> (#[trigger] arms[j])@ == branches[j]@.rendered(),
        decreases branches.len() - k,
    {
        arms.push(branches[k].render());
        k += 1;
    }
    proof {
        assert(arms.deep_view() =~= rendered_branches(branches.deep_view()));
    }
    let mut text = String::from_str("impl ");
    text.append(enum_name.as_str());
    text.append(" { pub fn resolve(&self) -> (Method, String) { match self { ");
    text.append(join(&arms, ", ").as_str());
    text.append(" } } }");
    text
}

/// Derives the resolver of `target`: the source text of one operation on the
/// enumeration that gives, for each annotated variant, the method and the URL
/// of its route.
pub fn route_macro(target: &TargetType) -> (tokens: Result<String, DeriveError>)
    ensures
        match tokens {
            Ok(text) => derived(target@) == Ok::<Seq<char>, DeriveErrorView>(text@),
            Err(error) => derived(target@) == Err::<Seq<char>, DeriveErrorView>(error@),
        },
        target.variants.len() == 0 ==> (tokens matches Err(error) && error@
            == DeriveErrorView::EmptyEnumeration),
{
    if target.variants.len() == 0 {
        return Err(DeriveError::EmptyEnumeration);
    }
    match derive_branches(target) {
        Err(error) => Err(error),
        Ok(routes) => Ok(render_resolver(&target.name, &routes)),
    }
}

} // verus!
