//! Route annotations: a method, a comma and the string literal of a URL
//! template, and nothing behind it.

use vstd::prelude::*;
use vstd::string::*;

use crate::description::{route_attribute, Attribute, Token, TokenView, Variant, VariantView};
use crate::error::{DeriveError, DeriveErrorView};

verus! {

/// What a route annotation says of its variant.
#[derive(Clone, Debug, PartialEq, Eq)]
pub struct RouteSpec {
    /// The name of the HTTP method.
    pub method: String,
    /// The string literal of the URL template as it is written, quotes
    /// included.
    pub url_literal: String,
    /// The URL template that the literal denotes.
    pub url_template: String,
}

/// A `RouteSpec` with its texts as sequences of characters.
pub struct RouteSpecView {
    pub method: Seq<char>,
    pub url_literal: Seq<char>,
    pub url_template: Seq<char>,
}

impl DeepView for RouteSpec {
    type V = RouteSpecView;

    open spec fn deep_view(&self) -> RouteSpecView {
        RouteSpecView {
            method: self.method@,
            url_literal: self.url_literal@,
            url_template: self.url_template@,
        }
    }
}

impl View for RouteSpec {
    type V = RouteSpecView;

    #[verifier::inline]
    open spec fn view(&self) -> RouteSpecView {
        self.deep_view()
    }
}

/// The route that `tokens` spell, if they are an identifier, a comma and a
/// string literal, in this order and with nothing else.
pub open spec fn parsed_route(tokens: Seq<TokenView>) -> Option<RouteSpecView> {
    if tokens.len() == 3 {
        match (tokens[0], tokens[1], tokens[2]) {
            (TokenView::Ident(method), TokenView::Punct(c), TokenView::Str { literal, value }) => {
                if c == ',' {
                    Some(RouteSpecView { method, url_literal: literal, url_template: value })
                } else {
                    None
                }
            },
            _ => None,
        }
    } else {
        None
    }
}

/// What the first route annotation of `variant` says: `None` where the variant
/// has none, an error where its arguments are missing or spell no route.
pub open spec fn variant_route(variant: VariantView) -> Option<
    Result<RouteSpecView, DeriveErrorView>,
> {
    match route_attribute(variant.attributes) {
        None => None,
        Some(attribute) => Some(
            match attribute.arguments {
                None => Err(DeriveErrorView::MalformedAnnotation),
                Some(tokens) => match parsed_route(tokens) {
                    None => Err(DeriveErrorView::MalformedAnnotation),
                    Some(route) => Ok(route),
                },
            },
        ),
    }
}

impl RouteSpec {
    /// Reads a route from the arguments of an annotation.
    pub fn parse(tokens: &Vec<Token>) -> (parsed: Result<RouteSpec, DeriveError>)
        ensures
            match parsed {
                Ok(route) => parsed_route(tokens.deep_view()) == Some(route@),
                Err(error) => parsed_route(tokens.deep_view()) is None
                    && error@ == DeriveErrorView::MalformedAnnotation,
            },
    {
        if tokens.len() != 3 {
            return Err(DeriveError::MalformedAnnotation);
        }
        assert(tokens.deep_view()[0] == tokens[0]@);
        assert(tokens.deep_view()[1] == tokens[1]@);
        assert(tokens.deep_view()[2] == tokens[2]@);
        let method = match &tokens[0] {
            Token::Ident(name) => name.clone(),
            _ => {
                return Err(DeriveError::MalformedAnnotation);
            },
        };
        match &tokens[1] {
            Token::Punct(c) => {
                if *c != ',' {
                    return Err(DeriveError::MalformedAnnotation);
                }
            },
            _ => {
                return Err(DeriveError::MalformedAnnotation);
            },
        }
        match &tokens[2] {
            Token::Str { literal, value } => Ok(
                RouteSpec { method, url_literal: literal.clone(), url_template: value.clone() },
            ),
            _ => Err(DeriveError::MalformedAnnotation),
        }
    }
}

impl Attribute {
    /// Reads the route that the arguments of the attribute spell.
    pub fn parse_args(&self) -> (parsed: Result<RouteSpec, DeriveError>)
        ensures
            match parsed {
                Ok(route) => self@.arguments matches Some(tokens) && parsed_route(tokens) == Some(
                    route@,
                ),
                Err(error) => error@ == DeriveErrorView::MalformedAnnotation && (
                self@.arguments matches Some(tokens) ==> parsed_route(tokens) is None),
            },
    {
        match &self.arguments {
            None => Err(DeriveError::MalformedAnnotation),
            Some(tokens) => RouteSpec::parse(tokens),
        }
    }
}

impl Variant {
    /// Reads the first route annotation of the variant, if it has one.
    pub fn route(&self) -> (found: Option<Result<RouteSpec, DeriveError>>)
        ensures
            match found {
                None => variant_route(self@) is None,
                Some(Ok(route)) => variant_route(self@) == Some(
                    Ok::<RouteSpecView, DeriveErrorView>(route@),
                ),
                Some(Err(error)) => variant_route(self@) == Some(
                    Err::<RouteSpecView, DeriveErrorView>(error@),
                ),
            },
    {
        match self.route_attribute() {
            None => None,
            Some(attribute) => Some(attribute.parse_args()),
        }
    }
}

} // verus!
