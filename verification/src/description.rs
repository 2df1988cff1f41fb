//! The description of an enumeration: its variants, their fields and the
//! attributes written on them.

use vstd::prelude::*;
use vstd::string::*;

verus! {

/// The name by which a route annotation is recognized among the attributes of
/// a variant.
pub const ROUTE_ATTRIBUTE: &'static str = "route";

/// One token of the arguments of an attribute, as the tokenizer reports it.
#[derive(Clone, Debug, PartialEq, Eq)]
pub enum Token {
    /// An identifier that is no reserved word.
    Ident(String),
    /// A punctuation character.
    Punct(char),
    /// A string literal: `literal` as it is written, quotes included, and the
    /// `value` that it denotes.
    Str { literal: String, value: String },
    /// Any other token, as it is written.
    Other(String),
}

/// A `Token` with its texts as sequences of characters.
pub enum TokenView {
    Ident(Seq<char>),
    Punct(char),
    Str { literal: Seq<char>, value: Seq<char> },
    Other(Seq<char>),
}

impl DeepView for Token {
    type V = TokenView;

    open spec fn deep_view(&self) -> TokenView {
        match *self {
            Token::Ident(name) => TokenView::Ident(name@),
            Token::Punct(c) => TokenView::Punct(c),
            Token::Str { literal, value } => TokenView::Str { literal: literal@, value: value@ },
            Token::Other(text) => TokenView::Other(text@),
        }
    }
}

impl View for Token {
    type V = TokenView;

    #[verifier::inline]
    open spec fn view(&self) -> TokenView {
        self.deep_view()
    }
}

/// An attribute of a variant: its path, and the tokens between the one pair of
/// delimiters that follows the path. `arguments` is `None` where the path is
/// followed by anything else, or by nothing.
#[derive(Clone, Debug, PartialEq, Eq)]
pub struct Attribute {
    pub path: String,
    pub arguments: Option<Vec<Token>>,
}

/// An `Attribute` with its texts as sequences of characters.
pub struct AttributeView {
    pub path: Seq<char>,
    pub arguments: Option<Seq<TokenView>>,
}

impl DeepView for Attribute {
    type V = AttributeView;

    open spec fn deep_view(&self) -> AttributeView {
        AttributeView { path: self.path@, arguments: self.arguments.deep_view() }
    }
}

impl View for Attribute {
    type V = AttributeView;

    #[verifier::inline]
    open spec fn view(&self) -> AttributeView {
        self.deep_view()
    }
}

impl AttributeView {
    /// Whether the attribute is a route annotation.
    pub open spec fn is_route(self) -> bool {
        self.path == ROUTE_ATTRIBUTE@
    }
}

impl Attribute {
    /// Whether the attribute is a route annotation.
    pub fn is_route(&self) -> (b: bool)
        ensures
            b == self@.is_route(),
    {
        let name = String::from_str(ROUTE_ATTRIBUTE);
        self.path == name
    }
}

/// The data that a variant carries.
#[derive(Clone, Debug, PartialEq, Eq)]
pub enum Shape {
    /// No data.
    Unit,
    /// Unnamed fields, each given by its type, in the order of declaration.
    Positional(Vec<String>),
    /// Named fields, each given by its name. An enumeration that has a variant
    /// of this shape gets no resolver.
    Named(Vec<String>),
}

/// A `Shape` with its texts as sequences of characters.
pub enum ShapeView {
    Unit,
    Positional(Seq<Seq<char>>),
    Named(Seq<Seq<char>>),
}

impl DeepView for Shape {
    type V = ShapeView;

    open spec fn deep_view(&self) -> ShapeView {
        match *self {
            Shape::Unit => ShapeView::Unit,
            Shape::Positional(fields) => ShapeView::Positional(fields.deep_view()),
            Shape::Named(fields) => ShapeView::Named(fields.deep_view()),
        }
    }
}

impl View for Shape {
    type V = ShapeView;

    #[verifier::inline]
    open spec fn view(&self) -> ShapeView {
        self.deep_view()
    }
}

/// One case of the enumeration.
#[derive(Clone, Debug, PartialEq, Eq)]
pub struct Variant {
    pub name: String,
    pub shape: Shape,
    pub attributes: Vec<Attribute>,
}

/// A `Variant` with its texts as sequences of characters.
pub struct VariantView {
    pub name: Seq<char>,
    pub shape: ShapeView,
    pub attributes: Seq<AttributeView>,
}

impl DeepView for Variant {
    type V = VariantView;

    open spec fn deep_view(&self) -> VariantView {
        VariantView {
            name: self.name@,
            shape: self.shape.deep_view(),
            attributes: self.attributes.deep_view(),
        }
    }
}

impl View for Variant {
    type V = VariantView;

    #[verifier::inline]
    open spec fn view(&self) -> VariantView {
        self.deep_view()
    }
}

/// The first route annotation among `attributes`; later ones are not looked at.
pub open spec fn route_attribute(attributes: Seq<AttributeView>) -> Option<AttributeView>
    decreases attributes.len(),
{
    if attributes.len() == 0 {
        None
    } else if attributes[0].is_route() {
        Some(attributes[0])
    } else {
        route_attribute(attributes.drop_first())
    }
}

/// Once a route annotation stands among the attributes, what is written behind
/// them changes nothing.
pub proof fn lemma_first_route_attribute_wins(
    attributes: Seq<AttributeView>,
    later: Seq<AttributeView>,
)
    requires
        route_attribute(attributes) is Some,
    ensures
        route_attribute(attributes + later) == route_attribute(attributes),
    decreases attributes.len(),
{
    let all = attributes + later;
    assert(all[0] == attributes[0]);
    if !attributes[0].is_route() {
        assert(all.drop_first() =~= attributes.drop_first() + later);
        lemma_first_route_attribute_wins(attributes.drop_first(), later);
    }
}

impl Variant {
    /// The first route annotation of the variant, if it has one.
    pub fn route_attribute(&self) -> (found: Option<&Attribute>)
        ensures
            found.deep_view() == route_attribute(self@.attributes),
    {
        let mut i: usize = 0;
        assert(self@.attributes.skip(0) =~= self@.attributes);
        while i < self.attributes.len()
            invariant
                i <= self.attributes.len(),
                route_attribute(self@.attributes) == route_attribute(
                    self@.attributes.skip(i as int),
                ),
            decreases self.attributes.len() - i,
        {
            let ghost rest = self@.attributes.skip(i as int);
            assert(rest[0] == self.attributes[i as int]@);
            assert(rest.drop_first() =~= self@.attributes.skip(i + 1));
            if self.attributes[i].is_route() {
                return Some(&self.attributes[i]);
            }
            i += 1;
        }
        None
    }
}

/// The enumeration for which a resolver is derived.
#[derive(Clone, Debug, PartialEq, Eq)]
pub struct TargetType {
    pub name: String,
    pub variants: Vec<Variant>,
}

/// A `TargetType` with its texts as sequences of characters.
pub struct TargetTypeView {
    pub name: Seq<char>,
    pub variants: Seq<VariantView>,
}

impl DeepView for TargetType {
    type V = TargetTypeView;

    open spec fn deep_view(&self) -> TargetTypeView {
        TargetTypeView { name: self.name@, variants: self.variants.deep_view() }
    }
}

impl View for TargetType {
    type V = TargetTypeView;

    #[verifier::inline]
    open spec fn view(&self) -> TargetTypeView {
        self.deep_view()
    }
}

} // verus!
