use routes_derive::derive::{derive_branches, route_macro};
use routes_derive::description::{Attribute, Shape, TargetType, Token, Variant};
use routes_derive::error::DeriveError;

fn route(method: &str, template: &str) -> Attribute {
    Attribute {
        path: "route".to_string(),
        arguments: Some(vec![
            Token::Ident(method.to_string()),
            Token::Punct(','),
            Token::Str { literal: format!("{:?}", template), value: template.to_string() },
        ]),
    }
}

fn variant(name: &str, shape: Shape, attributes: Vec<Attribute>) -> Variant {
    Variant { name: name.to_string(), shape, attributes }
}

fn positional(types: &[&str]) -> Shape {
    Shape::Positional(types.iter().map(|t| t.to_string()).collect())
}

fn target(variants: Vec<Variant>) -> TargetType {
    TargetType { name: "Api".to_string(), variants }
}

fn texts(values: &[&str]) -> Vec<String> {
    values.iter().map(|v| v.to_string()).collect()
}

#[test]
fn unit_variant_resolves_to_its_template() {
    let api = target(vec![variant("Ping", Shape::Unit, vec![route("Get", "/ping")])]);
    let branches = derive_branches(&api).unwrap();
    assert_eq!(branches.len(), 1);
    assert_eq!(
        branches[0].resolve(&texts(&[])),
        Some(("Get".to_string(), "/ping".to_string()))
    );
    assert_eq!(
        route_macro(&api).unwrap(),
        "impl Api { pub fn resolve(&self) -> (Method, String) { match self { \
         Api::Ping => (Method::Get, \"/ping\".to_string()) } } }"
    );
}

#[test]
fn one_field_fills_one_placeholder() {
    let api = target(vec![variant(
        "GetUser",
        positional(&["u64"]),
        vec![route("Get", "/users/{id}")],
    )]);
    let branches = derive_branches(&api).unwrap();
    assert_eq!(branches.len(), 1);
    assert_eq!(branches[0].bindings, Some(texts(&["id"])));
    assert_eq!(
        branches[0].resolve(&texts(&["42"])),
        Some(("Get".to_string(), "/users/42".to_string()))
    );
    assert_eq!(
        route_macro(&api).unwrap(),
        "impl Api { pub fn resolve(&self) -> (Method, String) { match self { \
         Api::GetUser(id) => (Method::Get, format!(\"/users/{id}\", id = id)) } } }"
    );
}

#[test]
fn two_fields_fill_two_placeholders_in_order() {
    let api = target(vec![variant(
        "Search",
        positional(&["String", "u32"]),
        vec![route("Get", "/search/{query}/{page}")],
    )]);
    let branches = derive_branches(&api).unwrap();
    assert_eq!(branches[0].bindings, Some(texts(&["query", "page"])));
    assert_eq!(
        branches[0].resolve(&texts(&["rust", "2"])),
        Some(("Get".to_string(), "/search/rust/2".to_string()))
    );
    assert_eq!(
        route_macro(&api).unwrap(),
        "impl Api { pub fn resolve(&self) -> (Method, String) { match self { \
         Api::Search(query, page) => (Method::Get, \
         format!(\"/search/{query}/{page}\", query = query, page = page)) } } }"
    );
}

#[test]
fn field_without_placeholder_is_an_arity_mismatch() {
    let api = target(vec![variant("Bad", positional(&["u64"]), vec![route("Get", "/items")])]);
    assert_eq!(
        route_macro(&api),
        Err(DeriveError::ArityMismatch { variant: "Bad".to_string() })
    );
    assert_eq!(
        derive_branches(&api),
        Err(DeriveError::ArityMismatch { variant: "Bad".to_string() })
    );
}

#[test]
fn enumeration_without_variants_is_rejected() {
    let api = target(vec![]);
    assert_eq!(route_macro(&api), Err(DeriveError::EmptyEnumeration));
}
