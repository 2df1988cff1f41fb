use routes_derive::annotation::RouteSpec;
use routes_derive::branch::{concatenate, join, name_arguments, DispatchBranch};
use routes_derive::description::{Shape, Variant};
use routes_derive::error::DeriveError;
use routes_derive::literal::{hex_of, string_literal};
use routes_derive::substitution::{
    each_among, fill_spans, find_binding, gaps_of_spans, holds_brace, holds_brace_outside,
    is_distinct, substitute, values_of_names,
};
use routes_derive::synthesis::{impl_unit, impl_unnamed_fields, synthesize_arm};

fn texts(values: &[&str]) -> Vec<String> {
    values.iter().map(|v| v.to_string()).collect()
}

fn route(method: &str, template: &str) -> RouteSpec {
    RouteSpec {
        method: method.to_string(),
        url_literal: format!("{:?}", template),
        url_template: template.to_string(),
    }
}

fn variant(name: &str, shape: Shape) -> Variant {
    Variant { name: name.to_string(), shape, attributes: vec![] }
}

fn api() -> String {
    "Api".to_string()
}

#[test]
fn parts_are_joined_with_the_separator_between_them() {
    assert_eq!(join(&texts(&[]), ", "), "");
    assert_eq!(join(&texts(&["a"]), ", "), "a");
    assert_eq!(join(&texts(&["a", "b", "c"]), ", "), "a, b, c");
    assert_eq!(join(&texts(&["", ""]), "-"), "-");
}

#[test]
fn each_name_is_handed_to_the_format_under_itself() {
    assert_eq!(name_arguments(&texts(&[])), texts(&[]));
    assert_eq!(name_arguments(&texts(&["id", "page"])), texts(&["id = id", "page = page"]));
}

#[test]
fn unit_branch_is_rendered_with_the_literal() {
    let branch = impl_unit(&api(), &variant("Ping", Shape::Unit), &route("Get", "/ping"));
    assert_eq!(branch.bindings, None);
    assert_eq!(branch.pattern(), "Api::Ping");
    assert_eq!(branch.url_expression(), "\"/ping\".to_string()");
    assert_eq!(branch.render(), "Api::Ping => (Method::Get, \"/ping\".to_string())");
}

#[test]
fn unit_branch_leaves_placeholder_shaped_text_alone() {
    let branch = impl_unit(&api(), &variant("Doc", Shape::Unit), &route("Get", "/doc/{id}"));
    assert_eq!(branch.bindings, None);
    assert_eq!(branch.render(), "Api::Doc => (Method::Get, \"/doc/{id}\".to_string())");
    assert_eq!(
        branch.resolve(&texts(&[])),
        Some(("Get".to_string(), "/doc/{id}".to_string()))
    );
    assert_eq!(branch.resolve(&texts(&["7"])), None);
}

#[test]
fn positional_branch_binds_fields_to_placeholder_names() {
    let fields = texts(&["String", "u32"]);
    let item = variant("Search", Shape::Positional(fields.clone()));
    let branch =
        impl_unnamed_fields(&api(), &item, &fields, &route("Get", "/search/{query}/{page}"))
            .unwrap();
    assert_eq!(branch.bindings, Some(texts(&["query", "page"])));
    assert_eq!(branch.pattern(), "Api::Search(query, page)");
    assert_eq!(
        branch.url_expression(),
        "format!(\"/search/{query}/{page}\", query = query, page = page)"
    );
    assert_eq!(
        branch.render(),
        "Api::Search(query, page) => (Method::Get, \
         format!(\"/search/{query}/{page}\", query = query, page = page))"
    );
}

#[test]
fn positional_branch_without_fields_is_rendered_with_empty_lists() {
    let fields = texts(&[]);
    let item = variant("All", Shape::Positional(fields.clone()));
    let branch = impl_unnamed_fields(&api(), &item, &fields, &route("Get", "/all")).unwrap();
    assert_eq!(branch.bindings, Some(texts(&[])));
    assert_eq!(branch.render(), "Api::All() => (Method::Get, format!(\"/all\", ))");
    assert_eq!(branch.resolve(&texts(&[])), Some(("Get".to_string(), "/all".to_string())));
}

#[test]
fn arity_is_checked_in_both_directions() {
    let one = texts(&["u64"]);
    let item = variant("Bad", Shape::Positional(one.clone()));
    let mismatch = Err(DeriveError::ArityMismatch { variant: "Bad".to_string() });
    assert_eq!(impl_unnamed_fields(&api(), &item, &one, &route("Get", "/items")), mismatch);
    assert_eq!(impl_unnamed_fields(&api(), &item, &one, &route("Get", "/{a}/{b}")), mismatch);
    assert_eq!(synthesize_arm(&api(), &item, &route("Get", "/{a}/{b}")), mismatch);
    assert!(impl_unnamed_fields(&api(), &item, &one, &route("Get", "/{a}")).is_ok());
}

#[test]
fn named_fields_are_rejected_whatever_their_number() {
    for names in [texts(&[]), texts(&["id"]), texts(&["a", "b"])] {
        let item = variant("Named", Shape::Named(names));
        for template in ["/n", "/n/{id}", "/n/{a}/{b}"] {
            assert_eq!(
                synthesize_arm(&api(), &item, &route("Get", template)),
                Err(DeriveError::UnsupportedShape)
            );
        }
    }
}

#[test]
fn shape_decides_the_kind_of_branch() {
    let unit = synthesize_arm(&api(), &variant("Ping", Shape::Unit), &route("Get", "/p/{x}"));
    assert_eq!(unit.unwrap().bindings, None);
    let item = variant("Get", Shape::Positional(texts(&["u8"])));
    let positional = synthesize_arm(&api(), &item, &route("Get", "/p/{x}"));
    assert_eq!(positional.unwrap().bindings, Some(texts(&["x"])));
}

#[test]
fn branch_resolves_by_the_names_of_its_bindings() {
    let branch = DispatchBranch {
        enum_name: api(),
        variant: "Pair".to_string(),
        bindings: Some(texts(&["b", "a"])),
        method: "Put".to_string(),
        url_literal: "\"/{a}/{b}/{a}\"".to_string(),
        url_template: "/{a}/{b}/{a}".to_string(),
    };
    assert_eq!(
        branch.resolve(&texts(&["1", "2"])),
        Some(("Put".to_string(), "/2/1/2".to_string()))
    );
    assert_eq!(branch.resolve(&texts(&["1"])), None);
    assert_eq!(branch.resolve(&texts(&["1", "2", "3"])), None);
}

#[test]
fn name_bound_twice_has_no_evaluation() {
    let fields = texts(&["u8", "u8"]);
    let item = variant("Twice", Shape::Positional(fields.clone()));
    let branch = impl_unnamed_fields(&api(), &item, &fields, &route("Get", "/{x}/{x}")).unwrap();
    assert_eq!(branch.bindings, Some(texts(&["x", "x"])));
    assert_eq!(branch.render(), "Api::Twice(x, x) => (Method::Get, format!(\"/{x}/{x}\", x = x, x = x))");
    assert_eq!(branch.resolve(&texts(&["1", "2"])), None);
    assert_eq!(substitute("/{x}/{x}", &texts(&["x", "x"]), &texts(&["1", "1"])), None);
}

#[test]
fn bindings_must_go_with_the_placeholders() {
    assert_eq!(substitute("/{a}/{b}", &texts(&["a"]), &texts(&["1"])), None);
    assert_eq!(substitute("/{a}", &texts(&["a", "b"]), &texts(&["1", "2"])), None);
    assert_eq!(substitute("/{a}", &texts(&["a", "b"]), &texts(&["1"])), None);
    assert_eq!(substitute("/{a}", &texts(&["a"]), &texts(&[])), None);
    assert_eq!(substitute("/a", &texts(&["a"]), &texts(&["1"])), None);
    assert_eq!(substitute("/{a}", &texts(&["a"]), &texts(&["1"])), Some("/1".to_string()));
}

#[test]
fn names_are_distinct_where_none_occurs_twice() {
    assert!(is_distinct(&texts(&[])));
    assert!(is_distinct(&texts(&["a"])));
    assert!(is_distinct(&texts(&["a", "b", "c"])));
    assert!(!is_distinct(&texts(&["a", "b", "a"])));
    assert!(!is_distinct(&texts(&["a", "a"])));
}

#[test]
fn names_are_among_others_where_each_occurs_there() {
    assert!(each_among(&texts(&[]), &texts(&[])));
    assert!(each_among(&texts(&[]), &texts(&["a"])));
    assert!(each_among(&texts(&["a", "a", "b"]), &texts(&["b", "a"])));
    assert!(!each_among(&texts(&["a", "c"]), &texts(&["b", "a"])));
    assert!(!each_among(&texts(&["a"]), &texts(&[])));
}

#[test]
fn substitution_keeps_the_text_around_the_placeholders() {
    assert_eq!(
        substitute("é{x}ü{y}ß", &texts(&["x", "y"]), &texts(&["1", "名"])),
        Some("é1ü名ß".to_string())
    );
    assert_eq!(substitute("", &texts(&[]), &texts(&[])), Some("".to_string()));
    assert_eq!(substitute("{x}", &texts(&["x"]), &texts(&[""])), Some("".to_string()));
    assert_eq!(substitute("{x}{x}", &texts(&["x"]), &texts(&["ab"])), Some("abab".to_string()));
    assert_eq!(
        substitute("/a/{}/{x y}", &texts(&[]), &texts(&[])),
        Some("/a/{}/{x y}".to_string())
    );
}

#[test]
fn spans_are_filled_with_the_texts_at_their_places() {
    assert_eq!(fill_spans("/a/{x}/b/{y}/c", &vec![(3, 6), (9, 12)], &texts(&["1", "22"])), "/a/1/b/22/c");
    assert_eq!(fill_spans("abc", &vec![], &texts(&[])), "abc");
    assert_eq!(fill_spans("abc", &vec![(0, 3)], &texts(&["x"])), "x");
    assert_eq!(fill_spans("abc", &vec![(1, 1)], &texts(&["-"])), "a-bc");
}

#[test]
fn binding_is_found_at_its_first_place() {
    let bindings = texts(&["a", "b", "a"]);
    assert_eq!(find_binding(&bindings, &"a".to_string()), Some(0));
    assert_eq!(find_binding(&bindings, &"b".to_string()), Some(1));
    assert_eq!(find_binding(&bindings, &"c".to_string()), None);
    assert_eq!(find_binding(&texts(&[]), &"a".to_string()), None);
}

#[test]
fn values_are_picked_by_name() {
    let bindings = texts(&["a", "b"]);
    let values = texts(&["1", "2"]);
    assert_eq!(
        values_of_names(&bindings, &values, &texts(&["b", "a", "b"])),
        Some(texts(&["2", "1", "2"]))
    );
    assert_eq!(values_of_names(&bindings, &values, &texts(&["b", "c"])), None);
    assert_eq!(values_of_names(&bindings, &values, &texts(&[])), Some(texts(&[])));
}

#[test]
fn doubled_brace_outside_a_placeholder_is_kept() {
    let fields = texts(&["u64"]);
    let item = variant("Odd", Shape::Positional(fields.clone()));
    let branch =
        impl_unnamed_fields(&api(), &item, &fields, &route("Get", "/a/{{/{id}")).unwrap();
    assert_eq!(branch.bindings, Some(texts(&["id"])));
    assert_eq!(
        branch.url_expression(),
        "[\"/a/{{/\".to_string(), id.to_string(), \"\".to_string()].concat()"
    );
    assert_eq!(
        branch.render(),
        "Api::Odd(id) => (Method::Get, \
         [\"/a/{{/\".to_string(), id.to_string(), \"\".to_string()].concat())"
    );
    let id = &42u64;
    let compiled = ["/a/{{/".to_string(), id.to_string(), "".to_string()].concat();
    assert_eq!(compiled, "/a/{{/42");
    assert_eq!(branch.resolve(&texts(&["42"])), Some(("Get".to_string(), compiled)));
}

#[test]
fn empty_braces_and_lone_braces_are_kept() {
    let fields = texts(&["u64"]);
    let item = variant("Odd", Shape::Positional(fields.clone()));
    let branch =
        impl_unnamed_fields(&api(), &item, &fields, &route("Get", "/a/{}/{id}")).unwrap();
    assert_eq!(
        branch.url_expression(),
        "[\"/a/{}/\".to_string(), id.to_string(), \"\".to_string()].concat()"
    );
    let id = &7u64;
    let compiled = ["/a/{}/".to_string(), id.to_string(), "".to_string()].concat();
    assert_eq!(branch.resolve(&texts(&["7"])), Some(("Get".to_string(), compiled)));

    let branch = impl_unnamed_fields(&api(), &item, &fields, &route("Get", "{id}/}x{")).unwrap();
    assert_eq!(
        branch.url_expression(),
        "[\"\".to_string(), id.to_string(), \"/}x{\".to_string()].concat()"
    );
    let compiled = ["".to_string(), id.to_string(), "/}x{".to_string()].concat();
    assert_eq!(branch.resolve(&texts(&["7"])), Some(("Get".to_string(), compiled)));

    let none = texts(&[]);
    let item = variant("Bare", Shape::Positional(none.clone()));
    let branch = impl_unnamed_fields(&api(), &item, &none, &route("Get", "/a/{}")).unwrap();
    assert_eq!(branch.render(), "Api::Bare() => (Method::Get, [\"/a/{}\".to_string()].concat())");
    let compiled = ["/a/{}".to_string()].concat();
    assert_eq!(branch.resolve(&none), Some(("Get".to_string(), compiled)));
}

#[test]
fn template_without_other_braces_is_handed_to_the_format() {
    let fields = texts(&["u64", "u8"]);
    let item = variant("Plain", Shape::Positional(fields.clone()));
    let branch =
        impl_unnamed_fields(&api(), &item, &fields, &route("Get", "{a}/é/{b}")).unwrap();
    assert_eq!(branch.url_expression(), "format!(\"{a}/é/{b}\", a = a, b = b)");
}

#[test]
fn unit_branch_keeps_its_literal_whatever_braces_it_holds() {
    let branch = impl_unit(&api(), &variant("Doc", Shape::Unit), &route("Get", "/{{/{}/{id}"));
    assert_eq!(branch.url_expression(), "\"/{{/{}/{id}\".to_string()");
    assert_eq!(
        branch.resolve(&texts(&[])),
        Some(("Get".to_string(), "/{{/{}/{id}".to_string()))
    );
}

#[test]
fn concatenation_takes_the_parts_in_their_order() {
    assert_eq!(
        concatenate("/a/{x}/b/{y}/c", &vec![(3, 6), (9, 12)]),
        "[\"/a/\".to_string(), x.to_string(), \"/b/\".to_string(), y.to_string(), \
         \"/c\".to_string()].concat()"
    );
    assert_eq!(concatenate("abc", &vec![]), "[\"abc\".to_string()].concat()");
    assert_eq!(
        concatenate("é{x}\"", &vec![(2, 5)]),
        "[\"\\u{e9}\".to_string(), x.to_string(), \"\\u{22}\".to_string()].concat()"
    );
}

#[test]
fn template_is_cut_at_its_spans() {
    assert_eq!(
        gaps_of_spans("/a/{x}/b/{y}/c", &vec![(3, 6), (9, 12)]),
        texts(&["/a/", "/b/", "/c"])
    );
    assert_eq!(gaps_of_spans("{x}{y}", &vec![(0, 3), (3, 6)]), texts(&["", "", ""]));
    assert_eq!(gaps_of_spans("", &vec![]), texts(&[""]));
    assert_eq!(gaps_of_spans("é{x}ü", &vec![(2, 5)]), texts(&["é", "ü"]));
}

#[test]
fn braces_are_found_in_a_text_and_outside_spans() {
    assert!(holds_brace("a{b"));
    assert!(holds_brace("}"));
    assert!(!holds_brace("abc"));
    assert!(!holds_brace(""));
    assert!(!holds_brace_outside("/a/{x}/b", &vec![(3, 6)]));
    assert!(holds_brace_outside("/a/{x}/{", &vec![(3, 6)]));
    assert!(holds_brace_outside("}/{x}", &vec![(2, 5)]));
    assert!(holds_brace_outside("{{x}}", &vec![(1, 4)]));
    assert!(holds_brace_outside("{}", &vec![]));
    assert!(!holds_brace_outside("", &vec![]));
}

#[test]
fn numbers_are_written_in_hexadecimal() {
    assert_eq!(hex_of(0), "0");
    assert_eq!(hex_of(9), "9");
    assert_eq!(hex_of(10), "a");
    assert_eq!(hex_of(15), "f");
    assert_eq!(hex_of(16), "10");
    assert_eq!(hex_of(0xe9), "e9");
    assert_eq!(hex_of(0x10ffff), "10ffff");
    assert_eq!(hex_of(u32::MAX), "ffffffff");
}

#[test]
fn literal_keeps_plain_characters_and_escapes_the_others() {
    assert_eq!(string_literal(""), "\"\"");
    assert_eq!(string_literal("/a b~{}"), "\"/a b~{}\"");
    assert_eq!(string_literal("\""), "\"\\u{22}\"");
    assert_eq!(string_literal("\\"), "\"\\u{5c}\"");
    assert_eq!(string_literal("\n\r\t\0"), "\"\\u{a}\\u{d}\\u{9}\\u{0}\"");
    assert_eq!(string_literal("é名\u{7f}"), "\"\\u{e9}\\u{540d}\\u{7f}\"");
    assert_eq!(string_literal("\u{10ffff}"), "\"\\u{10ffff}\"");
}
