use proc_macro2::{Span, TokenStream};
use typed_builder_macro::token::read_stream;
use typed_builder_macro::{
    empty_type, empty_type_tuple, expr_to_lit_string, first_visibility, ident_to_type,
    path_to_single_string, public_visibility, strip_raw_ident_prefix, type_tuple, Attribute,
    Delimiter, ErrorKind, Ident, Location, Meta, MetaList, Path, PathArguments, PathSegment, Token,
    Type, Visibility,
};

fn stream(text: &str) -> TokenStream {
    text.parse().unwrap()
}

fn ident(name: &str) -> Ident {
    Ident::new(name.to_string(), Span::call_site())
}

fn segment(name: &str) -> PathSegment {
    PathSegment { ident: ident(name), arguments: PathArguments::Empty }
}

fn path(names: &[&str]) -> Path {
    Path { leading_colon: false, segments: names.iter().map(|name| segment(name)).collect() }
}

#[test]
fn strip_raw_ident_prefix_removes_the_prefix() {
    assert_eq!(strip_raw_ident_prefix("r#type".to_string()), "type");
    assert_eq!(strip_raw_ident_prefix("r#".to_string()), "");
    assert_eq!(strip_raw_ident_prefix("r#r#a".to_string()), "r#a");
}

#[test]
fn strip_raw_ident_prefix_leaves_other_names_alone() {
    assert_eq!(strip_raw_ident_prefix("type".to_string()), "type");
    assert_eq!(strip_raw_ident_prefix("r".to_string()), "r");
    assert_eq!(strip_raw_ident_prefix("".to_string()), "");
    assert_eq!(strip_raw_ident_prefix("ar#b".to_string()), "ar#b");
    assert_eq!(strip_raw_ident_prefix("r_#b".to_string()), "r_#b");
    assert_eq!(strip_raw_ident_prefix("rü#".to_string()), "rü#");
}

#[test]
fn a_path_of_one_plain_name_gives_the_name() {
    assert_eq!(path_to_single_string(&path(&["Option"])), Some("Option".to_string()));
}

#[test]
fn a_longer_or_qualified_path_gives_nothing() {
    assert_eq!(path_to_single_string(&path(&["std", "option"])), None);
    assert_eq!(path_to_single_string(&path(&[])), None);
    let mut global = path(&["Option"]);
    global.leading_colon = true;
    assert_eq!(path_to_single_string(&global), None);
    let mut generic = path(&["Option"]);
    generic.segments[0].arguments = PathArguments::AngleBracketed(stream("T"));
    assert_eq!(path_to_single_string(&generic), None);
    let mut called = path(&["Fn"]);
    called.segments[0].arguments = PathArguments::Parenthesized(stream("(u8) -> u8"));
    assert_eq!(path_to_single_string(&called), None);
}

#[test]
fn a_name_becomes_a_type_of_one_segment() {
    match ident_to_type(ident("Foo")) {
        Type::Path(path) => {
            assert!(!path.leading_colon);
            assert_eq!(path.segments.len(), 1);
            assert_eq!(path.segments[0].ident.name, "Foo");
            assert!(matches!(path.segments[0].arguments, PathArguments::Empty));
            assert_eq!(path_to_single_string(&path), Some("Foo".to_string()));
        }
        other => panic!("not a path: {:?}", other),
    }
}

#[test]
fn the_empty_type_is_the_empty_tuple() {
    match empty_type() {
        Type::Tuple(tuple) => {
            assert!(tuple.elems.is_empty());
            assert!(!tuple.trailing);
        }
        other => panic!("not a tuple: {:?}", other),
    }
    let tuple = empty_type_tuple();
    assert!(tuple.elems.is_empty());
    assert!(!tuple.trailing);
}

#[test]
fn a_tuple_with_elements_ends_in_a_separator() {
    let one = type_tuple(vec![ident_to_type(ident("A"))]);
    assert_eq!(one.elems.len(), 1);
    assert!(one.trailing);
    let two = type_tuple(vec![ident_to_type(ident("A")), empty_type()]);
    assert_eq!(two.elems.len(), 2);
    assert!(two.trailing);
    assert!(matches!(&two.elems[0], Type::Path(path) if path.segments[0].ident.name == "A"));
    assert!(matches!(&two.elems[1], Type::Tuple(_)));
}

#[test]
fn a_tuple_without_elements_has_no_separator() {
    let none = type_tuple(Vec::new());
    assert!(none.elems.is_empty());
    assert!(!none.trailing);
}

#[test]
fn a_type_is_copied_with_all_that_is_in_it() {
    let nested = Type::Tuple(type_tuple(vec![
        ident_to_type(ident("A")),
        Type::Tuple(type_tuple(vec![Type::Verbatim(stream("&'a str"))])),
    ]));
    match nested.clone() {
        Type::Tuple(outer) => {
            assert_eq!(outer.elems.len(), 2);
            assert!(outer.trailing);
            match &outer.elems[1] {
                Type::Tuple(inner) => match &inner.elems[0] {
                    Type::Verbatim(tokens) => {
                        assert_eq!(tokens.to_string(), stream("&'a str").to_string())
                    }
                    other => panic!("not carried as tokens: {:?}", other),
                },
                other => panic!("not a tuple: {:?}", other),
            }
        }
        other => panic!("not a tuple: {:?}", other),
    }
}

#[test]
fn the_first_visibility_that_is_there_is_taken() {
    let public = public_visibility();
    assert!(matches!(public, Visibility::Public(_)));
    let restricted = Visibility::Restricted(stream("pub(crate)"));
    let tokens = first_visibility(&[None, Some(&restricted), Some(&public)]);
    assert_eq!(tokens.len(), 2);
    assert!(matches!(&tokens[0], Token::Ident(ident) if ident.name == "pub"));
    let tokens = first_visibility(&[Some(&public), Some(&restricted)]);
    assert_eq!(tokens.len(), 1);
    assert!(matches!(&tokens[0], Token::Ident(ident) if ident.name == "pub"));
    let inherited = Visibility::Inherited;
    assert!(first_visibility(&[None, None, Some(&inherited)]).is_empty());
}

#[test]
fn a_string_literal_gives_its_value() {
    let tokens = read_stream(&stream("\"a\\nb\""));
    assert_eq!(expr_to_lit_string(&tokens).unwrap(), "a\nb");
    let tokens = read_stream(&stream("r#\"a\"b\"#"));
    assert_eq!(expr_to_lit_string(&tokens).unwrap(), "a\"b");
    let tokens = read_stream(&stream("\"\""));
    assert_eq!(expr_to_lit_string(&tokens).unwrap(), "");
}

#[test]
fn anything_but_a_string_literal_is_an_error() {
    for text in ["7", "b\"a\"", "'a'", "name", "\"a\" \"b\"", "(\"a\")", "\"a\".len()"] {
        let error = expr_to_lit_string(&read_stream(&stream(text))).unwrap_err();
        assert_eq!(error.kind, ErrorKind::ExpectedString, "{}", text);
        assert_eq!(error.message(), "attribute only allows str values");
        assert!(matches!(error.at, Location::At(span) if span.start().column == 0), "{}", text);
    }
    let error = expr_to_lit_string(&Vec::new()).unwrap_err();
    assert!(matches!(error.at, Location::EndOfInput));
}

#[test]
fn an_attribute_is_known_by_its_one_name() {
    let list = Attribute {
        inner: false,
        meta: Meta::List(MetaList {
            path: path(&["mutator"]),
            delimiter: Delimiter::Parenthesis,
            tokens: stream("requires = [a]"),
            span: Span::call_site(),
        }),
        span: Span::call_site(),
    };
    assert!(list.is_named("mutator"));
    assert!(!list.is_named("builder"));
    assert_eq!(list.meta.path().segments.len(), 1);
    let long = Attribute { inner: true, meta: Meta::Path(path(&["a", "mutator"])), span: Span::call_site() };
    assert!(!long.is_named("mutator"));
    let valued = Attribute {
        inner: false,
        meta: Meta::NameValue { path: path(&["doc"]), value: stream("\"x\"") },
        span: Span::call_site(),
    };
    assert!(valued.is_named("doc"));
    let copy = list.clone();
    assert!(copy.is_named("mutator"));
    assert!(!copy.inner);
    assert!(matches!(&copy.meta, Meta::List(inside) if inside.tokens.to_string() == stream("requires = [a]").to_string()));
    assert!(long.clone().inner);
    assert!(matches!(valued.clone().meta, Meta::NameValue { .. }));
}
