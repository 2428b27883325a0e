use proc_macro2::{Span, TokenStream};
use typed_builder_macro::attr_arg::{checked_ident, find_value_end, read_ident};
use typed_builder_macro::fields::checked_field_name;
use typed_builder_macro::parse::{
    location_at, parse_all, parse_repeated, parse_stream, parse_stream_terminated, parse_terminated,
};
use typed_builder_macro::token::read_stream;
use typed_builder_macro::{
    AttrArg, Error, ErrorKind, FieldList, FieldName, KeyValue, Location, Shape, Token,
};

fn stream(text: &str) -> TokenStream {
    text.parse().unwrap()
}

fn one(text: &str) -> Result<AttrArg, Error> {
    parse_stream::<AttrArg>(&stream(text))
}

fn many(text: &str) -> Result<Vec<AttrArg>, Error> {
    parse_stream_terminated::<AttrArg>(&stream(text))
}

fn column(error: &Error) -> Option<usize> {
    match error.at {
        Location::At(span) => Some(span.start().column),
        Location::EndOfInput => None,
    }
}

fn wrapped(text: &str) -> proc_macro2::TokenTree {
    proc_macro2::TokenTree::Group(proc_macro2::Group::new(
        proc_macro2::Delimiter::None,
        stream(text),
    ))
}

fn wrapped_list(texts: &[&str], wrap: &[usize]) -> TokenStream {
    let mut all = TokenStream::new();
    for (at, text) in texts.iter().enumerate() {
        if wrap.contains(&at) {
            all.extend([wrapped(text)]);
        } else {
            all.extend(stream(text));
        }
    }
    all
}

fn many_of(tokens: TokenStream) -> Vec<AttrArg> {
    parse_stream_terminated::<AttrArg>(&tokens).unwrap()
}

fn texts(tokens: &[Token]) -> Vec<String> {
    tokens
        .iter()
        .map(|token| match token {
            Token::Ident(ident) => ident.name.clone(),
            Token::Punct { ch, .. } => ch.to_string(),
            Token::Literal { text, .. } => text.clone(),
            Token::Group { stream, .. } => format!("({})", stream),
        })
        .collect()
}

#[test]
fn a_lone_name_is_a_flag() {
    let arg = one("default").unwrap();
    assert!(matches!(&arg, AttrArg::Flag(name) if name.name == "default"));
    assert_eq!(arg.name().name, "default");
    assert_eq!(arg.flag().unwrap().name, "default");
}

#[test]
fn a_flag_is_no_key_value_and_no_nested_list() {
    let error = one("default").unwrap().key_value().unwrap_err();
    assert_eq!(error.kind, ErrorKind::IncorrectType(Shape::Flag));
    assert_eq!(error.subject, "default");
    assert_eq!(error.message(), "\"default\" is not supported as a flag");
    assert_eq!(column(&error), Some(0));
    let error = one("default").unwrap().sub_attr().unwrap_err();
    assert_eq!(error.kind, ErrorKind::IncorrectType(Shape::Flag));
    assert_eq!(error.message(), "\"default\" is not supported as a flag");
    let error = one("default").unwrap().key_value_or_not().unwrap_err();
    assert_eq!(error.kind, ErrorKind::IncorrectType(Shape::Flag));
}

#[test]
fn a_name_with_a_value_is_a_key_value() {
    let arg = one("default = 1 + 2").unwrap();
    let key_value = arg.key_value().unwrap();
    assert_eq!(key_value.name.name, "default");
    assert_eq!(texts(&key_value.value), ["1", "+", "2"]);
}

#[test]
fn a_key_value_is_no_flag_and_no_nested_list() {
    let error = one("a = 1").unwrap().flag().unwrap_err();
    assert_eq!(error.kind, ErrorKind::IncorrectType(Shape::KeyValue));
    assert_eq!(error.message(), "\"a\" is not supported as key-value");
    let error = one("a = 1").unwrap().sub_attr().unwrap_err();
    assert_eq!(error.kind, ErrorKind::IncorrectType(Shape::KeyValue));
    assert!(one("a = 1").unwrap().key_value_or_not().unwrap().is_some());
}

#[test]
fn a_value_ends_at_the_next_separator() {
    let args = many("a = 1, b = x y, c").unwrap();
    assert_eq!(args.len(), 3);
    match &args[0] {
        AttrArg::KeyValue(key_value) => assert_eq!(texts(&key_value.value), ["1"]),
        other => panic!("not a key with a value: {:?}", other),
    }
    match &args[1] {
        AttrArg::KeyValue(key_value) => assert_eq!(texts(&key_value.value), ["x", "y"]),
        other => panic!("not a key with a value: {:?}", other),
    }
    assert!(matches!(&args[2], AttrArg::Flag(name) if name.name == "c"));
}

#[test]
fn a_separator_inside_a_group_does_not_end_a_value() {
    let args = many("a = [x, y], b = f(1, 2)").unwrap();
    assert_eq!(args.len(), 2);
    match &args[0] {
        AttrArg::KeyValue(key_value) => assert_eq!(key_value.value.len(), 1),
        other => panic!("not a key with a value: {:?}", other),
    }
    match &args[1] {
        AttrArg::KeyValue(key_value) => assert_eq!(key_value.value.len(), 2),
        other => panic!("not a key with a value: {:?}", other),
    }
}

#[test]
fn a_value_may_be_empty() {
    let key_value = one("a =").unwrap().key_value().unwrap();
    assert!(key_value.value.is_empty());
}

#[test]
fn a_value_reads_as_the_type_asked_for() {
    let key_value = one("requires = [a, b]").unwrap().key_value().unwrap();
    let list = key_value.parse_value::<FieldList>().unwrap();
    let names: Vec<&str> = list.names.iter().map(|name| name.ident.name.as_str()).collect();
    assert_eq!(names, ["a", "b"]);
}

#[test]
fn a_value_of_another_form_is_a_value_error() {
    let key_value = one("requires = 5").unwrap().key_value().unwrap();
    let error = key_value.parse_value::<FieldList>().unwrap_err();
    assert_eq!(error.kind, ErrorKind::ExpectedFieldList);
    assert_eq!(column(&error), Some(11));
    let key_value = one("requires = [a] b").unwrap().key_value().unwrap();
    let error = key_value.parse_value::<FieldList>().unwrap_err();
    assert_eq!(error.kind, ErrorKind::ExpectedFieldList);
    assert_eq!(column(&error), Some(11));
    let key_value = one("requires = [a, [b]]").unwrap().key_value().unwrap();
    let error = key_value.parse_value::<FieldList>().unwrap_err();
    assert_eq!(error.kind, ErrorKind::ExpectedFieldName);
    assert_eq!(column(&error), Some(15));
}

#[test]
fn a_name_with_parentheses_is_a_nested_list() {
    let arg = one("field(default, !setter, doc = \"x\")").unwrap();
    let sub = arg.sub_attr().unwrap();
    assert_eq!(sub.name.name, "field");
    let args = sub.args::<AttrArg>().unwrap();
    assert_eq!(args.len(), 3);
    assert!(matches!(&args[0], AttrArg::Flag(name) if name.name == "default"));
    assert!(matches!(&args[1], AttrArg::Not { name, .. } if name.name == "setter"));
    assert!(matches!(&args[2], AttrArg::KeyValue(key_value) if key_value.name.name == "doc"));
}

#[test]
fn a_nested_list_is_no_flag_and_no_key_value() {
    let error = one("field(a)").unwrap().flag().unwrap_err();
    assert_eq!(error.kind, ErrorKind::IncorrectType(Shape::Nested));
    assert_eq!(error.message(), "\"field\" is not supported as nested attribute");
    let error = one("field(a)").unwrap().key_value().unwrap_err();
    assert_eq!(error.kind, ErrorKind::IncorrectType(Shape::Nested));
    let error = one("field(a)").unwrap().key_value_or_not().unwrap_err();
    assert_eq!(error.kind, ErrorKind::IncorrectType(Shape::Nested));
}

#[test]
fn a_nested_list_may_be_empty_or_end_in_a_separator() {
    assert!(one("field()").unwrap().sub_attr().unwrap().args::<AttrArg>().unwrap().is_empty());
    let args = one("field(a, b,)").unwrap().sub_attr().unwrap().args::<AttrArg>().unwrap();
    assert_eq!(args.len(), 2);
}

#[test]
fn a_nested_list_without_separators_reads_item_after_item() {
    let sub = one("fields(a(x) !b c(y, z))").unwrap().sub_attr().unwrap();
    let args = sub.undelimited::<AttrArg>().unwrap();
    let names: Vec<&str> = args.iter().map(|arg| arg.name().name.as_str()).collect();
    assert_eq!(names, ["a", "b", "c"]);
    assert!(matches!(&args[1], AttrArg::Not { .. }));
    let sub = one("fields(a(x), b)").unwrap().sub_attr().unwrap();
    let error = sub.undelimited::<AttrArg>().unwrap_err();
    assert_eq!(error.kind, ErrorKind::ExpectedIdentifier);
    assert_eq!(column(&error), Some(11));
    let sub = one("fields()").unwrap().sub_attr().unwrap();
    assert!(sub.undelimited::<AttrArg>().unwrap().is_empty());
}

#[test]
fn an_element_of_a_field_list_runs_to_the_next_separator() {
    let tokens = read_stream(&stream("a, b c, d"));
    let (name, next) = <FieldName as typed_builder_macro::Parse>::parse(&tokens, 0).unwrap();
    assert_eq!(name.ident.name, "a");
    assert_eq!(next, 1);
    let error = <FieldName as typed_builder_macro::Parse>::parse(&tokens, 2).unwrap_err();
    assert_eq!(error.kind, ErrorKind::ExpectedFieldName);
    assert_eq!(column(&error), Some(3));
    let (name, next) = checked_field_name(&tokens, 5, true).unwrap();
    assert_eq!(name.ident.name, "d");
    assert_eq!(next, 6);
    assert_eq!(checked_field_name(&tokens, 5, false).unwrap_err().kind, ErrorKind::ExpectedFieldName);
    assert_eq!(checked_field_name(&tokens, 1, true).unwrap_err().kind, ErrorKind::ExpectedFieldName);
    assert_eq!(column(&checked_field_name(&tokens, 6, true).unwrap_err()), None);
}

#[test]
fn an_identifier_is_taken_once_it_is_accepted() {
    let tokens = read_stream(&stream("fn name 1"));
    assert_eq!(checked_ident(&tokens, 0, true).unwrap().name, "fn");
    assert_eq!(checked_ident(&tokens, 1, true).unwrap().name, "name");
    assert_eq!(checked_ident(&tokens, 1, false).unwrap_err().kind, ErrorKind::ExpectedIdentifier);
    assert_eq!(column(&checked_ident(&tokens, 1, false).unwrap_err()), Some(3));
    assert_eq!(checked_ident(&tokens, 2, true).unwrap_err().kind, ErrorKind::ExpectedIdentifier);
    assert_eq!(column(&checked_ident(&tokens, 3, true).unwrap_err()), None);
}

#[test]
fn a_token_alone_in_an_invisible_group_counts_as_that_token() {
    let text = format!("{} = 1, {}", wrapped("name"), wrapped("flag"));
    let args = many_of(wrapped_list(&["name", "=", "1", ",", "flag"], &[0, 1, 3, 4]));
    assert_eq!(args.len(), 2, "{}", text);
    match &args[0] {
        AttrArg::KeyValue(key_value) => {
            assert_eq!(key_value.name.name, "name");
            assert_eq!(texts(&key_value.value), ["1"]);
        }
        other => panic!("not a key with a value: {:?}", other),
    }
    assert!(matches!(&args[1], AttrArg::Flag(name) if name.name == "flag"));
}

#[test]
fn a_value_keeps_its_invisible_groups() {
    let args = many_of(wrapped_list(&["name", "=", "1", "*", "2"], &[2]));
    match &args[0] {
        AttrArg::KeyValue(key_value) => {
            assert_eq!(key_value.value.len(), 3);
            assert!(matches!(
                &key_value.value[0],
                Token::Group { delimiter: typed_builder_macro::Delimiter::Invisible, .. }
            ));
            assert!(matches!(key_value.value[0].seen(), Token::Literal { .. }));
        }
        other => panic!("not a key with a value: {:?}", other),
    }
}

#[test]
fn an_invisible_group_of_several_tokens_is_not_looked_into() {
    let group = proc_macro2::Group::new(proc_macro2::Delimiter::None, stream("a = 1"));
    let tokens = read_stream(&TokenStream::from(proc_macro2::TokenTree::Group(group)));
    assert_eq!(tokens.len(), 1);
    assert!(matches!(tokens[0].seen(), Token::Group { .. }));
    assert!(!tokens[0].is_punct('='));
    let error = parse_all::<AttrArg>(&tokens).unwrap_err();
    assert_eq!(error.kind, ErrorKind::ExpectedIdentifier);
}

#[test]
fn an_exclamation_mark_and_a_name_is_a_negation() {
    let arg = one("!default").unwrap();
    assert!(matches!(&arg, AttrArg::Not { name, .. } if name.name == "default"));
    assert_eq!(arg.name().name, "default");
    assert!(arg.key_value_or_not().unwrap().is_none());
}

#[test]
fn a_negation_is_nothing_else() {
    let error = one("!default").unwrap().flag().unwrap_err();
    assert_eq!(error.kind, ErrorKind::IncorrectType(Shape::Negation));
    assert_eq!(error.subject, "default");
    assert_eq!(error.message(), "\"default\" cannot be nullified");
    assert_eq!(column(&error), Some(1));
    let error = one("!default").unwrap().key_value().unwrap_err();
    assert_eq!(error.kind, ErrorKind::IncorrectType(Shape::Negation));
    let error = one("!default").unwrap().sub_attr().unwrap_err();
    assert_eq!(error.kind, ErrorKind::IncorrectType(Shape::Negation));
}

#[test]
fn a_negation_needs_a_name() {
    let error = one("!").unwrap_err();
    assert_eq!(error.kind, ErrorKind::ExpectedIdentifier);
    assert_eq!(column(&error), None);
    let error = one("!(a)").unwrap_err();
    assert_eq!(error.kind, ErrorKind::ExpectedIdentifier);
    assert_eq!(column(&error), Some(1));
}

#[test]
fn what_fits_no_form_is_reported_at_the_first_token_that_does_not_fit() {
    let error = one("name other").unwrap_err();
    assert_eq!(error.kind, ErrorKind::ExpectedArgument);
    assert_eq!(column(&error), Some(5));
    assert_eq!(error.message(), "expected `!<name>`, `<name>=<value>`, or `<name>(…)`");
    let error = one("name [a]").unwrap_err();
    assert_eq!(error.kind, ErrorKind::ExpectedArgument);
    let error = one("7").unwrap_err();
    assert_eq!(error.kind, ErrorKind::ExpectedIdentifier);
    assert_eq!(column(&error), Some(0));
    assert_eq!(error.message(), "expected identifier");
    let error = one("").unwrap_err();
    assert_eq!(error.kind, ErrorKind::ExpectedIdentifier);
    assert_eq!(column(&error), None);
}

#[test]
fn a_keyword_names_no_argument() {
    let error = one("fn").unwrap_err();
    assert_eq!(error.kind, ErrorKind::ExpectedIdentifier);
    assert!(matches!(one("r#fn").unwrap(), AttrArg::Flag(name) if name.name == "r#fn"));
}

#[test]
fn one_argument_must_be_the_whole_input() {
    let error = one("a, b").unwrap_err();
    assert_eq!(error.kind, ErrorKind::UnexpectedToken);
    assert_eq!(column(&error), Some(1));
    assert_eq!(error.message(), "unexpected token");
}

#[test]
fn a_list_needs_separators() {
    let error = many("a(x) b").unwrap_err();
    assert_eq!(error.kind, ErrorKind::ExpectedComma);
    assert_eq!(column(&error), Some(5));
    assert_eq!(error.message(), "expected `,`");
    let error = many("a,, b").unwrap_err();
    assert_eq!(error.kind, ErrorKind::ExpectedIdentifier);
    assert_eq!(column(&error), Some(2));
}

#[test]
fn a_list_may_be_empty_and_may_end_in_a_separator() {
    assert!(many("").unwrap().is_empty());
    assert_eq!(many("a").unwrap().len(), 1);
    assert_eq!(many("a,").unwrap().len(), 1);
    assert_eq!(many("a, b = 1, !c, d(e),").unwrap().len(), 4);
    assert!(many(",").is_err());
}

#[test]
fn a_list_stops_at_its_first_error() {
    let error = many("a, 1, 2").unwrap_err();
    assert_eq!(column(&error), Some(3));
}

#[test]
fn an_argument_written_down_reads_back_equal() {
    for text in ["flag", "!flag", "key = a + [b, c]", "key =", "nested(a, b = 1)", "r#type = r#fn"] {
        let first = one(text).unwrap();
        let written = first.to_tokens();
        let second = parse_all::<AttrArg>(&written).unwrap();
        assert_eq!(first.name().name, second.name().name, "{}", text);
        assert_eq!(texts(&written), texts(&second.to_tokens()), "{}", text);
        match (&first, &second) {
            (AttrArg::Flag(_), AttrArg::Flag(_)) => {}
            (AttrArg::Not { .. }, AttrArg::Not { .. }) => {}
            (AttrArg::KeyValue(a), AttrArg::KeyValue(b)) => {
                assert_eq!(texts(&a.value), texts(&b.value));
            }
            (AttrArg::Sub(a), AttrArg::Sub(b)) => {
                assert_eq!(a.args.to_string(), b.args.to_string());
            }
            _ => panic!("{} changed its form", text),
        }
    }
}

#[test]
fn the_tokens_of_an_argument_spell_it() {
    assert_eq!(texts(&one("a").unwrap().to_tokens()), ["a"]);
    assert_eq!(texts(&one("!a").unwrap().to_tokens()), ["!", "a"]);
    assert_eq!(texts(&one("a = 1 2").unwrap().to_tokens()), ["a", "=", "1", "2"]);
    assert_eq!(texts(&one("a(b, c)").unwrap().to_tokens()), ["a", "(b , c)"]);
    let key_value = one("a = 1").unwrap().key_value().unwrap();
    assert_eq!(texts(&key_value.to_tokens()), ["a", "=", "1"]);
    let sub = one("a(b)").unwrap().sub_attr().unwrap();
    assert_eq!(texts(&sub.to_tokens()), ["a", "(b)"]);
}

#[test]
fn a_raw_name_is_kept_and_only_shown_without_its_prefix() {
    let arg = one("r#type").unwrap();
    assert_eq!(arg.name().name, "r#type");
    assert_eq!(
        typed_builder_macro::strip_raw_ident_prefix(arg.name().name.clone()),
        "type"
    );
    let plain = one("type_").unwrap();
    assert!(arg.name().name != plain.name().name);
}

#[test]
fn a_key_value_reads_on_its_own() {
    let tokens = read_stream(&stream("name = a b, rest"));
    let (key_value, next) = <KeyValue as typed_builder_macro::Parse>::parse(&tokens, 0).unwrap();
    assert_eq!(key_value.name.name, "name");
    assert_eq!(texts(&key_value.value), ["a", "b"]);
    assert_eq!(next, 4);
    let error = parse_all::<KeyValue>(&read_stream(&stream("name (a)"))).unwrap_err();
    assert_eq!(error.kind, ErrorKind::ExpectedEquals);
    assert_eq!(error.message(), "expected `=`");
    assert_eq!(column(&error), Some(5));
    let error = parse_all::<KeyValue>(&read_stream(&stream("name"))).unwrap_err();
    assert_eq!(error.kind, ErrorKind::ExpectedEquals);
    assert_eq!(column(&error), None);
}

#[test]
fn reading_starts_where_it_is_told_to() {
    let tokens = read_stream(&stream("a, b = 1, c"));
    let (arg, next) = <AttrArg as typed_builder_macro::Parse>::parse(&tokens, 2).unwrap();
    assert!(matches!(arg, AttrArg::KeyValue(_)));
    assert_eq!(next, 5);
    let (arg, next) = <AttrArg as typed_builder_macro::Parse>::parse(&tokens, 6).unwrap();
    assert!(matches!(arg, AttrArg::Flag(_)));
    assert_eq!(next, 7);
    assert!(<AttrArg as typed_builder_macro::Parse>::parse(&tokens, 7).is_err());
    assert_eq!(parse_terminated::<AttrArg>(&tokens).unwrap().len(), 3);
    assert!(parse_repeated::<AttrArg>(&tokens).is_err());
}

#[test]
fn a_flag_switches_a_setting_on_once() {
    let mut field: Option<Span> = None;
    one("strip_option").unwrap().apply_flag_to_field(&mut field, "stripped").unwrap();
    assert!(field.is_some());
    let error = one("strip_option")
        .unwrap()
        .apply_flag_to_field(&mut field, "stripped")
        .unwrap_err();
    assert_eq!(error.kind, ErrorKind::AlreadySet);
    assert_eq!(error.message(), "Illegal setting - field is already stripped");
    assert_eq!(column(&error), Some(0));
    assert!(field.is_some());
}

#[test]
fn a_negation_switches_a_setting_off() {
    let mut field: Option<Span> = Some(Span::call_site());
    one("!strip_option").unwrap().apply_flag_to_field(&mut field, "stripped").unwrap();
    assert!(field.is_none());
    one("!strip_option").unwrap().apply_flag_to_field(&mut field, "stripped").unwrap();
    assert!(field.is_none());
}

#[test]
fn a_setting_takes_no_value_and_no_nested_list() {
    let mut field: Option<Span> = None;
    let error = one("a = 1").unwrap().apply_flag_to_field(&mut field, "set").unwrap_err();
    assert_eq!(error.kind, ErrorKind::IncorrectType(Shape::KeyValue));
    let error = one("a(b)").unwrap().apply_flag_to_field(&mut field, "set").unwrap_err();
    assert_eq!(error.kind, ErrorKind::IncorrectType(Shape::Nested));
    assert!(field.is_none());
}

#[test]
fn a_name_is_quoted_as_debug_formatting_quotes_it() {
    let error = one("r#type").unwrap().key_value().unwrap_err();
    assert_eq!(error.message(), "\"r#type\" is not supported as a flag");
    let error = Error::about(
        ErrorKind::IncorrectType(Shape::Flag),
        Location::EndOfInput,
        "a\"b".to_string(),
    );
    assert_eq!(error.message(), "\"a\\\"b\" is not supported as a flag");
}

#[test]
fn an_error_without_a_place_takes_the_one_offered() {
    let place = read_stream(&stream("a b"))[1].span();
    let error = one("").unwrap_err().located(Location::At(place));
    assert_eq!(column(&error), Some(2));
    assert_eq!(error.kind, ErrorKind::ExpectedIdentifier);
    let error = one("1").unwrap_err().located(Location::At(place));
    assert_eq!(column(&error), Some(0));
    let error = Error::new(ErrorKind::ExpectedComma, Location::EndOfInput).located(Location::EndOfInput);
    assert_eq!(column(&error), None);
    assert_eq!(error.subject, "");
}

#[test]
fn a_value_ends_where_the_first_separator_stands() {
    let tokens = read_stream(&stream("a = b c, d"));
    assert_eq!(find_value_end(&tokens, 2), 4);
    assert_eq!(find_value_end(&tokens, 4), 4);
    assert_eq!(find_value_end(&tokens, 5), 6);
    assert_eq!(find_value_end(&tokens, 6), 6);
    assert_eq!(read_ident(&tokens, 0).unwrap().name, "a");
    assert_eq!(read_ident(&tokens, 1).unwrap_err().kind, ErrorKind::ExpectedIdentifier);
    assert_eq!(column(&read_ident(&tokens, 1).unwrap_err()), Some(2));
    assert_eq!(column(&read_ident(&tokens, 6).unwrap_err()), None);
    assert_eq!(column(&read_ident(&tokens, 9).unwrap_err()), None);
}

#[test]
fn a_place_is_a_token_or_the_end() {
    let tokens = read_stream(&stream("a  b"));
    assert!(matches!(location_at(&tokens, 1), Location::At(span) if span.start().column == 3));
    assert!(matches!(location_at(&tokens, 2), Location::EndOfInput));
    assert!(matches!(location_at(&tokens, 7), Location::EndOfInput));
}
