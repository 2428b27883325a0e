//! The list of fields that a mutator names: `requires = [a, b]`.

use crate::apply::ApplyMeta;
use crate::attr_arg::{find_value_end, lemma_value_end, outcome_view, value_end, AttrArg, AttrArgView};
use crate::error::{located, plain_error, Error, ErrorKind, ErrorView};
use crate::parse::{
    location_at, location_of, parse_all_spec, parse_stream_terminated, parse_terminated_spec,
    parsed_view, values_view, Parse,
};
use crate::token::{
    accepts_identifier, is_identifier, stream_tokens, tokens_view, Delimiter, Ident, IdentView,
    Location, Token, TokenView,
};
use vstd::prelude::*;

verus! {

/// One element of a list of fields: the tokens up to the next separator,
/// which must be one name.
#[derive(Debug)]
pub struct FieldName {
    pub ident: Ident,
}

impl View for FieldName {
    type V = IdentView;

    open spec fn view(&self) -> IdentView {
        self.ident@
    }
}

/// A bracketed list of field names.
#[derive(Debug)]
pub struct FieldList {
    pub names: Vec<FieldName>,
}

impl View for FieldList {
    type V = Seq<IdentView>;

    open spec fn view(&self) -> Seq<IdentView> {
        values_view(self.names@)
    }
}

/// The element that begins at `start`, where `accepted` says whether the
/// token there is an identifier whose text can name a field. The element runs
/// to the next separator; it must be that one identifier and nothing more.
/// Anything else is an error at the first token of the element, or at the
/// separator where the element is empty.
pub open spec fn field_name_given(tokens: Seq<TokenView>, start: int, accepted: bool) -> Result<
    (IdentView, int),
    ErrorView,
> {
    if 0 <= start < tokens.len() && tokens[start].seen() is Ident && accepted && value_end(tokens, start) == start
        + 1 {
        Ok((tokens[start].seen()->Ident_0, start + 1))
    } else {
        Err(plain_error(ErrorKind::ExpectedFieldName, location_of(tokens, start)))
    }
}

/// Reads the element that begins at `start`, once it is known whether the
/// token there is an identifier whose text can name a field.
pub fn checked_field_name(tokens: &Vec<Token>, start: usize, accepted: bool) -> (out: Result<
    (FieldName, usize),
    Error,
>)
    requires
        start <= tokens.len(),
    ensures
        parsed_view(out) == field_name_given(tokens_view(tokens@), start as int, accepted),
{
    if accepted && start < tokens.len() && find_value_end(tokens, start) == start + 1 {
        match tokens[start].seen() {
            Token::Ident(ident) => {
                return Ok((FieldName { ident }, start + 1));
            },
            _ => {},
        }
    }
    Err(Error::new(ErrorKind::ExpectedFieldName, location_at(tokens, start)))
}

impl Parse for FieldName {
    /// One element of a list: one identifier that can name a field, followed
    /// by a separator or by nothing.
    open spec fn parse_spec(tokens: Seq<TokenView>, start: int) -> Result<(IdentView, int), ErrorView> {
        field_name_given(
            tokens,
            start,
            0 <= start < tokens.len() && tokens[start].seen() is Ident && is_identifier(
                tokens[start].seen()->Ident_0.name,
            ),
        )
    }

    proof fn parse_advances(tokens: Seq<TokenView>, start: int) {
    }

    fn parse(tokens: &Vec<Token>, start: usize) -> (out: Result<(Self, usize), Error>) {
        let accepted = start < tokens.len() && match &tokens[start].seen() {
            Token::Ident(ident) => accepts_identifier(ident.name.as_str()),
            _ => false,
        };
        checked_field_name(tokens, start, accepted)
    }
}

impl Parse for FieldList {
    /// One bracketed group, followed by a separator or by nothing, whose
    /// inside is field names separated by commas. Anything else is no list,
    /// and is reported where it begins.
    open spec fn parse_spec(tokens: Seq<TokenView>, start: int) -> Result<(Seq<IdentView>, int), ErrorView> {
        if 0 <= start < tokens.len() && tokens[start].is_group(Delimiter::Bracket) && value_end(tokens, start)
            == start + 1 {
            match parse_terminated_spec::<FieldName>(stream_tokens(tokens[start].seen()->Group_stream), 0) {
                Ok(names) => Ok((names, start + 1)),
                Err(e) => Err(e),
            }
        } else {
            Err(plain_error(ErrorKind::ExpectedFieldList, location_of(tokens, start)))
        }
    }

    proof fn parse_advances(tokens: Seq<TokenView>, start: int) {
    }

    fn parse(tokens: &Vec<Token>, start: usize) -> (out: Result<(Self, usize), Error>) {
        if start < tokens.len() && find_value_end(tokens, start) == start + 1 {
            match tokens[start].seen() {
                Token::Group { delimiter: Delimiter::Bracket, stream, .. } => {
                    return match parse_stream_terminated::<FieldName>(&stream) {
                        Ok(names) => Ok((FieldList { names }, start + 1)),
                        Err(e) => Err(e),
                    };
                },
                _ => {},
            }
        }
        Err(Error::new(ErrorKind::ExpectedFieldList, location_at(tokens, start)))
    }
}

/// Whether one of `fields` has the name `name`.
pub open spec fn has_name(fields: Seq<IdentView>, name: Seq<char>) -> bool {
    exists|i: int| 0 <= i < fields.len() && (#[trigger] fields[i]).name == name
}

/// The names of `fields`, as a set.
pub open spec fn field_names(fields: Seq<IdentView>) -> Set<Seq<char>> {
    Set::new(|name: Seq<char>| has_name(fields, name))
}

/// Whether no two of `fields` have the same name.
pub open spec fn distinct_names(fields: Seq<IdentView>) -> bool {
    forall|i: int, j: int| 0 <= i < j < fields.len() ==> (#[trigger] fields[i]).name != (#[trigger] fields[j]).name
}

/// `fields` with `field`, unless its name is there already.
pub open spec fn insert_field(fields: Seq<IdentView>, field: IdentView) -> Seq<IdentView> {
    if has_name(fields, field.name) {
        fields
    } else {
        fields.push(field)
    }
}

/// `fields` with each of `more` that is not there yet, by name.
pub open spec fn insert_fields(fields: Seq<IdentView>, more: Seq<IdentView>) -> Seq<IdentView>
    decreases more.len(),
{
    if more.len() == 0 {
        fields
    } else {
        insert_field(insert_fields(fields, more.drop_last()), more.last())
    }
}

/// The fields that a mutator asks for. No name is held twice.
#[derive(Debug)]
pub struct MutatorAttribute {
    pub required: Vec<Ident>,
}

impl View for MutatorAttribute {
    type V = Seq<IdentView>;

    open spec fn view(&self) -> Seq<IdentView> {
        values_view(self.required@)
    }
}

/// What `requires = [...]` does to the fields asked for so far. Any other
/// name is an error at that name; anything but a key with a value is an error;
/// a value that is no list of field names is an error at the place in the
/// value that is wrong, or at the name where the value is empty. On an error
/// the fields stay as they were.
pub open spec fn require_spec(fields: Seq<IdentView>, arg: AttrArgView) -> (Seq<IdentView>, Option<ErrorView>) {
    let name = arg.name();
    if name.name != "requires"@ {
        (fields, Some(plain_error(ErrorKind::UnknownKey, Location::At(name.span))))
    } else {
        match arg.key_value() {
            Err(e) => (fields, Some(e)),
            Ok(key_value) => match parse_all_spec::<FieldList>(key_value.value) {
                Err(e) => (fields, Some(located(e, Location::At(name.span)))),
                Ok(more) => (insert_fields(fields, more), None),
            },
        }
    }
}

/// Whether one of `fields` has the name `name`.
pub fn contains_name(fields: &Vec<Ident>, name: &String) -> (out: bool)
    ensures
        out == has_name(values_view(fields@), name@),
{
    let mut i: usize = 0;
    while i < fields.len()
        invariant
            i <= fields.len(),
            forall|j: int| 0 <= j < i ==> (#[trigger] values_view(fields@)[j]).name != name@,
        decreases fields.len() - i,
    {
        if fields[i].name == *name {
            assert(values_view(fields@)[i as int].name == name@);
            return true;
        }
        i += 1;
    }
    false
}

impl Default for MutatorAttribute {
    fn default() -> (out: Self)
        ensures
            out@ == Seq::<IdentView>::empty(),
    {
        MutatorAttribute::new()
    }
}

impl MutatorAttribute {
    /// No field asked for.
    pub fn new() -> (out: Self)
        ensures
            out@ == Seq::<IdentView>::empty(),
    {
        let out = MutatorAttribute { required: Vec::new() };
        assert(out@ =~= Seq::<IdentView>::empty());
        out
    }

    /// Asks for `field`, unless a field of that name is asked for already.
    pub fn insert(&mut self, field: Ident)
        ensures
            final(self)@ == insert_field(old(self)@, field@),
            distinct_names(old(self)@) ==> distinct_names(final(self)@),
    {
        proof {
            if distinct_names(self@) {
                lemma_insert_keeps_distinct(self@, field@);
            }
        }
        if !contains_name(&self.required, &field.name) {
            self.required.push(field);
            assert(self@ =~= old(self)@.push(field@));
        }
    }
}

impl ApplyMeta for MutatorAttribute {
    open spec fn apply_spec(state: Seq<IdentView>, arg: AttrArgView) -> (Seq<IdentView>, Option<ErrorView>) {
        require_spec(state, arg)
    }

    fn apply_meta(&mut self, expr: AttrArg) -> (out: Result<(), Error>)
        ensures
            distinct_names(old(self)@) ==> distinct_names(final(self)@),
    {
        let at = Location::At(expr.name().span);
        if !expr.name().has_text("requires") {
            return Err(Error::new(ErrorKind::UnknownKey, at));
        }
        let key_value = match expr.key_value() {
            Ok(key_value) => key_value,
            Err(e) => {
                return Err(e);
            },
        };
        let list = match key_value.parse_value::<FieldList>() {
            Ok(list) => list,
            Err(e) => {
                return Err(e.located(at));
            },
        };
        let mut i: usize = 0;
        while i < list.names.len()
            invariant
                i <= list.names.len(),
                self@ == insert_fields(old(self)@, list@.take(i as int)),
                distinct_names(old(self)@) ==> distinct_names(self@),
            decreases list.names.len() - i,
        {
            self.insert(list.names[i].ident.clone());
            proof {
                assert(list@.take(i + 1).drop_last() =~= list@.take(i as int));
                assert(list@.take(i + 1).last() == list.names@[i as int]@);
            }
            i += 1;
        }
        assert(list@.take(i as int) =~= list@);
        Ok(())
    }
}

/// Taking in one field keeps the names distinct.
pub proof fn lemma_insert_keeps_distinct(fields: Seq<IdentView>, field: IdentView)
    requires
        distinct_names(fields),
    ensures
        distinct_names(insert_field(fields, field)),
{
    let result = insert_field(fields, field);
    if !has_name(fields, field.name) {
        assert forall|i: int, j: int| 0 <= i < j < result.len() implies (#[trigger] result[i]).name != (
        #[trigger] result[j]).name by {
            if j == fields.len() {
                assert(fields[i].name != field.name);
            } else {
                assert(fields[j] == result[j]);
            }
            assert(fields[i] == result[i]);
        }
    }
}

/// Inside the brackets only one thing can go wrong: an element that is not
/// one name. Two names without a separator between them are one element.
pub proof fn lemma_field_list_errors(tokens: Seq<TokenView>, start: int)
    requires
        0 <= start <= tokens.len(),
    ensures
        parse_terminated_spec::<FieldName>(tokens, start) matches Err(e) ==> e.kind
            == ErrorKind::ExpectedFieldName,
    decreases tokens.len() - start,
{
    if start < tokens.len() {
        lemma_value_end(tokens, start);
        match FieldName::parse_spec(tokens, start) {
            Ok((_, next)) => {
                if next < tokens.len() {
                    lemma_field_list_errors(tokens, next + 1);
                }
            },
            Err(_) => {},
        }
    }
}

/// The fields asked for are a set: after more names are taken in, the names
/// held are those held before together with the new ones, whatever the order
/// of the new ones and however often each is written; and no name is held
/// twice.
pub proof fn lemma_fields_are_a_set(fields: Seq<IdentView>, more: Seq<IdentView>)
    requires
        distinct_names(fields),
    ensures
        distinct_names(insert_fields(fields, more)),
        field_names(insert_fields(fields, more)) == field_names(fields).union(field_names(more)),
    decreases more.len(),
{
    let result = insert_fields(fields, more);
    if more.len() == 0 {
        assert(field_names(more) =~= Set::<Seq<char>>::empty());
        assert(field_names(result) =~= field_names(fields).union(field_names(more)));
    } else {
        let before = insert_fields(fields, more.drop_last());
        let field = more.last();
        lemma_fields_are_a_set(fields, more.drop_last());
        assert forall|name: Seq<char>| has_name(more, name) <==> (has_name(more.drop_last(), name) || name
            == field.name) by {
            if has_name(more, name) {
                let i = choose|i: int| 0 <= i < more.len() && (#[trigger] more[i]).name == name;
                if i < more.len() - 1 {
                    assert(more.drop_last()[i].name == name);
                }
            }
            if has_name(more.drop_last(), name) {
                let i = choose|i: int| 0 <= i < more.drop_last().len() && (#[trigger] more.drop_last()[i]).name == name;
                assert(more[i].name == name);
            }
            if name == field.name {
                assert(more[more.len() - 1].name == name);
            }
        }
        assert forall|name: Seq<char>| has_name(result, name) <==> (has_name(before, name) || name
            == field.name) by {
            if has_name(before, field.name) {
            } else {
                if has_name(result, name) {
                    let i = choose|i: int| 0 <= i < result.len() && (#[trigger] result[i]).name == name;
                    if i < before.len() {
                        assert(before[i].name == name);
                    }
                }
                if has_name(before, name) {
                    let i = choose|i: int| 0 <= i < before.len() && (#[trigger] before[i]).name == name;
                    assert(result[i].name == name);
                }
                if name == field.name {
                    assert(result[result.len() - 1].name == name);
                }
            }
        }
        assert(field_names(result) =~= field_names(fields).union(field_names(more))) by {
            assert forall|name: Seq<char>| field_names(result).contains(name) <==> field_names(fields).union(
                field_names(more),
            ).contains(name) by {
                assert(field_names(before).contains(name) <==> has_name(before, name));
                assert(field_names(more.drop_last()).contains(name) <==> has_name(more.drop_last(), name));
            }
        }
    }
}

/// Two lists that write the same names, in any order and any number of
/// times, ask for the same set of fields.
pub proof fn lemma_order_does_not_matter(first: Seq<IdentView>, second: Seq<IdentView>)
    requires
        field_names(first) == field_names(second),
    ensures
        field_names(insert_fields(Seq::empty(), first)) == field_names(insert_fields(Seq::empty(), second)),
{
    let none = Seq::<IdentView>::empty();
    lemma_fields_are_a_set(none, first);
    lemma_fields_are_a_set(none, second);
}

} // verus!
