//! One argument of an attribute: `name`, `!name`, `name = value` or
//! `name(...)`.

use crate::error::{plain_error, Error, ErrorKind, ErrorView, Shape};
use crate::parse::{
    list_view, location_at, location_of, parse_all, parse_all_spec, parse_repeated_spec,
    parse_stream_repeated, parse_stream_terminated, parse_terminated_spec, parsed_view,
    result_view, Parse,
};
use crate::token::{
    accepts_identifier, copy_tokens, is_identifier, stream_tokens, tokens_view, Delimiter, Ident,
    IdentView, Location, Spacing, Token, TokenView,
};
use proc_macro2::{Span, TokenStream};
use vstd::prelude::*;

verus! {

/// `name = value`: the value is every token up to the next separator, not yet
/// read as anything.
#[derive(Debug)]
pub struct KeyValue {
    pub name: Ident,
    pub eq: Span,
    pub value: Vec<Token>,
}

/// A key with its value, as a value.
pub struct KeyValueView {
    pub name: IdentView,
    pub eq: Span,
    pub value: Seq<TokenView>,
}

impl View for KeyValue {
    type V = KeyValueView;

    open spec fn view(&self) -> KeyValueView {
        KeyValueView { name: self.name@, eq: self.eq, value: tokens_view(self.value@) }
    }
}

/// `name(...)`: what stands between the parentheses, not yet read.
#[derive(Debug)]
pub struct SubAttr {
    pub name: Ident,
    pub paren: Span,
    pub args: TokenStream,
}

/// A nested list, as a value.
pub struct SubAttrView {
    pub name: IdentView,
    pub paren: Span,
    pub args: TokenStream,
}

impl View for SubAttr {
    type V = SubAttrView;

    open spec fn view(&self) -> SubAttrView {
        SubAttrView { name: self.name@, paren: self.paren, args: self.args }
    }
}

/// One argument of an attribute. Whatever its form, it carries the name it
/// begins with, and never changes once it is read.
#[derive(Debug)]
pub enum AttrArg {
    /// `name`
    Flag(Ident),
    /// `name = value`
    KeyValue(KeyValue),
    /// `name(...)`
    Sub(SubAttr),
    /// `!name`, with the place of the `!`
    Not { not: Span, name: Ident },
}

/// An argument as a value.
pub enum AttrArgView {
    Flag(IdentView),
    KeyValue(KeyValueView),
    Sub(SubAttrView),
    Not { not: Span, name: IdentView },
}

impl View for AttrArg {
    type V = AttrArgView;

    open spec fn view(&self) -> AttrArgView {
        match *self {
            AttrArg::Flag(name) => AttrArgView::Flag(name@),
            AttrArg::KeyValue(key_value) => AttrArgView::KeyValue(key_value@),
            AttrArg::Sub(sub) => AttrArgView::Sub(sub@),
            AttrArg::Not { not, name } => AttrArgView::Not { not, name: name@ },
        }
    }
}

/// The identifier at position `at`, which must be there and must be able to
/// name an argument.
pub open spec fn ident_at(tokens: Seq<TokenView>, at: int) -> Result<IdentView, ErrorView> {
    ident_given(
        tokens,
        at,
        0 <= at < tokens.len() && tokens[at].seen() is Ident && is_identifier(tokens[at].seen()->Ident_0.name),
    )
}

/// The identifier at position `at`, where `accepted` says whether its text
/// can name an argument: the identifier if one stands there and is accepted,
/// else the error, at that position.
pub open spec fn ident_given(tokens: Seq<TokenView>, at: int, accepted: bool) -> Result<IdentView, ErrorView> {
    if 0 <= at < tokens.len() && tokens[at].seen() is Ident && accepted {
        Ok(tokens[at].seen()->Ident_0)
    } else {
        Err(plain_error(ErrorKind::ExpectedIdentifier, location_of(tokens, at)))
    }
}

/// The position of the first separator at or behind `from`, or the end of the
/// input when there is none.
pub open spec fn value_end(tokens: Seq<TokenView>, from: int) -> int
    decreases tokens.len() - from,
{
    if from >= tokens.len() {
        tokens.len() as int
    } else if tokens[from].is_comma() {
        from
    } else {
        value_end(tokens, from + 1)
    }
}

/// `name = value` at position `start`.
pub open spec fn key_value_spec(tokens: Seq<TokenView>, start: int) -> Result<(KeyValueView, int), ErrorView> {
    match ident_at(tokens, start) {
        Err(e) => Err(e),
        Ok(name) => if start + 1 < tokens.len() && tokens[start + 1].is_punct('=') {
            let end = value_end(tokens, start + 2);
            Ok((
                KeyValueView { name, eq: tokens[start + 1].seen().span(), value: tokens.subrange(start + 2, end) },
                end,
            ))
        } else {
            Err(plain_error(ErrorKind::ExpectedEquals, location_of(tokens, start + 1)))
        },
    }
}

/// The argument at position `start`. Each token is taken as it is seen: a
/// token that stands alone in an invisible group counts as that token. The
/// tokens of a value are kept as they are. One token of lookahead decides the
/// form:
/// `!` begins a negation; behind a name, a separator or the end makes a flag,
/// a parenthesized group a nested list, `=` a key with its value.
pub open spec fn arg_spec(tokens: Seq<TokenView>, start: int) -> Result<(AttrArgView, int), ErrorView> {
    if 0 <= start < tokens.len() && tokens[start].is_punct('!') {
        match ident_at(tokens, start + 1) {
            Ok(name) => Ok((AttrArgView::Not { not: tokens[start].seen().span(), name }, start + 2)),
            Err(e) => Err(e),
        }
    } else {
        match ident_at(tokens, start) {
            Err(e) => Err(e),
            Ok(name) => {
                let at = start + 1;
                if at >= tokens.len() || tokens[at].is_comma() {
                    Ok((AttrArgView::Flag(name), at))
                } else if tokens[at].is_group(Delimiter::Parenthesis) {
                    Ok((
                        AttrArgView::Sub(
                            SubAttrView {
                                name,
                                paren: tokens[at].seen().span(),
                                args: tokens[at].seen()->Group_stream,
                            },
                        ),
                        at + 1,
                    ))
                } else if tokens[at].is_punct('=') {
                    let end = value_end(tokens, at + 1);
                    Ok((
                        AttrArgView::KeyValue(
                            KeyValueView {
                                name,
                                eq: tokens[at].seen().span(),
                                value: tokens.subrange(at + 1, end),
                            },
                        ),
                        end,
                    ))
                } else {
                    Err(plain_error(ErrorKind::ExpectedArgument, location_of(tokens, at)))
                }
            },
        }
    }
}

/// [`value_end`] stays inside the input, passes no separator and stops at one
/// or at the end.
pub proof fn lemma_value_end(tokens: Seq<TokenView>, from: int)
    requires
        0 <= from <= tokens.len(),
    ensures
        from <= value_end(tokens, from) <= tokens.len(),
        forall|i: int| from <= i < value_end(tokens, from) ==> !(#[trigger] tokens[i]).is_comma(),
        value_end(tokens, from) < tokens.len() ==> tokens[value_end(tokens, from)].is_comma(),
    decreases tokens.len() - from,
{
    if from < tokens.len() && !tokens[from].is_comma() {
        lemma_value_end(tokens, from + 1);
    }
}

/// A position that no separator precedes, and that holds one or is the end,
/// is the [`value_end`].
pub proof fn lemma_value_end_is(tokens: Seq<TokenView>, from: int, end: int)
    requires
        0 <= from <= end <= tokens.len(),
        forall|i: int| from <= i < end ==> !(#[trigger] tokens[i]).is_comma(),
        end < tokens.len() ==> tokens[end].is_comma(),
    ensures
        value_end(tokens, from) == end,
    decreases end - from,
{
    if from < end {
        lemma_value_end_is(tokens, from + 1, end);
    }
}

/// Reads the identifier at position `at`.
pub fn read_ident(tokens: &Vec<Token>, at: usize) -> (out: Result<Ident, Error>)
    ensures
        result_view(out) == ident_at(tokens_view(tokens@), at as int),
{
    let accepted = at < tokens.len() && match &tokens[at].seen() {
        Token::Ident(ident) => accepts_identifier(ident.name.as_str()),
        _ => false,
    };
    checked_ident(tokens, at, accepted)
}

/// The identifier at position `at`, once it is known whether its text can
/// name an argument.
pub fn checked_ident(tokens: &Vec<Token>, at: usize, accepted: bool) -> (out: Result<Ident, Error>)
    ensures
        result_view(out) == ident_given(tokens_view(tokens@), at as int, accepted),
{
    if accepted && at < tokens.len() {
        match tokens[at].seen() {
            Token::Ident(ident) => {
                return Ok(ident);
            },
            _ => {},
        }
    }
    Err(Error::new(ErrorKind::ExpectedIdentifier, location_at(tokens, at)))
}

/// Finds the first separator at or behind `from`.
pub fn find_value_end(tokens: &Vec<Token>, from: usize) -> (out: usize)
    requires
        from <= tokens.len(),
    ensures
        out == value_end(tokens_view(tokens@), from as int),
        from <= out <= tokens.len(),
{
    let mut i: usize = from;
    while i < tokens.len() && !tokens[i].is_punct(',')
        invariant
            from <= i <= tokens.len(),
            value_end(tokens_view(tokens@), from as int) == value_end(tokens_view(tokens@), i as int),
        decreases tokens.len() - i,
    {
        i += 1;
    }
    i
}

impl Parse for KeyValue {
    open spec fn parse_spec(tokens: Seq<TokenView>, start: int) -> Result<(KeyValueView, int), ErrorView> {
        key_value_spec(tokens, start)
    }

    proof fn parse_advances(tokens: Seq<TokenView>, start: int) {
        if start + 2 <= tokens.len() {
            lemma_value_end(tokens, start + 2);
        }
    }

    fn parse(tokens: &Vec<Token>, start: usize) -> (out: Result<(Self, usize), Error>) {
        let name = match read_ident(tokens, start) {
            Ok(name) => name,
            Err(e) => {
                return Err(e);
            },
        };
        let at = start + 1;
        if at < tokens.len() && tokens[at].is_punct('=') {
            let end = find_value_end(tokens, at + 1);
            let value = copy_tokens(tokens, at + 1, end);
            assert(tokens_view(value@) =~= tokens_view(tokens@).subrange(at + 1, end as int));
            Ok((KeyValue { name, eq: tokens[at].seen().span(), value }, end))
        } else {
            Err(Error::new(ErrorKind::ExpectedEquals, location_at(tokens, at)))
        }
    }
}

impl Parse for AttrArg {
    open spec fn parse_spec(tokens: Seq<TokenView>, start: int) -> Result<(AttrArgView, int), ErrorView> {
        arg_spec(tokens, start)
    }

    proof fn parse_advances(tokens: Seq<TokenView>, start: int) {
        if start + 2 <= tokens.len() {
            lemma_value_end(tokens, start + 2);
        }
    }

    fn parse(tokens: &Vec<Token>, start: usize) -> (out: Result<(Self, usize), Error>) {
        if start < tokens.len() && tokens[start].is_punct('!') {
            return match read_ident(tokens, start + 1) {
                Ok(name) => Ok((AttrArg::Not { not: tokens[start].seen().span(), name }, start + 2)),
                Err(e) => Err(e),
            };
        }
        let name = match read_ident(tokens, start) {
            Ok(name) => name,
            Err(e) => {
                return Err(e);
            },
        };
        let at = start + 1;
        if at >= tokens.len() || tokens[at].is_punct(',') {
            return Ok((AttrArg::Flag(name), at));
        }
        match tokens[at].seen() {
            Token::Group { delimiter: Delimiter::Parenthesis, stream, span } => {
                return Ok((AttrArg::Sub(SubAttr { name, paren: span, args: stream }), at + 1));
            },
            _ => {},
        }
        if tokens[at].is_punct('=') {
            let end = find_value_end(tokens, at + 1);
            let value = copy_tokens(tokens, at + 1, end);
            assert(tokens_view(value@) =~= tokens_view(tokens@).subrange(at + 1, end as int));
            Ok((AttrArg::KeyValue(KeyValue { name, eq: tokens[at].seen().span(), value }), end))
        } else {
            Err(Error::new(ErrorKind::ExpectedArgument, location_at(tokens, at)))
        }
    }
}

/// The view of an optional key with its value.
pub open spec fn optional_view(out: Result<Option<KeyValue>, Error>) -> Result<Option<KeyValueView>, ErrorView> {
    match out {
        Ok(Some(key_value)) => Ok(Some(key_value@)),
        Ok(None) => Ok(None),
        Err(e) => Err(e@),
    }
}

/// The error of an outcome that carries no value, if it is one.
pub open spec fn outcome_view(out: Result<(), Error>) -> Option<ErrorView> {
    match out {
        Ok(_) => None,
        Err(e) => Some(e@),
    }
}

impl AttrArgView {
    /// The identifier that every argument carries.
    pub open spec fn name(self) -> IdentView {
        match self {
            AttrArgView::Flag(name) => name,
            AttrArgView::KeyValue(key_value) => key_value.name,
            AttrArgView::Sub(sub) => sub.name,
            AttrArgView::Not { name, .. } => name,
        }
    }

    /// The form of the argument.
    pub open spec fn shape(self) -> Shape {
        match self {
            AttrArgView::Flag(_) => Shape::Flag,
            AttrArgView::KeyValue(_) => Shape::KeyValue,
            AttrArgView::Sub(_) => Shape::Nested,
            AttrArgView::Not { .. } => Shape::Negation,
        }
    }

    /// The error for an argument whose form is not taken: it names the
    /// argument and its form, and is reported at the argument's name.
    pub open spec fn incorrect_type(self) -> ErrorView {
        ErrorView {
            kind: ErrorKind::IncorrectType(self.shape()),
            at: Location::At(self.name().span),
            subject: self.name().name,
        }
    }

    pub open spec fn flag(self) -> Result<IdentView, ErrorView> {
        match self {
            AttrArgView::Flag(name) => Ok(name),
            _ => Err(self.incorrect_type()),
        }
    }

    pub open spec fn key_value(self) -> Result<KeyValueView, ErrorView> {
        match self {
            AttrArgView::KeyValue(key_value) => Ok(key_value),
            _ => Err(self.incorrect_type()),
        }
    }

    pub open spec fn key_value_or_not(self) -> Result<Option<KeyValueView>, ErrorView> {
        match self {
            AttrArgView::KeyValue(key_value) => Ok(Some(key_value)),
            AttrArgView::Not { .. } => Ok(None),
            _ => Err(self.incorrect_type()),
        }
    }

    pub open spec fn sub_attr(self) -> Result<SubAttrView, ErrorView> {
        match self {
            AttrArgView::Sub(sub) => Ok(sub),
            _ => Err(self.incorrect_type()),
        }
    }

    /// What a flag or its negation does to a setting that remembers where it
    /// was switched on: the setting afterwards, and the error if there is one.
    pub open spec fn apply_flag_to_field(self, field: Option<Span>, caption: Seq<char>) -> (
        Option<Span>,
        Option<ErrorView>,
    ) {
        match self {
            AttrArgView::Flag(name) => if field is None {
                (Some(name.span), None)
            } else {
                (field, Some(ErrorView { kind: ErrorKind::AlreadySet, at: Location::At(name.span), subject: caption }))
            },
            AttrArgView::Not { .. } => (None, None),
            _ => (field, Some(self.incorrect_type())),
        }
    }

    /// The tokens that write the argument down.
    pub open spec fn tokens(self) -> Seq<TokenView> {
        match self {
            AttrArgView::Flag(name) => seq![TokenView::Ident(name)],
            AttrArgView::KeyValue(key_value) => seq![
                TokenView::Ident(key_value.name),
                TokenView::Punct { ch: '=', spacing: Spacing::Alone, span: key_value.eq },
            ] + key_value.value,
            AttrArgView::Sub(sub) => seq![
                TokenView::Ident(sub.name),
                TokenView::Group { delimiter: Delimiter::Parenthesis, stream: sub.args, span: sub.paren },
            ],
            AttrArgView::Not { not, name } => seq![
                TokenView::Punct { ch: '!', spacing: Spacing::Alone, span: not },
                TokenView::Ident(name),
            ],
        }
    }

    /// What holds of every argument that was read: its name can name an
    /// argument, and the value of a key holds no separator.
    pub open spec fn well_formed(self) -> bool {
        &&& is_identifier(self.name().name)
        &&& self matches AttrArgView::KeyValue(key_value) ==> forall|i: int|
            0 <= i < key_value.value.len() ==> !(#[trigger] key_value.value[i]).is_comma()
    }
}

impl AttrArg {
    /// The identifier that every argument carries.
    pub fn name(&self) -> (out: &Ident)
        ensures
            out@ == self@.name(),
    {
        match self {
            AttrArg::Flag(name) => name,
            AttrArg::KeyValue(key_value) => &key_value.name,
            AttrArg::Sub(sub) => &sub.name,
            AttrArg::Not { name, .. } => name,
        }
    }

    /// The error for an argument whose form is not taken here.
    pub fn incorrect_type(&self) -> (out: Error)
        ensures
            out@ == self@.incorrect_type(),
    {
        let shape = match self {
            AttrArg::Flag(_) => Shape::Flag,
            AttrArg::KeyValue(_) => Shape::KeyValue,
            AttrArg::Sub(_) => Shape::Nested,
            AttrArg::Not { .. } => Shape::Negation,
        };
        let name = self.name();
        Error::about(ErrorKind::IncorrectType(shape), Location::At(name.span), name.name.clone())
    }

    /// The name of a flag; any other argument is an error.
    pub fn flag(self) -> (out: Result<Ident, Error>)
        ensures
            result_view(out) == self@.flag(),
    {
        match self {
            AttrArg::Flag(name) => Ok(name),
            other => Err(other.incorrect_type()),
        }
    }

    /// A key with its value; any other argument is an error.
    pub fn key_value(self) -> (out: Result<KeyValue, Error>)
        ensures
            result_view(out) == self@.key_value(),
    {
        match self {
            AttrArg::KeyValue(key_value) => Ok(key_value),
            other => Err(other.incorrect_type()),
        }
    }

    /// A key with its value, or nothing for a negation, which asks for the
    /// default; a flag or a nested list is an error.
    pub fn key_value_or_not(self) -> (out: Result<Option<KeyValue>, Error>)
        ensures
            optional_view(out) == self@.key_value_or_not(),
    {
        match self {
            AttrArg::KeyValue(key_value) => Ok(Some(key_value)),
            AttrArg::Not { .. } => Ok(None),
            other => Err(other.incorrect_type()),
        }
    }

    /// A nested list; any other argument is an error.
    pub fn sub_attr(self) -> (out: Result<SubAttr, Error>)
        ensures
            result_view(out) == self@.sub_attr(),
    {
        match self {
            AttrArg::Sub(sub) => Ok(sub),
            other => Err(other.incorrect_type()),
        }
    }

    /// Switches a setting on with a flag, off with a negation. A flag for a
    /// setting that is already on is an error, as is any other argument.
    pub fn apply_flag_to_field(self, field: &mut Option<Span>, caption: &str) -> (out: Result<(), Error>)
        ensures
            (*final(field), outcome_view(out)) == self@.apply_flag_to_field(*old(field), caption@),
    {
        match self {
            AttrArg::Flag(flag) => {
                if field.is_none() {
                    *field = Some(flag.span);
                    Ok(())
                } else {
                    Err(Error::about(ErrorKind::AlreadySet, Location::At(flag.span), caption.to_owned()))
                }
            },
            AttrArg::Not { .. } => {
                *field = None;
                Ok(())
            },
            other => Err(other.incorrect_type()),
        }
    }

    /// The tokens that write the argument down.
    pub fn to_tokens(&self) -> (out: Vec<Token>)
        ensures
            tokens_view(out@) == self@.tokens(),
    {
        let mut out: Vec<Token> = Vec::new();
        match self {
            AttrArg::Flag(name) => {
                out.push(Token::Ident(name.clone()));
            },
            AttrArg::KeyValue(key_value) => {
                out = key_value.to_tokens();
            },
            AttrArg::Sub(sub) => {
                out = sub.to_tokens();
            },
            AttrArg::Not { not, name } => {
                out.push(Token::Punct { ch: '!', spacing: Spacing::Alone, span: *not });
                out.push(Token::Ident(name.clone()));
            },
        }
        assert(tokens_view(out@) =~= self@.tokens());
        out
    }
}

impl KeyValue {
    /// Reads the value as a `T`. The whole value must be one `T`.
    pub fn parse_value<T: Parse>(self) -> (out: Result<T, Error>)
        ensures
            result_view(out) == parse_all_spec::<T>(self@.value),
    {
        parse_all::<T>(&self.value)
    }

    /// The tokens that write the key and its value down.
    pub fn to_tokens(&self) -> (out: Vec<Token>)
        ensures
            tokens_view(out@) == AttrArgView::KeyValue(self@).tokens(),
    {
        let mut out: Vec<Token> = Vec::new();
        out.push(Token::Ident(self.name.clone()));
        out.push(Token::Punct { ch: '=', spacing: Spacing::Alone, span: self.eq });
        let mut i: usize = 0;
        while i < self.value.len()
            invariant
                i <= self.value.len(),
                out@.len() == 2 + i,
                out@[0]@ == TokenView::Ident(self.name@),
                out@[1]@ == (TokenView::Punct { ch: '=', spacing: Spacing::Alone, span: self.eq }),
                forall|j: int| 0 <= j < i ==> out@[2 + j] == self.value@[j],
            decreases self.value.len() - i,
        {
            out.push(self.value[i].clone());
            i += 1;
        }
        assert(tokens_view(out@) =~= AttrArgView::KeyValue(self@).tokens());
        out
    }
}

impl SubAttr {
    /// Reads what stands between the parentheses as values separated by
    /// commas.
    pub fn args<T: Parse>(self) -> (out: Result<Vec<T>, Error>)
        ensures
            list_view(out) == parse_terminated_spec::<T>(stream_tokens(self@.args), 0),
    {
        parse_stream_terminated::<T>(&self.args)
    }

    /// Reads what stands between the parentheses as values that follow each
    /// other with nothing between them.
    pub fn undelimited<T: Parse>(self) -> (out: Result<Vec<T>, Error>)
        ensures
            list_view(out) == parse_repeated_spec::<T>(stream_tokens(self@.args), 0),
    {
        parse_stream_repeated::<T>(&self.args)
    }

    /// The tokens that write the name and its group down.
    pub fn to_tokens(&self) -> (out: Vec<Token>)
        ensures
            tokens_view(out@) == AttrArgView::Sub(self@).tokens(),
    {
        let mut out: Vec<Token> = Vec::new();
        out.push(Token::Ident(self.name.clone()));
        out.push(
            Token::Group { delimiter: Delimiter::Parenthesis, stream: self.args.clone(), span: self.paren },
        );
        assert(tokens_view(out@) =~= AttrArgView::Sub(self@).tokens());
        out
    }
}

/// Whether the tokens from `start` on write down exactly `args`, in order,
/// with a separator between neighbours and, perhaps, one behind the last.
pub open spec fn spells(tokens: Seq<TokenView>, start: int, args: Seq<AttrArgView>) -> bool
    decreases args.len(),
{
    if args.len() == 0 {
        start == tokens.len()
    } else {
        let end = start + args[0].tokens().len();
        &&& 0 <= start
        &&& end <= tokens.len()
        &&& tokens.subrange(start, end) == args[0].tokens()
        &&& (end == tokens.len() && args.len() == 1) || (end < tokens.len() && tokens[end].is_comma() && spells(
            tokens,
            end + 1,
            args.skip(1),
        ))
    }
}

/// Every argument that is read is well formed.
pub proof fn lemma_parsed_well_formed(tokens: Seq<TokenView>, start: int)
    requires
        0 <= start <= tokens.len(),
    ensures
        arg_spec(tokens, start) matches Ok((arg, _)) ==> arg.well_formed(),
{
    if start + 2 <= tokens.len() {
        lemma_value_end(tokens, start + 2);
    }
}

/// Where the tokens of a well-formed argument stand in an input, followed by
/// a separator or by nothing, reading at that place gives the argument back
/// and stops behind it.
pub proof fn lemma_reads_back(tokens: Seq<TokenView>, start: int, arg: AttrArgView)
    requires
        arg.well_formed(),
        0 <= start,
        start + arg.tokens().len() <= tokens.len(),
        tokens.subrange(start, start + arg.tokens().len()) == arg.tokens(),
        start + arg.tokens().len() == tokens.len() || tokens[start + arg.tokens().len()].is_comma(),
    ensures
        arg_spec(tokens, start) == Ok::<(AttrArgView, int), ErrorView>((arg, start + arg.tokens().len())),
{
    let written = arg.tokens();
    let end = start + written.len();
    assert forall|k: int| 0 <= k < written.len() implies tokens[start + k] == written[k] by {
        assert(tokens.subrange(start, end)[k] == tokens[start + k]);
    }
    assert(tokens[start] == written[0]);
    match arg {
        AttrArgView::Flag(name) => {},
        AttrArgView::Not { not, name } => {
            assert(tokens[start + 1] == written[1]);
        },
        AttrArgView::Sub(sub) => {
            assert(tokens[start + 1] == written[1]);
        },
        AttrArgView::KeyValue(key_value) => {
            assert(tokens[start + 1] == written[1]);
            assert forall|i: int| start + 2 <= i < end implies !(#[trigger] tokens[i]).is_comma() by {
                assert(tokens[start + (i - start)] == written[i - start]);
                assert(written[i - start] == key_value.value[i - start - 2]);
            }
            lemma_value_end_is(tokens, start + 2, end);
            assert forall|k: int| 0 <= k < key_value.value.len() implies tokens.subrange(start + 2, end)[k]
                == key_value.value[k] by {
                assert(tokens[start + (k + 2)] == written[k + 2]);
            }
            assert(tokens.subrange(start + 2, end) =~= key_value.value);
        },
    }
}

/// Writing down an argument that was read, and reading that again, gives an
/// equal argument: nothing of an argument is lost in its tokens.
pub proof fn lemma_round_trip(arg: AttrArgView)
    requires
        arg.well_formed(),
    ensures
        arg_spec(arg.tokens(), 0) == Ok::<(AttrArgView, int), ErrorView>((arg, arg.tokens().len() as int)),
{
    assert(arg.tokens().subrange(0, arg.tokens().len() as int) =~= arg.tokens());
    lemma_reads_back(arg.tokens(), 0, arg);
}

/// Where an input writes down a list of well-formed arguments, reading it as
/// a list gives exactly those arguments, in their order.
pub proof fn lemma_list_reads_back(tokens: Seq<TokenView>, start: int, args: Seq<AttrArgView>)
    requires
        spells(tokens, start, args),
        forall|i: int| 0 <= i < args.len() ==> (#[trigger] args[i]).well_formed(),
    ensures
        parse_terminated_spec::<AttrArg>(tokens, start) == Ok::<Seq<AttrArgView>, ErrorView>(args),
    decreases args.len(),
{
    if args.len() == 0 {
        assert(args =~= Seq::<AttrArgView>::empty());
    } else {
        let end = start + args[0].tokens().len();
        lemma_reads_back(tokens, start, args[0]);
        if end == tokens.len() && args.len() == 1 {
            assert(args =~= seq![args[0]]);
        } else {
            let rest = args.skip(1);
            assert forall|i: int| 0 <= i < rest.len() implies (#[trigger] rest[i]).well_formed() by {
                assert(rest[i] == args[i + 1]);
            }
            lemma_list_reads_back(tokens, end + 1, rest);
            assert(seq![args[0]] + rest =~= args);
        }
    }
}

/// A lone name that can name an argument is read as a flag. As a flag it
/// gives its name; asked for a key with a value or for a nested list it gives
/// the error that names the flag and says that it is a flag.
pub proof fn lemma_flag(name: IdentView)
    requires
        is_identifier(name.name),
    ensures
        ({
            let arg = AttrArgView::Flag(name);
            let mismatch = ErrorView {
                kind: ErrorKind::IncorrectType(Shape::Flag),
                at: Location::At(name.span),
                subject: name.name,
            };
            &&& arg_spec(seq![TokenView::Ident(name)], 0) == Ok::<(AttrArgView, int), ErrorView>((arg, 1))
            &&& arg.flag() == Ok::<IdentView, ErrorView>(name)
            &&& arg.key_value() == Err::<KeyValueView, ErrorView>(mismatch)
            &&& arg.sub_attr() == Err::<SubAttrView, ErrorView>(mismatch)
        }),
{
}

/// A name, `=` and a value that holds no separator are read as a key with
/// that value, whatever the value is made of.
pub proof fn lemma_key_value(name: IdentView, spacing: Spacing, eq: Span, value: Seq<TokenView>)
    requires
        is_identifier(name.name),
        forall|i: int| 0 <= i < value.len() ==> !(#[trigger] value[i]).is_comma(),
    ensures
        ({
            let tokens = seq![TokenView::Ident(name), TokenView::Punct { ch: '=', spacing, span: eq }] + value;
            let key_value = KeyValueView { name, eq, value };
            &&& arg_spec(tokens, 0) == Ok::<(AttrArgView, int), ErrorView>(
                (AttrArgView::KeyValue(key_value), tokens.len() as int),
            )
            &&& AttrArgView::KeyValue(key_value).key_value() == Ok::<KeyValueView, ErrorView>(key_value)
        }),
{
    let tokens = seq![TokenView::Ident(name), TokenView::Punct { ch: '=', spacing, span: eq }] + value;
    assert forall|i: int| 2 <= i < tokens.len() implies !(#[trigger] tokens[i]).is_comma() by {
        assert(tokens[i] == value[i - 2]);
    }
    lemma_value_end_is(tokens, 2, tokens.len() as int);
    assert(tokens.subrange(2, tokens.len() as int) =~= value);
}

/// A name and a parenthesized group are read as a nested list that holds the
/// inside of the group, untouched.
pub proof fn lemma_nested(name: IdentView, args: TokenStream, paren: Span)
    requires
        is_identifier(name.name),
    ensures
        ({
            let tokens = seq![
                TokenView::Ident(name),
                TokenView::Group { delimiter: Delimiter::Parenthesis, stream: args, span: paren },
            ];
            let sub = SubAttrView { name, paren, args };
            &&& arg_spec(tokens, 0) == Ok::<(AttrArgView, int), ErrorView>((AttrArgView::Sub(sub), 2))
            &&& AttrArgView::Sub(sub).sub_attr() == Ok::<SubAttrView, ErrorView>(sub)
        }),
{
}

/// `!` and a name are read as a negation. Asked for a key with a value or
/// nothing, a negation gives nothing; asked for a flag, for a key with a value
/// or for a nested list it gives the error that names it.
pub proof fn lemma_negation(spacing: Spacing, not: Span, name: IdentView)
    requires
        is_identifier(name.name),
    ensures
        ({
            let tokens = seq![TokenView::Punct { ch: '!', spacing, span: not }, TokenView::Ident(name)];
            let arg = AttrArgView::Not { not, name };
            let mismatch = ErrorView {
                kind: ErrorKind::IncorrectType(Shape::Negation),
                at: Location::At(name.span),
                subject: name.name,
            };
            &&& arg_spec(tokens, 0) == Ok::<(AttrArgView, int), ErrorView>((arg, 2))
            &&& arg.key_value_or_not() == Ok::<Option<KeyValueView>, ErrorView>(None)
            &&& arg.flag() == Err::<IdentView, ErrorView>(mismatch)
            &&& arg.key_value() == Err::<KeyValueView, ErrorView>(mismatch)
            &&& arg.sub_attr() == Err::<SubAttrView, ErrorView>(mismatch)
        }),
{
}

} // verus!
