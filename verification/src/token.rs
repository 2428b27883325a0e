//! Tokens as plain data, one nesting level at a time.
//!
//! A [`Token`] says what the grammar needs to know of a token tree: its kind,
//! its text and where it stands. The inside of a group stays a
//! `TokenStream` until somebody asks for it with [`read_stream`].

use proc_macro2::{Delimiter as Bracketing, Spacing as Gluing, Span, TokenStream, TokenTree};
use vstd::prelude::*;

verus! {

/// A source location. Nothing is known of it but that it can be copied.
#[verifier::external_type_specification]
#[verifier::external_body]
pub struct ExSpan(proc_macro2::Span);

/// A run of token trees that has not been looked into.
#[verifier::external_type_specification]
#[verifier::external_body]
pub struct ExTokenStream(proc_macro2::TokenStream);

/// The tokens that a stream holds, outermost level only, in order.
pub uninterp spec fn stream_tokens(stream: TokenStream) -> Seq<TokenView>;

/// Whether `name`, read as source text, is one token and that token an
/// identifier that may name an argument: neither a keyword nor `_`.
pub uninterp spec fn is_identifier(name: Seq<char>) -> bool;

/// How a group is bracketed.
#[derive(Clone, Copy, Debug, PartialEq, Eq, Structural)]
pub enum Delimiter {
    Parenthesis,
    Brace,
    Bracket,
    Invisible,
}

/// Whether a punctuation character is glued to the one after it.
#[derive(Clone, Copy, Debug, PartialEq, Eq, Structural)]
pub enum Spacing {
    Alone,
    Joint,
}

/// Where an error is reported.
#[derive(Clone, Copy, Debug)]
pub enum Location {
    /// At a token.
    At(Span),
    /// Behind the last token of the input.
    EndOfInput,
}

/// An identifier: its text as written (a raw identifier keeps its `r#`) and
/// its location.
#[derive(Debug)]
pub struct Ident {
    pub name: String,
    pub span: Span,
}

/// An identifier as a value: its characters and its location.
pub struct IdentView {
    pub name: Seq<char>,
    pub span: Span,
}

impl View for Ident {
    type V = IdentView;

    open spec fn view(&self) -> IdentView {
        IdentView { name: self.name@, span: self.span }
    }
}

impl Clone for Ident {
    fn clone(&self) -> (out: Self)
        ensures
            out == *self,
    {
        Ident { name: self.name.clone(), span: self.span }
    }
}

impl Ident {
    /// The identifier that reads `name` and stands at `span`.
    pub fn new(name: String, span: Span) -> (out: Self)
        ensures
            out@ == (IdentView { name: name@, span }),
    {
        Ident { name, span }
    }

    /// Whether the identifier reads `text`.
    pub fn has_text(&self, text: &str) -> (out: bool)
        ensures
            out == (self@.name == text@),
    {
        let other = text.to_owned();
        self.name == other
    }
}

/// One token tree.
#[derive(Debug)]
pub enum Token {
    Ident(Ident),
    Punct { ch: char, spacing: Spacing, span: Span },
    Literal { text: String, span: Span },
    Group { delimiter: Delimiter, stream: TokenStream, span: Span },
}

/// A token as a value.
pub enum TokenView {
    Ident(IdentView),
    Punct { ch: char, spacing: Spacing, span: Span },
    Literal { text: Seq<char>, span: Span },
    Group { delimiter: Delimiter, stream: TokenStream, span: Span },
}

impl TokenView {
    /// Where the token stands.
    pub open spec fn span(self) -> Span {
        match self {
            TokenView::Ident(ident) => ident.span,
            TokenView::Punct { span, .. } => span,
            TokenView::Literal { span, .. } => span,
            TokenView::Group { span, .. } => span,
        }
    }

    /// Whether the token is an invisible group that holds exactly one token.
    pub open spec fn wraps_one(self) -> bool {
        &&& self is Group
        &&& self->delimiter == Delimiter::Invisible
        &&& stream_tokens(self->stream).len() == 1
    }

    /// The token as the grammar sees it: an invisible group that holds
    /// exactly one token is taken for that token, every other token for
    /// itself. An invisible group comes of a macro that put a fragment in
    /// place of a variable.
    pub open spec fn seen(self) -> TokenView {
        if self.wraps_one() {
            stream_tokens(self->stream)[0]
        } else {
            self
        }
    }

    /// Whether the token is seen as the punctuation character `ch`.
    pub open spec fn is_punct(self, ch: char) -> bool {
        self.seen() matches TokenView::Punct { ch: c, .. } && c == ch
    }

    /// Whether the token is seen as a group between delimiters of the kind
    /// `delimiter`.
    pub open spec fn is_group(self, delimiter: Delimiter) -> bool {
        self.seen() matches TokenView::Group { delimiter: d, .. } && d == delimiter
    }

    /// Whether the token is the separator between arguments.
    pub open spec fn is_comma(self) -> bool {
        self.is_punct(',')
    }
}

impl View for Token {
    type V = TokenView;

    open spec fn view(&self) -> TokenView {
        match *self {
            Token::Ident(ident) => TokenView::Ident(ident@),
            Token::Punct { ch, spacing, span } => TokenView::Punct { ch, spacing, span },
            Token::Literal { text, span } => TokenView::Literal { text: text@, span },
            Token::Group { delimiter, stream, span } => TokenView::Group { delimiter, stream, span },
        }
    }
}

/// The views of a run of tokens.
pub open spec fn tokens_view(tokens: Seq<Token>) -> Seq<TokenView> {
    tokens.map_values(|t: Token| t@)
}

/// `TokenStream::clone` hands back a stream that holds the same tokens.
pub assume_specification[ <proc_macro2::TokenStream as Clone>::clone ](
    stream: &proc_macro2::TokenStream,
) -> (out: proc_macro2::TokenStream)
    ensures
        out == *stream,
;

impl Clone for Token {
    fn clone(&self) -> (out: Self)
        ensures
            out == *self,
    {
        match self {
            Token::Ident(ident) => Token::Ident(ident.clone()),
            Token::Punct { ch, spacing, span } => Token::Punct {
                ch: *ch,
                spacing: *spacing,
                span: *span,
            },
            Token::Literal { text, span } => Token::Literal { text: text.clone(), span: *span },
            Token::Group { delimiter, stream, span } => Token::Group {
                delimiter: *delimiter,
                stream: stream.clone(),
                span: *span,
            },
        }
    }
}

impl Token {
    /// Where the token stands.
    pub fn span(&self) -> (out: Span)
        ensures
            out == self@.span(),
    {
        match self {
            Token::Ident(ident) => ident.span,
            Token::Punct { span, .. } => *span,
            Token::Literal { span, .. } => *span,
            Token::Group { span, .. } => *span,
        }
    }

    /// The token as the grammar sees it.
    pub fn seen(&self) -> (out: Token)
        ensures
            out@ == self@.seen(),
    {
        match self {
            Token::Group { delimiter: Delimiter::Invisible, stream, .. } => {
                let mut inner = read_stream(stream);
                let ghost read = inner@;
                assert(tokens_view(read).len() == read.len());
                if inner.len() == 1 {
                    match inner.pop() {
                        Some(token) => {
                            assert(token@ == stream_tokens(*stream)[0]) by {
                                assert(tokens_view(read)[0] == read[0]@);
                            }
                            token
                        },
                        None => self.clone(),
                    }
                } else {
                    self.clone()
                }
            },
            _ => self.clone(),
        }
    }

    /// Whether the token is seen as the punctuation character `ch`.
    pub fn is_punct(&self, ch: char) -> (out: bool)
        ensures
            out == self@.is_punct(ch),
    {
        match self {
            Token::Punct { ch: c, .. } => *c == ch,
            Token::Group { delimiter: Delimiter::Invisible, stream, .. } => {
                let inner = read_stream(stream);
                assert(tokens_view(inner@).len() == inner@.len());
                if inner.len() == 1 {
                    assert(tokens_view(inner@)[0] == inner@[0]@);
                    match &inner[0] {
                        Token::Punct { ch: c, .. } => *c == ch,
                        _ => false,
                    }
                } else {
                    false
                }
            },
            _ => false,
        }
    }
}

/// Calls `TokenStream::into_iter` on a copy of the stream and turns each
/// `TokenTree` into a [`Token`]: text through `to_string`, the character and
/// spacing of a `Punct`, the delimiter and inner stream of a `Group`, and each
/// tree's span through `TokenTree::span`. Claims that the result is the stream's content, as
/// [`stream_tokens`] names it.
#[verifier::external_body]
fn stream_to_tokens(stream: &TokenStream) -> (out: Vec<Token>)
    ensures
        tokens_view(out@) == stream_tokens(*stream),
{
    stream.clone().into_iter().map(|tree| { let span = tree.span(); match tree {
        TokenTree::Ident(i) => Token::Ident(Ident { span, name: i.to_string() }),
        TokenTree::Literal(l) => Token::Literal { span, text: l.to_string() },
        TokenTree::Punct(p) => Token::Punct { span, ch: p.as_char(), spacing: match p.spacing() {
            Gluing::Alone => Spacing::Alone,
            Gluing::Joint => Spacing::Joint,
        } },
        TokenTree::Group(g) => Token::Group { span, stream: g.stream(), delimiter: match g.delimiter() {
            Bracketing::Parenthesis => Delimiter::Parenthesis,
            Bracketing::Brace => Delimiter::Brace,
            Bracketing::Bracket => Delimiter::Bracket,
            Bracketing::None => Delimiter::Invisible,
        } },
    } }).collect()
}

/// Calls `syn::parse_str::<syn::Ident>`, which accepts a text that holds one
/// token, an identifier that is no keyword and not `_`. Claims that the answer
/// is [`is_identifier`] of the text.
#[verifier::external_body]
fn syn_accepts_ident(name: &str) -> (out: bool)
    ensures
        out == is_identifier(name@),
{
    syn::parse_str::<syn::Ident>(name).is_ok()
}

/// The tokens of a stream, outermost level only.
pub fn read_stream(stream: &TokenStream) -> (out: Vec<Token>)
    ensures
        tokens_view(out@) == stream_tokens(*stream),
{
    stream_to_tokens(stream)
}

/// Whether `name` may name an argument.
pub fn accepts_identifier(name: &str) -> (out: bool)
    ensures
        out == is_identifier(name@),
{
    syn_accepts_ident(name)
}

/// Copies the tokens from `from` up to, not including, `to`.
pub fn copy_tokens(tokens: &Vec<Token>, from: usize, to: usize) -> (out: Vec<Token>)
    requires
        from <= to <= tokens.len(),
    ensures
        out@ == tokens@.subrange(from as int, to as int),
{
    let mut out: Vec<Token> = Vec::new();
    let mut i: usize = from;
    while i < to
        invariant
            from <= i <= to <= tokens.len(),
            out@ == tokens@.subrange(from as int, i as int),
        decreases to - i,
    {
        out.push(tokens[i].clone());
        i += 1;
    }
    out
}

} // verus!
