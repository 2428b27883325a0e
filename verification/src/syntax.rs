//! The pieces of syntax that the builder generator puts together and takes
//! apart: paths, types, attributes. Only what the generator looks at is spelled
//! out; the rest is carried along as token streams.

use crate::error::{plain_error, Error, ErrorKind, ErrorView};
use crate::parse::{location_at, location_of, result_view};
use crate::token::{
    read_stream, stream_tokens, tokens_view, Delimiter, Ident, IdentView, Token, TokenView,
};
use proc_macro2::{Span, TokenStream};
use vstd::prelude::*;
use vstd::string::StrSliceExecFns;

verus! {

/// What follows the name in a segment of a path.
#[derive(Debug)]
pub enum PathArguments {
    /// Nothing.
    Empty,
    /// `<...>`, with what stands between the brackets.
    AngleBracketed(TokenStream),
    /// `(...) -> ...`, with all of it.
    Parenthesized(TokenStream),
}

impl Clone for PathArguments {
    fn clone(&self) -> (out: Self)
        ensures
            out == *self,
    {
        match self {
            PathArguments::Empty => PathArguments::Empty,
            PathArguments::AngleBracketed(tokens) => PathArguments::AngleBracketed(tokens.clone()),
            PathArguments::Parenthesized(tokens) => PathArguments::Parenthesized(tokens.clone()),
        }
    }
}

/// One segment of a path: a name and what follows it.
#[derive(Debug)]
pub struct PathSegment {
    pub ident: Ident,
    pub arguments: PathArguments,
}

/// A segment of a path, as a value.
pub struct PathSegmentView {
    pub ident: IdentView,
    pub arguments: PathArguments,
}

impl View for PathSegment {
    type V = PathSegmentView;

    open spec fn view(&self) -> PathSegmentView {
        PathSegmentView { ident: self.ident@, arguments: self.arguments }
    }
}

impl Clone for PathSegment {
    fn clone(&self) -> (out: Self)
        ensures
            out == *self,
    {
        PathSegment { ident: self.ident.clone(), arguments: self.arguments.clone() }
    }
}

/// A path: segments separated by `::`, perhaps with `::` in front.
#[derive(Debug)]
pub struct Path {
    pub leading_colon: bool,
    pub segments: Vec<PathSegment>,
}

/// A path as a value.
pub struct PathView {
    pub leading_colon: bool,
    pub segments: Seq<PathSegmentView>,
}

impl View for Path {
    type V = PathView;

    open spec fn view(&self) -> PathView {
        PathView {
            leading_colon: self.leading_colon,
            segments: self.segments@.map_values(|s: PathSegment| s@),
        }
    }
}

impl Clone for Path {
    fn clone(&self) -> (out: Self)
        ensures
            out@ == self@,
    {
        let mut segments: Vec<PathSegment> = Vec::new();
        let mut i: usize = 0;
        while i < self.segments.len()
            invariant
                i <= self.segments.len(),
                segments@ == self.segments@.subrange(0, i as int),
            decreases self.segments.len() - i,
        {
            segments.push(self.segments[i].clone());
            i += 1;
        }
        assert(segments@ =~= self.segments@);
        Path { leading_colon: self.leading_colon, segments }
    }
}

impl PathView {
    /// The name that the path consists of, where it is one plain name: no
    /// `::` in front, one segment, nothing behind the name.
    pub open spec fn single_name(self) -> Option<Seq<char>> {
        if !self.leading_colon && self.segments.len() == 1 && self.segments[0].arguments is Empty {
            Some(self.segments[0].ident.name)
        } else {
            None
        }
    }

    /// The path that is the one plain name `ident`.
    pub open spec fn of_ident(ident: IdentView) -> PathView {
        PathView {
            leading_colon: false,
            segments: seq![PathSegmentView { ident, arguments: PathArguments::Empty }],
        }
    }
}

/// A type. A path and a tuple are spelled out; every other type is carried as
/// its tokens.
#[derive(Debug)]
pub enum Type {
    Path(Path),
    Tuple(TypeTuple),
    Verbatim(TokenStream),
}

/// A tuple type: its elements, and whether a comma follows the last one.
#[derive(Debug)]
pub struct TypeTuple {
    pub elems: Vec<Type>,
    pub trailing: bool,
}

/// A type as a value.
pub enum TypeView {
    Path(PathView),
    Tuple(TypeTupleView),
    Verbatim(TokenStream),
}

/// A tuple type as a value.
pub struct TypeTupleView {
    pub elems: Seq<TypeView>,
    pub trailing: bool,
}

/// The view of a type.
pub open spec fn type_view(ty: Type) -> TypeView
    decreases ty,
{
    match ty {
        Type::Path(path) => TypeView::Path(path@),
        Type::Tuple(tuple) => TypeView::Tuple(
            TypeTupleView {
                elems: Seq::new(
                    tuple.elems@.len(),
                    |i: int|
                        if 0 <= i < tuple.elems@.len() {
                            type_view(tuple.elems@[i])
                        } else {
                            TypeView::Tuple(TypeTupleView::empty())
                        },
                ),
                trailing: tuple.trailing,
            },
        ),
        Type::Verbatim(tokens) => TypeView::Verbatim(tokens),
    }
}

/// The views of a run of types.
pub open spec fn types_view(types: Seq<Type>) -> Seq<TypeView> {
    types.map_values(|t: Type| t@)
}

impl View for Type {
    type V = TypeView;

    open spec fn view(&self) -> TypeView {
        type_view(*self)
    }
}

impl View for TypeTuple {
    type V = TypeTupleView;

    open spec fn view(&self) -> TypeTupleView {
        TypeTupleView { elems: types_view(self.elems@), trailing: self.trailing }
    }
}

impl TypeTupleView {
    /// The tuple without elements.
    pub open spec fn empty() -> TypeTupleView {
        TypeTupleView { elems: Seq::empty(), trailing: false }
    }

    /// The tuple of `elems`, closed by a comma unless it is empty, so that a
    /// tuple of one element is not read as that element in parentheses.
    pub open spec fn of(elems: Seq<TypeView>) -> TypeTupleView {
        TypeTupleView { elems, trailing: elems.len() > 0 }
    }
}

/// The view of a tuple type is the view of the type that holds it.
pub proof fn lemma_tuple_view(tuple: TypeTuple)
    ensures
        Type::Tuple(tuple)@ == TypeView::Tuple(tuple@),
{
    assert(type_view(Type::Tuple(tuple))->Tuple_0.elems =~= types_view(tuple.elems@));
}

impl Clone for Type {
    fn clone(&self) -> (out: Self)
        ensures
            out@ == self@,
        decreases self,
    {
        match self {
            Type::Path(path) => Type::Path(path.clone()),
            Type::Tuple(tuple) => {
                let mut elems: Vec<Type> = Vec::new();
                let mut i: usize = 0;
                while i < tuple.elems.len()
                    invariant
                        i <= tuple.elems.len(),
                        *self == Type::Tuple(*tuple),
                        elems@.len() == i,
                        forall|j: int| 0 <= j < i ==> (#[trigger] elems@[j])@ == tuple.elems@[j]@,
                    decreases tuple.elems.len() - i,
                {
                    proof {
                        vstd::std_specs::vec::axiom_vec_index_decreases(tuple.elems, i as int);
                        assert(*tuple == self->Tuple_0);
                    }
                    let elem = tuple.elems[i].clone();
                    elems.push(elem);
                    i += 1;
                }
                assert(types_view(elems@) =~= types_view(tuple.elems@));
                let copy = TypeTuple { elems, trailing: tuple.trailing };
                proof {
                    lemma_tuple_view(copy);
                    lemma_tuple_view(*tuple);
                }
                Type::Tuple(copy)
            },
            Type::Verbatim(tokens) => Type::Verbatim(tokens.clone()),
        }
    }
}

/// Whether a name begins with the two characters that let a keyword stand as
/// an identifier.
pub open spec fn has_raw_prefix(name: Seq<char>) -> bool {
    name.len() >= 2 && name[0] == 'r' && name[1] == '#'
}

/// The name without its `r#`, if it has one.
pub open spec fn without_raw_prefix(name: Seq<char>) -> Seq<char> {
    if has_raw_prefix(name) {
        name.skip(2)
    } else {
        name
    }
}

/// The name as it is shown to the user: without `r#`. For display only; two
/// identifiers are the same when their names with the prefix are.
pub fn strip_raw_ident_prefix(name: String) -> (out: String)
    ensures
        out@ == without_raw_prefix(name@),
{
    let text = name.as_str();
    let len = text.unicode_len();
    if len >= 2 && text.get_char(0) == 'r' && text.get_char(1) == '#' {
        let rest = text.substring_char(2, len).to_owned();
        assert(rest@ =~= name@.skip(2));
        rest
    } else {
        name
    }
}

/// The name that a path consists of, if it is one plain name.
pub fn path_to_single_string(path: &Path) -> (out: Option<String>)
    ensures
        match out {
            Some(name) => path@.single_name() == Some(name@),
            None => path@.single_name() is None,
        },
{
    if path.leading_colon {
        return None;
    }
    if path.segments.len() != 1 {
        return None;
    }
    let segment = &path.segments[0];
    match segment.arguments {
        PathArguments::Empty => Some(segment.ident.name.clone()),
        _ => None,
    }
}

/// The type that is the one plain name `ident`.
pub fn ident_to_type(ident: Ident) -> (out: Type)
    ensures
        out@ == TypeView::Path(PathView::of_ident(ident@)),
{
    let mut segments: Vec<PathSegment> = Vec::new();
    segments.push(PathSegment { ident, arguments: PathArguments::Empty });
    let path = Path { leading_colon: false, segments };
    assert(path@.segments =~= PathView::of_ident(ident@).segments);
    Type::Path(path)
}

/// The tuple type without elements.
pub fn empty_type_tuple() -> (out: TypeTuple)
    ensures
        out@ == TypeTupleView::empty(),
{
    let out = TypeTuple { elems: Vec::new(), trailing: false };
    assert(out@.elems =~= Seq::<TypeView>::empty());
    out
}

/// The type that stands for no value: the tuple without elements.
pub fn empty_type() -> (out: Type)
    ensures
        out@ == TypeView::Tuple(TypeTupleView::empty()),
{
    let tuple = empty_type_tuple();
    proof {
        lemma_tuple_view(tuple);
    }
    Type::Tuple(tuple)
}

/// The tuple type of `elems`, in their order.
pub fn type_tuple(elems: Vec<Type>) -> (out: TypeTuple)
    ensures
        out@ == TypeTupleView::of(types_view(elems@)),
{
    let trailing = elems.len() > 0;
    TypeTuple { elems, trailing }
}

/// The arguments of an attribute between delimiters: `path(...)`.
#[derive(Debug)]
pub struct MetaList {
    pub path: Path,
    pub delimiter: Delimiter,
    pub tokens: TokenStream,
    pub span: Span,
}

/// The list of an attribute, as a value.
pub struct MetaListView {
    pub path: PathView,
    pub delimiter: Delimiter,
    pub tokens: TokenStream,
    pub span: Span,
}

impl View for MetaList {
    type V = MetaListView;

    open spec fn view(&self) -> MetaListView {
        MetaListView { path: self.path@, delimiter: self.delimiter, tokens: self.tokens, span: self.span }
    }
}

/// What an attribute holds: a path alone, a path with a list, or a path with
/// a value.
#[derive(Debug)]
pub enum Meta {
    Path(Path),
    List(MetaList),
    NameValue { path: Path, value: TokenStream },
}

/// What an attribute holds, as a value.
pub enum MetaView {
    Path(PathView),
    List(MetaListView),
    NameValue { path: PathView, value: TokenStream },
}

impl View for Meta {
    type V = MetaView;

    open spec fn view(&self) -> MetaView {
        match *self {
            Meta::Path(path) => MetaView::Path(path@),
            Meta::List(list) => MetaView::List(list@),
            Meta::NameValue { path, value } => MetaView::NameValue { path: path@, value },
        }
    }
}

impl MetaView {
    /// The path that the attribute begins with.
    pub open spec fn path(self) -> PathView {
        match self {
            MetaView::Path(path) => path,
            MetaView::List(list) => list.path,
            MetaView::NameValue { path, .. } => path,
        }
    }
}

impl Meta {
    /// The path that the attribute begins with.
    pub fn path(&self) -> (out: &Path)
        ensures
            out@ == self@.path(),
    {
        match self {
            Meta::Path(path) => path,
            Meta::List(list) => &list.path,
            Meta::NameValue { path, .. } => path,
        }
    }
}

/// An attribute on a declaration. `inner` tells `#![...]`, written inside
/// what it belongs to, from `#[...]`, written in front of it.
#[derive(Debug)]
pub struct Attribute {
    pub inner: bool,
    pub meta: Meta,
    pub span: Span,
}

/// An attribute as a value.
pub struct AttributeView {
    pub inner: bool,
    pub meta: MetaView,
    pub span: Span,
}

impl View for Attribute {
    type V = AttributeView;

    open spec fn view(&self) -> AttributeView {
        AttributeView { inner: self.inner, meta: self.meta@, span: self.span }
    }
}

impl Clone for MetaList {
    fn clone(&self) -> (out: Self)
        ensures
            out@ == self@,
    {
        MetaList {
            path: self.path.clone(),
            delimiter: self.delimiter,
            tokens: self.tokens.clone(),
            span: self.span,
        }
    }
}

impl Clone for Meta {
    fn clone(&self) -> (out: Self)
        ensures
            out@ == self@,
    {
        match self {
            Meta::Path(path) => Meta::Path(path.clone()),
            Meta::List(list) => Meta::List(list.clone()),
            Meta::NameValue { path, value } => Meta::NameValue { path: path.clone(), value: value.clone() },
        }
    }
}

impl Clone for Attribute {
    fn clone(&self) -> (out: Self)
        ensures
            out@ == self@,
    {
        Attribute { inner: self.inner, meta: self.meta.clone(), span: self.span }
    }
}

impl AttributeView {
    /// Whether the attribute's path is the one plain name `name`.
    pub open spec fn is_named(self, name: Seq<char>) -> bool {
        self.meta.path().single_name() == Some(name)
    }
}

impl Attribute {
    /// Whether the attribute's path is the one plain name `name`.
    pub fn is_named(&self, name: &str) -> (out: bool)
        ensures
            out == self@.is_named(name@),
    {
        let path = self.meta.path();
        if path.leading_colon || path.segments.len() != 1 {
            return false;
        }
        let segment = &path.segments[0];
        match segment.arguments {
            PathArguments::Empty => segment.ident.has_text(name),
            _ => false,
        }
    }
}

/// Who may see an item.
#[derive(Debug)]
pub enum Visibility {
    /// `pub`, with the place of the word.
    Public(Span),
    /// `pub(...)`, with all of it.
    Restricted(TokenStream),
    /// Nothing written.
    Inherited,
}

/// `Span::call_site` hands back some location; nothing is claimed of it.
pub assume_specification[ proc_macro2::Span::call_site ]() -> proc_macro2::Span;

/// The tokens that write a visibility down.
pub open spec fn visibility_tokens(vis: Visibility) -> Seq<TokenView> {
    match vis {
        Visibility::Public(span) => seq![TokenView::Ident(IdentView { name: "pub"@, span })],
        Visibility::Restricted(tokens) => stream_tokens(tokens),
        Visibility::Inherited => Seq::empty(),
    }
}

/// The first visibility of the list that is there.
pub open spec fn first_given(visibilities: Seq<Option<&Visibility>>) -> Option<Visibility>
    decreases visibilities.len(),
{
    if visibilities.len() == 0 {
        None
    } else if visibilities[0] is Some {
        Some(*visibilities[0]->0)
    } else {
        first_given(visibilities.skip(1))
    }
}

/// `pub`.
pub fn public_visibility() -> (out: Visibility)
    ensures
        out is Public,
{
    Visibility::Public(Span::call_site())
}

/// The tokens of the first visibility of the list that is there. One must be
/// there.
pub fn first_visibility(visibilities: &[Option<&Visibility>]) -> (out: Vec<Token>)
    requires
        first_given(visibilities@) is Some,
    ensures
        tokens_view(out@) == visibility_tokens(first_given(visibilities@)->0),
{
    let mut i: usize = 0;
    assert(visibilities@.skip(0) =~= visibilities@);
    while i < visibilities.len()
        invariant
            i <= visibilities.len(),
            first_given(visibilities@) is Some,
            first_given(visibilities@) == first_given(visibilities@.skip(i as int)),
        decreases visibilities.len() - i,
    {
        proof {
            assert(visibilities@.skip(i as int)[0] == visibilities@[i as int]);
            assert(visibilities@.skip(i as int).skip(1) =~= visibilities@.skip(i + 1));
        }
        match visibilities[i] {
            Some(vis) => {
                let mut out: Vec<Token> = Vec::new();
                match vis {
                    Visibility::Public(span) => {
                        out.push(Token::Ident(Ident::new("pub".to_owned(), *span)));
                        assert(tokens_view(out@) =~= visibility_tokens(*vis));
                    },
                    Visibility::Restricted(tokens) => {
                        out = read_stream(tokens);
                    },
                    Visibility::Inherited => {
                        assert(tokens_view(out@) =~= visibility_tokens(*vis));
                    },
                }
                return out;
            },
            None => {},
        }
        i += 1;
    }
    proof {
        assert(visibilities@.skip(i as int) =~= Seq::<Option<&Visibility>>::empty());
    }
    Vec::new()
}

/// The value of the string literal that `text` writes, escapes resolved, if
/// it writes one.
pub uninterp spec fn string_literal_value(text: Seq<char>) -> Option<Seq<char>>;

/// Calls `syn::parse_str::<syn::LitStr>` and, where that accepts the text,
/// `LitStr::value`. Claims that the result is [`string_literal_value`] of the
/// text.
#[verifier::external_body]
fn syn_string_value(text: &str) -> (out: Option<String>)
    ensures
        match out {
            Some(value) => string_literal_value(text@) == Some(value@),
            None => string_literal_value(text@) is None,
        },
{
    syn::parse_str::<syn::LitStr>(text).ok().map(|lit| lit.value())
}

/// The string that an expression is, where the expression is one string
/// literal.
pub open spec fn lit_string_spec(tokens: Seq<TokenView>) -> Result<Seq<char>, ErrorView> {
    if tokens.len() == 1 && tokens[0] is Literal && string_literal_value(tokens[0]->Literal_text) is Some {
        Ok(string_literal_value(tokens[0]->Literal_text)->0)
    } else {
        Err(plain_error(ErrorKind::ExpectedString, location_of(tokens, 0)))
    }
}

/// The view of a result that holds a string.
pub open spec fn string_view(out: Result<String, Error>) -> Result<Seq<char>, ErrorView> {
    match out {
        Ok(value) => Ok(value@),
        Err(e) => Err(e@),
    }
}

/// The string that an expression is. Anything but one string literal is an
/// error, reported where the expression begins.
pub fn expr_to_lit_string(expr: &Vec<Token>) -> (out: Result<String, Error>)
    ensures
        string_view(out) == lit_string_spec(tokens_view(expr@)),
{
    if expr.len() == 1 {
        match &expr[0] {
            Token::Literal { text, .. } => {
                match syn_string_value(text.as_str()) {
                    Some(value) => {
                        return Ok(value);
                    },
                    None => {},
                }
            },
            _ => {},
        }
    }
    Err(Error::new(ErrorKind::ExpectedString, location_at(expr, 0)))
}

} // verus!
