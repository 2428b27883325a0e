//! A mutator: a method on the fields of a builder that the builder exposes
//! under a signature of its own.

use crate::apply::{apply_all_spec, apply_attr, apply_attr_spec};
use crate::attr_arg::AttrArgView;
use crate::error::{plain_error, Error, ErrorKind, ErrorView};
use crate::fields::{distinct_names, lemma_fields_are_a_set, require_spec, MutatorAttribute};
use crate::parse::{result_view, values_view};
use crate::syntax::{Attribute, AttributeView, Type, TypeView};
use crate::token::{Ident, IdentView, Location};
use proc_macro2::{Span, TokenStream};
use vstd::prelude::*;
use vstd::string::StringExecFns;

verus! {

/// The receiver of a method: `self`, `&self`, `mut self` or `&mut self`, and
/// the place where it stands. What else may be written at a receiver (a
/// lifetime, a type, attributes) is not held.
#[derive(Clone, Copy, Debug)]
pub struct Receiver {
    pub reference: bool,
    pub mutability: bool,
    pub span: Span,
}

/// The pattern of a parameter. A pattern that binds one name is spelled out;
/// every other pattern is carried as its tokens, with the place where it
/// stands.
#[derive(Debug)]
pub enum Pat {
    Ident { ident: Ident, by_ref: bool, mutability: bool, subpat: Option<TokenStream> },
    Verbatim { tokens: TokenStream, span: Span },
}

/// A pattern as a value.
pub enum PatView {
    Ident { ident: IdentView, by_ref: bool, mutability: bool, subpat: Option<TokenStream> },
    Verbatim { tokens: TokenStream, span: Span },
}

impl View for Pat {
    type V = PatView;

    open spec fn view(&self) -> PatView {
        match *self {
            Pat::Ident { ident, by_ref, mutability, subpat } => PatView::Ident {
                ident: ident@,
                by_ref,
                mutability,
                subpat,
            },
            Pat::Verbatim { tokens, span } => PatView::Verbatim { tokens, span },
        }
    }
}

impl PatView {
    /// Where the pattern stands.
    pub open spec fn span(self) -> Span {
        match self {
            PatView::Ident { ident, .. } => ident.span,
            PatView::Verbatim { span, .. } => span,
        }
    }

    /// The pattern that binds the name `ident` and nothing else.
    pub open spec fn plain(ident: IdentView) -> PatView {
        PatView::Ident { ident, by_ref: false, mutability: false, subpat: None }
    }
}

impl Pat {
    /// Where the pattern stands.
    pub fn span(&self) -> (out: Span)
        ensures
            out == self@.span(),
    {
        match self {
            Pat::Ident { ident, .. } => ident.span,
            Pat::Verbatim { span, .. } => *span,
        }
    }
}

/// A parameter with its type.
#[derive(Debug)]
pub struct PatType {
    pub attrs: TokenStream,
    pub pat: Pat,
    pub ty: Type,
}

/// A parameter with its type, as a value.
pub struct PatTypeView {
    pub attrs: TokenStream,
    pub pat: PatView,
    pub ty: TypeView,
}

impl View for PatType {
    type V = PatTypeView;

    open spec fn view(&self) -> PatTypeView {
        PatTypeView { attrs: self.attrs, pat: self.pat@, ty: self.ty@ }
    }
}

/// A parameter of a function.
#[derive(Debug)]
pub enum FnArg {
    Receiver(Receiver),
    Typed(PatType),
}

/// A parameter as a value.
pub enum FnArgView {
    Receiver(Receiver),
    Typed(PatTypeView),
}

impl FnArgView {
    /// Where the parameter stands.
    pub open spec fn span(self) -> Span {
        match self {
            FnArgView::Receiver(receiver) => receiver.span,
            FnArgView::Typed(typed) => typed.pat.span(),
        }
    }
}

impl FnArg {
    /// Where the parameter stands.
    pub fn span(&self) -> (out: Span)
        ensures
            out == self@.span(),
    {
        match self {
            FnArg::Receiver(receiver) => receiver.span,
            FnArg::Typed(typed) => typed.pat.span(),
        }
    }
}

impl View for FnArg {
    type V = FnArgView;

    open spec fn view(&self) -> FnArgView {
        match *self {
            FnArg::Receiver(receiver) => FnArgView::Receiver(receiver),
            FnArg::Typed(typed) => FnArgView::Typed(typed@),
        }
    }
}

/// The view of a type that may be missing.
pub open spec fn optional_type_view(ty: Option<Type>) -> Option<TypeView> {
    match ty {
        Some(ty) => Some(ty@),
        None => None,
    }
}

/// The signature of a function. `output` is missing where the function
/// returns nothing.
#[derive(Debug)]
pub struct Signature {
    pub qualifiers: TokenStream,
    pub ident: Ident,
    pub generics: TokenStream,
    pub paren_span: Span,
    pub inputs: Vec<FnArg>,
    pub output: Option<Type>,
    pub where_clause: TokenStream,
    pub variadic: TokenStream,
}

/// A signature as a value.
pub struct SignatureView {
    pub qualifiers: TokenStream,
    pub ident: IdentView,
    pub generics: TokenStream,
    pub paren_span: Span,
    pub inputs: Seq<FnArgView>,
    pub output: Option<TypeView>,
    pub where_clause: TokenStream,
    pub variadic: TokenStream,
}

impl View for Signature {
    type V = SignatureView;

    open spec fn view(&self) -> SignatureView {
        SignatureView {
            qualifiers: self.qualifiers,
            ident: self.ident@,
            generics: self.generics,
            paren_span: self.paren_span,
            inputs: values_view(self.inputs@),
            output: optional_type_view(self.output),
            where_clause: self.where_clause,
            variadic: self.variadic,
        }
    }
}

/// A function with its attributes and its body.
#[derive(Debug)]
pub struct ItemFn {
    pub attrs: Vec<Attribute>,
    pub vis: TokenStream,
    pub sig: Signature,
    pub block: TokenStream,
}

/// A function as a value.
pub struct ItemFnView {
    pub attrs: Seq<AttributeView>,
    pub vis: TokenStream,
    pub sig: SignatureView,
    pub block: TokenStream,
}

impl View for ItemFn {
    type V = ItemFnView;

    open spec fn view(&self) -> ItemFnView {
        ItemFnView { attrs: values_view(self.attrs@), vis: self.vis, sig: self.sig@, block: self.block }
    }
}

/// A mutator: the method, and the fields that must be set before it may be
/// called.
#[derive(Debug)]
pub struct Mutator {
    pub fun: ItemFn,
    pub required_fields: Vec<Ident>,
}

/// A mutator as a value.
pub struct MutatorView {
    pub fun: ItemFnView,
    pub required_fields: Seq<IdentView>,
}

impl View for Mutator {
    type V = MutatorView;

    open spec fn view(&self) -> MutatorView {
        MutatorView { fun: self.fun@, required_fields: values_view(self.required_fields@) }
    }
}

/// A copy of a stream that may be missing.
fn clone_optional_stream(stream: &Option<TokenStream>) -> (out: Option<TokenStream>)
    ensures
        out == *stream,
{
    match stream {
        Some(stream) => Some(stream.clone()),
        None => None,
    }
}

impl Clone for Pat {
    fn clone(&self) -> (out: Self)
        ensures
            out@ == self@,
    {
        match self {
            Pat::Ident { ident, by_ref, mutability, subpat } => Pat::Ident {
                ident: ident.clone(),
                by_ref: *by_ref,
                mutability: *mutability,
                subpat: clone_optional_stream(subpat),
            },
            Pat::Verbatim { tokens, span } => Pat::Verbatim { tokens: tokens.clone(), span: *span },
        }
    }
}

impl Clone for PatType {
    fn clone(&self) -> (out: Self)
        ensures
            out@ == self@,
    {
        PatType { attrs: self.attrs.clone(), pat: self.pat.clone(), ty: self.ty.clone() }
    }
}

impl Clone for FnArg {
    fn clone(&self) -> (out: Self)
        ensures
            out@ == self@,
    {
        match self {
            FnArg::Receiver(receiver) => FnArg::Receiver(*receiver),
            FnArg::Typed(typed) => FnArg::Typed(typed.clone()),
        }
    }
}

impl Clone for Signature {
    fn clone(&self) -> (out: Self)
        ensures
            out@ == self@,
    {
        let mut inputs: Vec<FnArg> = Vec::new();
        let mut i: usize = 0;
        while i < self.inputs.len()
            invariant
                i <= self.inputs.len(),
                inputs@.len() == i,
                forall|j: int| 0 <= j < i ==> (#[trigger] inputs@[j])@ == self.inputs@[j]@,
            decreases self.inputs.len() - i,
        {
            inputs.push(self.inputs[i].clone());
            i += 1;
        }
        let output = match &self.output {
            Some(ty) => Some(ty.clone()),
            None => None,
        };
        let out = Signature {
            qualifiers: self.qualifiers.clone(),
            ident: self.ident.clone(),
            generics: self.generics.clone(),
            paren_span: self.paren_span,
            inputs,
            output,
            where_clause: self.where_clause.clone(),
            variadic: self.variadic.clone(),
        };
        assert(out@.inputs =~= self@.inputs);
        out
    }
}

impl Clone for ItemFn {
    fn clone(&self) -> (out: Self)
        ensures
            out@ == self@,
    {
        let mut attrs: Vec<Attribute> = Vec::new();
        let mut i: usize = 0;
        while i < self.attrs.len()
            invariant
                i <= self.attrs.len(),
                attrs@.len() == i,
                forall|j: int| 0 <= j < i ==> (#[trigger] attrs@[j])@ == self.attrs@[j]@,
            decreases self.attrs.len() - i,
        {
            attrs.push(self.attrs[i].clone());
            i += 1;
        }
        let out = ItemFn { attrs, vis: self.vis.clone(), sig: self.sig.clone(), block: self.block.clone() };
        assert(out@.attrs =~= self@.attrs);
        out
    }
}

impl Clone for Mutator {
    fn clone(&self) -> (out: Self)
        ensures
            out@ == self@,
    {
        let mut required_fields: Vec<Ident> = Vec::new();
        let mut i: usize = 0;
        while i < self.required_fields.len()
            invariant
                i <= self.required_fields.len(),
                required_fields@.len() == i,
                forall|j: int| 0 <= j < i ==> #[trigger] required_fields@[j] == self.required_fields@[j],
            decreases self.required_fields.len() - i,
        {
            required_fields.push(self.required_fields[i].clone());
            i += 1;
        }
        let out = Mutator { fun: self.fun.clone(), required_fields };
        assert(out@.required_fields =~= self@.required_fields);
        out
    }
}

/// Whether an attribute is the one that configures a mutator.
pub open spec fn is_mutator_attr(attr: AttributeView) -> bool {
    attr.is_named("mutator"@)
}

/// The attributes that do not configure the mutator, in their order.
pub open spec fn other_attrs(attrs: Seq<AttributeView>) -> Seq<AttributeView>
    decreases attrs.len(),
{
    if attrs.len() == 0 {
        attrs
    } else if is_mutator_attr(attrs.last()) {
        other_attrs(attrs.drop_last())
    } else {
        other_attrs(attrs.drop_last()).push(attrs.last())
    }
}

/// What the attributes that configure the mutator ask for, read in order
/// after `fields`: the fields asked for, and the error of the first attribute
/// that fails, if one does.
pub open spec fn read_attrs_spec(fields: Seq<IdentView>, attrs: Seq<AttributeView>) -> (
    Seq<IdentView>,
    Option<ErrorView>,
)
    decreases attrs.len(),
{
    if attrs.len() == 0 {
        (fields, None)
    } else {
        let first = if is_mutator_attr(attrs[0]) {
            apply_attr_spec::<MutatorAttribute>(fields, attrs[0])
        } else {
            (fields, None)
        };
        if first.1 is Some {
            first
        } else {
            read_attrs_spec(first.0, attrs.skip(1))
        }
    }
}

/// The receiver that every mutator has once it is read: `&mut self`, at the
/// place `span`.
pub open spec fn canonical_receiver(span: Span) -> Receiver {
    Receiver { reference: true, mutability: true, span }
}

/// The receiver of the signature that the builder exposes: `self`, at the
/// place `span`.
pub open spec fn outer_receiver(span: Span) -> Receiver {
    Receiver { reference: false, mutability: false, span }
}

impl SignatureView {
    /// Whether the first parameter is a receiver taken by mutable reference.
    pub open spec fn begins_with_mut_self(self) -> bool {
        &&& self.inputs.len() > 0
        &&& self.inputs[0] is Receiver
        &&& self.inputs[0]->Receiver_0.reference
        &&& self.inputs[0]->Receiver_0.mutability
    }

    /// Where a missing receiver is reported: at the first parameter, or at
    /// the parentheses where there is none.
    pub open spec fn receiver_place(self) -> Location {
        if self.inputs.len() > 0 {
            Location::At(self.inputs[0].span())
        } else {
            Location::At(self.paren_span)
        }
    }

    /// Whether no parameter behind the first is a receiver, as the language
    /// has it.
    pub open spec fn receiver_only_first(self) -> bool {
        forall|i: int| 0 < i < self.inputs.len() ==> (#[trigger] self.inputs[i]) is Typed
    }
}

/// The mutator that a function declares. The attributes that configure it
/// are read, in order, and taken off the function; the other attributes stay.
/// The first parameter must be a receiver taken by mutable reference; it is
/// kept as plain `&mut self` at its place. A function that begins with
/// anything else, `self` or `&self` among it, or that has no parameter, is an
/// error at the first parameter, or at the parentheses where there is none. An
/// error in an attribute comes before that of the receiver.
pub open spec fn mutator_spec(fun: ItemFnView) -> Result<MutatorView, ErrorView> {
    let read = read_attrs_spec(Seq::empty(), fun.attrs);
    if read.1 is Some {
        Err(read.1->0)
    } else if fun.sig.begins_with_mut_self() {
        Ok(
            MutatorView {
                fun: ItemFnView {
                    attrs: other_attrs(fun.attrs),
                    sig: SignatureView {
                        inputs: fun.sig.inputs.update(
                            0,
                            FnArgView::Receiver(canonical_receiver(fun.sig.inputs[0].span())),
                        ),
                        ..fun.sig
                    },
                    ..fun
                },
                required_fields: read.0,
            },
        )
    } else {
        Err(plain_error(ErrorKind::ExpectedReceiver, fun.sig.receiver_place()))
    }
}

impl MutatorView {
    /// What holds of every mutator that was read from a function as the
    /// language has it: it begins with `&mut self` and has no other receiver,
    /// no attribute that configures it is left, and no field is asked for
    /// twice.
    pub open spec fn well_formed(self) -> bool {
        &&& self.fun.sig.begins_with_mut_self()
        &&& self.fun.sig.receiver_only_first()
        &&& forall|i: int| 0 <= i < self.fun.attrs.len() ==> !is_mutator_attr(#[trigger] self.fun.attrs[i])
        &&& distinct_names(self.required_fields)
    }
}

impl Signature {
    /// Where a missing receiver is reported.
    pub fn receiver_place(&self) -> (out: Location)
        ensures
            out == self@.receiver_place(),
    {
        if self.inputs.len() > 0 {
            Location::At(self.inputs[0].span())
        } else {
            Location::At(self.paren_span)
        }
    }
}

impl Mutator {
    /// Reads the mutator that `fun` declares.
    pub fn parse(fun: ItemFn) -> (out: Result<Mutator, Error>)
        ensures
            result_view(out) == mutator_spec(fun@),
    {
        let ghost given = fun@;
        let ItemFn { attrs, vis, sig, block } = fun;
        let mut attrs = attrs;
        let mut attribute = MutatorAttribute::new();
        let ghost mut done: int = 0;
        let mut i: usize = 0;
        proof {
            assert(given.attrs.skip(0) =~= given.attrs);
            assert(given.attrs.take(0) =~= Seq::<AttributeView>::empty());
        }
        while i < attrs.len()
            invariant
                given == fun@,
                0 <= done <= given.attrs.len(),
                i <= attrs.len(),
                values_view(attrs@) == other_attrs(given.attrs.take(done)) + given.attrs.skip(done),
                i == other_attrs(given.attrs.take(done)).len(),
                read_attrs_spec(Seq::empty(), given.attrs) == read_attrs_spec(attribute@, given.attrs.skip(done)),
            decreases attrs.len() - i,
        {
            let ghost rest = given.attrs.skip(done);
            let ghost kept = other_attrs(given.attrs.take(done));
            proof {
                assert(values_view(attrs@)[i as int] == rest[0]);
                assert(rest[0] == given.attrs[done]);
                assert(rest.skip(1) =~= given.attrs.skip(done + 1));
                assert(given.attrs.take(done + 1).drop_last() =~= given.attrs.take(done));
                assert(given.attrs.take(done + 1).last() == given.attrs[done]);
            }
            let ghost fields = attribute@;
            if attrs[i].is_named("mutator") {
                let outcome = apply_attr(&mut attribute, &attrs[i]);
                proof {
                    let first = apply_attr_spec::<MutatorAttribute>(fields, rest[0]);
                    assert(first == (attribute@, crate::attr_arg::outcome_view(outcome)));
                    assert(first.1 is Some ==> read_attrs_spec(fields, rest) == first);
                    assert(first.1 is None ==> read_attrs_spec(fields, rest) == read_attrs_spec(
                        first.0,
                        rest.skip(1),
                    ));
                }
                match outcome {
                    Ok(()) => {},
                    Err(e) => {
                        return Err(e);
                    },
                }
                let ghost before = values_view(attrs@);
                attrs.remove(i);
                proof {
                    assert(values_view(attrs@) =~= before.remove(i as int));
                    assert(before.remove(i as int) =~= kept + given.attrs.skip(done + 1));
                }
            } else {
                proof {
                    assert(values_view(attrs@) =~= kept.push(given.attrs[done]) + given.attrs.skip(done + 1));
                }
                i += 1;
            }
            proof {
                done = done + 1;
            }
        }
        proof {
            assert(given.attrs.skip(done).len() == attrs.len() - i);
            assert(done == given.attrs.len());
            assert(given.attrs.take(done) =~= given.attrs);
            assert(given.attrs.skip(done) =~= Seq::<AttributeView>::empty());
            assert(values_view(attrs@) =~= other_attrs(given.attrs));
        }
        let found = sig.inputs.len() > 0 && match &sig.inputs[0] {
            FnArg::Receiver(receiver) => receiver.reference && receiver.mutability,
            _ => false,
        };
        if !found {
            return Err(Error::new(ErrorKind::ExpectedReceiver, sig.receiver_place()));
        }
        let place = sig.inputs[0].span();
        let Signature { qualifiers, ident, generics, paren_span, inputs, output, where_clause, variadic } = sig;
        let mut inputs = inputs;
        inputs.set(0, FnArg::Receiver(Receiver { reference: true, mutability: true, span: place }));
        assert(values_view(inputs@) =~= given.sig.inputs.update(
            0,
            FnArgView::Receiver(canonical_receiver(given.sig.inputs[0].span())),
        ));
        let sig = Signature { qualifiers, ident, generics, paren_span, inputs, output, where_clause, variadic };
        Ok(Mutator { fun: ItemFn { attrs, vis, sig, block }, required_fields: attribute.required })
    }
}

/// The attributes that are kept are those that do not configure the mutator.
pub proof fn lemma_other_attrs(attrs: Seq<AttributeView>)
    ensures
        forall|i: int| 0 <= i < other_attrs(attrs).len() ==> !is_mutator_attr(#[trigger] other_attrs(attrs)[i]),
    decreases attrs.len(),
{
    if attrs.len() > 0 {
        lemma_other_attrs(attrs.drop_last());
        let kept = other_attrs(attrs);
        let before = other_attrs(attrs.drop_last());
        assert forall|i: int| 0 <= i < kept.len() implies !is_mutator_attr(#[trigger] kept[i]) by {
            if i < before.len() {
                assert(kept[i] == before[i]);
            } else {
                assert(kept[i] == attrs.last());
            }
        }
    }
}

/// The character that writes the digit `d`.
pub open spec fn digit(d: nat) -> char {
    if d == 0 {
        '0'
    } else if d == 1 {
        '1'
    } else if d == 2 {
        '2'
    } else if d == 3 {
        '3'
    } else if d == 4 {
        '4'
    } else if d == 5 {
        '5'
    } else if d == 6 {
        '6'
    } else if d == 7 {
        '7'
    } else if d == 8 {
        '8'
    } else {
        '9'
    }
}

/// The digit that the character `c` writes.
pub open spec fn digit_value(c: char) -> nat {
    if c == '1' {
        1
    } else if c == '2' {
        2
    } else if c == '3' {
        3
    } else if c == '4' {
        4
    } else if c == '5' {
        5
    } else if c == '6' {
        6
    } else if c == '7' {
        7
    } else if c == '8' {
        8
    } else if c == '9' {
        9
    } else {
        0
    }
}

/// The number `n` in decimal digits, without leading zeros.
pub open spec fn decimal(n: nat) -> Seq<char>
    decreases n,
{
    if n < 10 {
        seq![digit(n)]
    } else {
        decimal(n / 10).push(digit(n % 10))
    }
}

/// The number that decimal digits write.
pub open spec fn numeral_value(digits: Seq<char>) -> nat
    decreases digits.len(),
{
    if digits.len() == 0 {
        0
    } else {
        numeral_value(digits.drop_last()) * 10 + digit_value(digits.last())
    }
}

/// The name made up for the parameter at position `at`: two underscores and
/// the position.
pub open spec fn positional_name(at: nat) -> Seq<char> {
    seq!['_', '_'] + decimal(at)
}

/// The name under which the builder takes the parameter at position `at`:
/// the name that the pattern binds, where it binds one, else the made-up name,
/// at the place of the pattern.
pub open spec fn positional_ident(at: nat, pat: PatView) -> IdentView {
    match pat {
        PatView::Ident { ident, .. } => ident,
        PatView::Verbatim { span, .. } => IdentView { name: positional_name(at), span },
    }
}

/// The parameter that the builder's method has at position `at`: `self` for a
/// receiver; for any other parameter a plain name, with the attributes and
/// the type that the parameter had.
pub open spec fn outer_input(at: nat, input: FnArgView) -> FnArgView {
    match input {
        FnArgView::Receiver(receiver) => FnArgView::Receiver(outer_receiver(receiver.span)),
        FnArgView::Typed(typed) => FnArgView::Typed(
            PatTypeView { pat: PatView::plain(positional_ident(at, typed.pat)), ..typed },
        ),
    }
}

/// The signature that the builder exposes: that of the method, with `output`
/// as what it returns and each parameter as [`outer_input`] gives it, in the
/// same order.
pub open spec fn outer_sig_spec(sig: SignatureView, output: TypeView) -> SignatureView {
    SignatureView {
        inputs: Seq::new(sig.inputs.len(), |i: int| outer_input(i as nat, sig.inputs[i])),
        output: Some(output),
        ..sig
    }
}

/// The names for the first `count` parameters that are no receiver, in order.
pub open spec fn arguments_upto(inputs: Seq<FnArgView>, count: nat) -> Seq<IdentView>
    decreases count,
{
    if count == 0 {
        Seq::empty()
    } else {
        let before = arguments_upto(inputs, (count - 1) as nat);
        match inputs[count - 1] {
            FnArgView::Receiver(_) => before,
            FnArgView::Typed(typed) => before.push(positional_ident((count - 1) as nat, typed.pat)),
        }
    }
}

/// The arguments with which the builder's method calls the mutator: the name
/// of every parameter but the receiver, in order.
pub open spec fn arguments_spec(inputs: Seq<FnArgView>) -> Seq<IdentView> {
    arguments_upto(inputs, inputs.len())
}

/// The text that writes one digit.
fn digit_text(d: usize) -> (out: &'static str)
    requires
        d < 10,
    ensures
        out@ == seq![digit(d as nat)],
{
    proof {
        reveal_strlit("0");
        reveal_strlit("1");
        reveal_strlit("2");
        reveal_strlit("3");
        reveal_strlit("4");
        reveal_strlit("5");
        reveal_strlit("6");
        reveal_strlit("7");
        reveal_strlit("8");
        reveal_strlit("9");
    }
    let out = if d == 0 {
        "0"
    } else if d == 1 {
        "1"
    } else if d == 2 {
        "2"
    } else if d == 3 {
        "3"
    } else if d == 4 {
        "4"
    } else if d == 5 {
        "5"
    } else if d == 6 {
        "6"
    } else if d == 7 {
        "7"
    } else if d == 8 {
        "8"
    } else {
        "9"
    };
    assert(out@ =~= seq![digit(d as nat)]);
    out
}

/// The number `n` in decimal digits.
pub fn decimal_text(n: usize) -> (out: String)
    ensures
        out@ == decimal(n as nat),
    decreases n,
{
    if n < 10 {
        digit_text(n).to_owned()
    } else {
        let mut out = decimal_text(n / 10);
        out.append(digit_text(n % 10));
        assert(out@ =~= decimal(n as nat));
        out
    }
}

/// The name under which the builder takes the parameter at position `at`.
pub fn pat_to_ident(at: usize, pat: &Pat) -> (out: Ident)
    ensures
        out@ == positional_ident(at as nat, pat@),
{
    match pat {
        Pat::Ident { ident, .. } => ident.clone(),
        Pat::Verbatim { span, .. } => {
            let mut name = "__".to_owned();
            proof {
                reveal_strlit("__");
                assert("__"@ =~= seq!['_', '_']);
            }
            name.append(decimal_text(at).as_str());
            Ident::new(name, *span)
        },
    }
}

impl Mutator {
    /// The signature of the method that the builder exposes, which returns
    /// `output`.
    pub fn outer_sig(&self, output: Type) -> (out: Signature)
        ensures
            out@ == outer_sig_spec(self@.fun.sig, output@),
    {
        let sig = &self.fun.sig;
        let mut inputs: Vec<FnArg> = Vec::new();
        let mut i: usize = 0;
        while i < sig.inputs.len()
            invariant
                i <= sig.inputs.len(),
                inputs@.len() == i,
                forall|j: int| 0 <= j < i ==> (#[trigger] inputs@[j])@ == outer_input(j as nat, sig.inputs@[j]@),
            decreases sig.inputs.len() - i,
        {
            let input = match &sig.inputs[i] {
                FnArg::Receiver(receiver) => FnArg::Receiver(
                    Receiver { reference: false, mutability: false, span: receiver.span },
                ),
                FnArg::Typed(typed) => FnArg::Typed(
                    PatType {
                        attrs: typed.attrs.clone(),
                        pat: Pat::Ident {
                            ident: pat_to_ident(i, &typed.pat),
                            by_ref: false,
                            mutability: false,
                            subpat: None,
                        },
                        ty: typed.ty.clone(),
                    },
                ),
            };
            inputs.push(input);
            i += 1;
        }
        let out = Signature {
            qualifiers: sig.qualifiers.clone(),
            ident: sig.ident.clone(),
            generics: sig.generics.clone(),
            paren_span: sig.paren_span,
            inputs,
            output: Some(output),
            where_clause: sig.where_clause.clone(),
            variadic: sig.variadic.clone(),
        };
        assert(out@.inputs =~= outer_sig_spec(self@.fun.sig, output@).inputs);
        out
    }

    /// The arguments with which the builder's method calls the mutator.
    pub fn arguments(&self) -> (out: Vec<Ident>)
        ensures
            values_view(out@) == arguments_spec(self@.fun.sig.inputs),
            self@.well_formed() ==> out@.len() == self@.fun.sig.inputs.len() - 1,
    {
        proof {
            if self@.well_formed() {
                lemma_arguments_count(self@.fun.sig.inputs, self@.fun.sig.inputs.len());
            }
        }
        let sig = &self.fun.sig;
        let mut out: Vec<Ident> = Vec::new();
        let mut i: usize = 0;
        while i < sig.inputs.len()
            invariant
                i <= sig.inputs.len(),
                values_view(out@) == arguments_upto(values_view(sig.inputs@), i as nat),
            decreases sig.inputs.len() - i,
        {
            let ghost before = values_view(out@);
            match &sig.inputs[i] {
                FnArg::Receiver(_) => {},
                FnArg::Typed(typed) => {
                    out.push(pat_to_ident(i, &typed.pat));
                    assert(values_view(out@) =~= before.push(positional_ident(i as nat, typed.pat@)));
                },
            }
            i += 1;
        }
        out
    }
}

/// Decimal digits write the number they were made from.
pub proof fn lemma_decimal_value(n: nat)
    ensures
        numeral_value(decimal(n)) == n,
    decreases n,
{
    if n < 10 {
        assert(decimal(n).drop_last() =~= Seq::<char>::empty());
        assert(numeral_value(decimal(n).drop_last()) == 0);
    } else {
        lemma_decimal_value(n / 10);
        assert(decimal(n).drop_last() =~= decimal(n / 10));
    }
}

/// Two positions never get the same made-up name.
pub proof fn lemma_positional_names_differ(first: nat, second: nat)
    requires
        first != second,
    ensures
        positional_name(first) != positional_name(second),
{
    lemma_decimal_value(first);
    lemma_decimal_value(second);
    assert(positional_name(first).skip(2) =~= decimal(first));
    assert(positional_name(second).skip(2) =~= decimal(second));
}

/// The builder's method can call the mutator with the names of its own
/// parameters: the arguments computed from the signature that the builder
/// exposes are those computed from the mutator's, and every parameter of the
/// exposed signature but the receiver is a plain name.
pub proof fn lemma_arguments_follow_outer_sig(sig: SignatureView, output: TypeView)
    ensures
        arguments_spec(outer_sig_spec(sig, output).inputs) == arguments_spec(sig.inputs),
        forall|i: int|
            0 <= i < sig.inputs.len() && sig.inputs[i] is Typed ==> (#[trigger] outer_sig_spec(
                sig,
                output,
            ).inputs[i]) == FnArgView::Typed(
                PatTypeView {
                    pat: PatView::plain(positional_ident(i as nat, sig.inputs[i]->Typed_0.pat)),
                    ..sig.inputs[i]->Typed_0
                },
            ),
{
    lemma_arguments_upto(sig, output, sig.inputs.len());
}

/// [`lemma_arguments_follow_outer_sig`], for the first `count` parameters.
pub proof fn lemma_arguments_upto(sig: SignatureView, output: TypeView, count: nat)
    requires
        count <= sig.inputs.len(),
    ensures
        arguments_upto(outer_sig_spec(sig, output).inputs, count) == arguments_upto(sig.inputs, count),
    decreases count,
{
    if count > 0 {
        lemma_arguments_upto(sig, output, (count - 1) as nat);
    }
}

/// Where the first parameter is the only receiver, every parameter behind it
/// gives one argument.
pub proof fn lemma_arguments_count(inputs: Seq<FnArgView>, count: nat)
    requires
        0 < count <= inputs.len(),
        inputs[0] is Receiver,
        forall|i: int| 0 < i < inputs.len() ==> (#[trigger] inputs[i]) is Typed,
    ensures
        arguments_upto(inputs, count).len() == count - 1,
    decreases count,
{
    if count > 1 {
        lemma_arguments_count(inputs, (count - 1) as nat);
    } else {
        assert(arguments_upto(inputs, 0).len() == 0);
    }
}

/// A function that does not begin with a receiver taken by mutable reference
/// is no mutator. That is so where the first parameter is no reference: an
/// ordinary parameter, or `self` or `mut self` by value; it is so for `&self`
/// and for a function without parameters. Reading it fails, no mutator comes
/// of it, and where its attributes are in order the error is that of the
/// receiver, at the first parameter or at the parentheses.
pub proof fn lemma_receiver_needed(fun: ItemFnView)
    requires
        !fun.sig.begins_with_mut_self(),
    ensures
        mutator_spec(fun) is Err,
        read_attrs_spec(Seq::empty(), fun.attrs).1 is None ==> mutator_spec(fun) == Err::<MutatorView, ErrorView>(
            plain_error(ErrorKind::ExpectedReceiver, fun.sig.receiver_place()),
        ),
{
}

/// Taking one argument keeps the names of the fields distinct.
pub proof fn lemma_require_keeps_distinct(fields: Seq<IdentView>, arg: AttrArgView)
    requires
        distinct_names(fields),
    ensures
        distinct_names(require_spec(fields, arg).0),
{
    let outcome = require_spec(fields, arg);
    if outcome.1 is None {
        let more = crate::parse::parse_all_spec::<crate::fields::FieldList>(arg.key_value()->Ok_0.value)->Ok_0;
        lemma_fields_are_a_set(fields, more);
    }
}

/// Taking arguments in order keeps the names of the fields distinct.
pub proof fn lemma_apply_keeps_distinct(fields: Seq<IdentView>, args: Seq<AttrArgView>)
    requires
        distinct_names(fields),
    ensures
        distinct_names(apply_all_spec::<MutatorAttribute>(fields, args).0),
    decreases args.len(),
{
    if args.len() > 0 {
        lemma_require_keeps_distinct(fields, args[0]);
        let first = require_spec(fields, args[0]);
        if first.1 is None {
            lemma_apply_keeps_distinct(first.0, args.skip(1));
        }
    }
}

/// Reading attributes in order keeps the names of the fields distinct.
pub proof fn lemma_read_keeps_distinct(fields: Seq<IdentView>, attrs: Seq<AttributeView>)
    requires
        distinct_names(fields),
    ensures
        distinct_names(read_attrs_spec(fields, attrs).0),
    decreases attrs.len(),
{
    if attrs.len() > 0 {
        let first = if is_mutator_attr(attrs[0]) {
            apply_attr_spec::<MutatorAttribute>(fields, attrs[0])
        } else {
            (fields, None)
        };
        if is_mutator_attr(attrs[0]) {
            match attrs[0].meta {
                crate::syntax::MetaView::List(list) => {
                    match crate::parse::parse_terminated_spec::<crate::attr_arg::AttrArg>(
                        crate::token::stream_tokens(list.tokens),
                        0,
                    ) {
                        Ok(args) => {
                            lemma_apply_keeps_distinct(fields, args);
                        },
                        Err(_) => {},
                    }
                },
                _ => {},
            }
        }
        assert(distinct_names(first.0));
        if first.1 is None {
            lemma_read_keeps_distinct(first.0, attrs.skip(1));
        }
    }
}

/// Every mutator that is read from a function as the language has it is well
/// formed.
pub proof fn lemma_parsed_mutator_well_formed(fun: ItemFnView)
    requires
        fun.sig.receiver_only_first(),
    ensures
        mutator_spec(fun) matches Ok(mutator) ==> mutator.well_formed(),
{
    lemma_other_attrs(fun.attrs);
    lemma_read_keeps_distinct(Seq::empty(), fun.attrs);
}

} // verus!
