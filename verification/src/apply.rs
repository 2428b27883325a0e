//! How a configuration record takes arguments: one at a time, from left to
//! right, until one fails.

use crate::attr_arg::{outcome_view, AttrArg, AttrArgView};
use crate::error::{plain_error, Error, ErrorKind, ErrorView};
use crate::parse::{parse_stream_terminated, parse_terminated_spec, values_view};
use crate::syntax::{Attribute, AttributeView, MetaList, MetaListView, Meta, MetaView};
use crate::token::{stream_tokens, Location};
use vstd::prelude::*;

verus! {

/// What applying `args` in order does to a record in state `state`: the state
/// afterwards, and the error if there is one. The first argument that fails ends it; what
/// the arguments before it did, and what the failing one did, stays.
pub open spec fn apply_all_spec<M: ApplyMeta>(state: M::V, args: Seq<AttrArgView>) -> (M::V, Option<ErrorView>)
    decreases args.len(),
{
    if args.len() == 0 {
        (state, None)
    } else {
        let first = M::apply_spec(state, args[0]);
        if first.1 is Some {
            first
        } else {
            apply_all_spec::<M>(first.0, args.skip(1))
        }
    }
}

/// What applying the arguments written in `tokens` does.
pub open spec fn apply_tokens_spec<M: ApplyMeta>(state: M::V, tokens: proc_macro2::TokenStream) -> (
    M::V,
    Option<ErrorView>,
) {
    match parse_terminated_spec::<AttrArg>(stream_tokens(tokens), 0) {
        Err(e) => (state, Some(e)),
        Ok(args) => apply_all_spec::<M>(state, args),
    }
}

/// What applying a nested list does: the argument must be a nested list, its
/// inside must read as arguments, and these are applied in order.
pub open spec fn apply_sub_attr_spec<M: ApplyMeta>(state: M::V, arg: AttrArgView) -> (M::V, Option<ErrorView>) {
    match arg.sub_attr() {
        Err(e) => (state, Some(e)),
        Ok(sub) => apply_tokens_spec::<M>(state, sub.args),
    }
}

/// What applying the list of an attribute does: the list must hold
/// something, must read as arguments, and these are applied in order.
pub open spec fn apply_subsections_spec<M: ApplyMeta>(state: M::V, list: MetaListView) -> (
    M::V,
    Option<ErrorView>,
) {
    if stream_tokens(list.tokens).len() == 0 {
        (state, Some(plain_error(ErrorKind::ExpectedArgumentList, Location::At(list.span))))
    } else {
        apply_tokens_spec::<M>(state, list.tokens)
    }
}

/// What applying an attribute does: it must hold a list, which is applied.
pub open spec fn apply_attr_spec<M: ApplyMeta>(state: M::V, attr: AttributeView) -> (M::V, Option<ErrorView>) {
    match attr.meta {
        MetaView::List(list) => apply_subsections_spec::<M>(state, list),
        _ => (state, Some(plain_error(ErrorKind::ExpectedArgumentList, Location::At(attr.span)))),
    }
}

/// A record that takes arguments. An implementation says what each name that
/// it knows means; a name that it does not know is an error.
pub trait ApplyMeta: Sized + View {
    /// What one argument does to the record: the state afterwards, and
    /// the error if there is one.
    spec fn apply_spec(state: Self::V, arg: AttrArgView) -> (Self::V, Option<ErrorView>);

    /// Applies one argument.
    fn apply_meta(&mut self, expr: AttrArg) -> (out: Result<(), Error>)
        ensures
            (final(self)@, outcome_view(out)) == Self::apply_spec(old(self)@, expr@),
    ;
}

/// Applies arguments in order and stops at the first that fails.
pub fn apply_all<M: ApplyMeta>(record: &mut M, args: Vec<AttrArg>) -> (out: Result<(), Error>)
    ensures
        (final(record)@, outcome_view(out)) == apply_all_spec::<M>(old(record)@, values_view(args@)),
{
    let ghost start = record@;
    let ghost all = values_view(args@);
    let mut rest = args;
    while rest.len() > 0
        invariant
            start == old(record)@,
            all == values_view(args@),
            apply_all_spec::<M>(start, all) == apply_all_spec::<M>(record@, values_view(rest@)),
        decreases rest.len(),
    {
        let ghost before = values_view(rest@);
        let ghost state = record@;
        let arg = rest.remove(0);
        assert(before[0] == arg@);
        assert(values_view(rest@) =~= before.skip(1));
        let outcome = record.apply_meta(arg);
        proof {
            let first = M::apply_spec(state, before[0]);
            assert(first == (record@, outcome_view(outcome)));
            assert(first.1 is Some ==> apply_all_spec::<M>(state, before) == first);
            assert(first.1 is None ==> apply_all_spec::<M>(state, before) == apply_all_spec::<M>(
                first.0,
                before.skip(1),
            ));
        }
        match outcome {
            Ok(()) => {},
            Err(e) => {
                return Err(e);
            },
        }
    }
    Ok(())
}

/// Applies the arguments inside a nested list.
pub fn apply_sub_attr<M: ApplyMeta>(record: &mut M, attr_arg: AttrArg) -> (out: Result<(), Error>)
    ensures
        (final(record)@, outcome_view(out)) == apply_sub_attr_spec::<M>(old(record)@, attr_arg@),
{
        let sub = match attr_arg.sub_attr() {
            Ok(sub) => sub,
            Err(e) => {
                return Err(e);
            },
        };
        match parse_stream_terminated::<AttrArg>(&sub.args) {
            Ok(args) => apply_all(record, args),
            Err(e) => Err(e),
        }
    }

/// Applies the arguments in the list of an attribute.
pub fn apply_subsections<M: ApplyMeta>(record: &mut M, list: &MetaList) -> (out: Result<(), Error>)
    ensures
        (final(record)@, outcome_view(out)) == apply_subsections_spec::<M>(old(record)@, list@),
{
        let tokens = crate::token::read_stream(&list.tokens);
        if tokens.len() == 0 {
            return Err(Error::new(ErrorKind::ExpectedArgumentList, Location::At(list.span)));
        }
        match crate::parse::parse_terminated::<AttrArg>(&tokens) {
            Ok(args) => apply_all(record, args),
            Err(e) => Err(e),
        }
    }

/// Applies the arguments of an attribute.
pub fn apply_attr<M: ApplyMeta>(record: &mut M, attr: &Attribute) -> (out: Result<(), Error>)
    ensures
        (final(record)@, outcome_view(out)) == apply_attr_spec::<M>(old(record)@, attr@),
{
        match &attr.meta {
            Meta::List(list) => apply_subsections(record, list),
            _ => Err(Error::new(ErrorKind::ExpectedArgumentList, Location::At(attr.span))),
        }
}

/// What applying the first `count` of `args` does.
pub open spec fn apply_prefix_spec<M: ApplyMeta>(state: M::V, args: Seq<AttrArgView>, count: int) -> (
    M::V,
    Option<ErrorView>,
) {
    apply_all_spec::<M>(state, args.take(count))
}

/// The first failure wins. Where the arguments before position `at` all
/// succeed and the one at `at` fails, applying the whole list leaves the
/// record as those before `at` and the failing one left it, and gives the
/// error of the one at `at`, whatever follows it.
pub proof fn lemma_first_failure_wins<M: ApplyMeta>(state: M::V, args: Seq<AttrArgView>, at: int)
    requires
        0 <= at < args.len(),
        apply_prefix_spec::<M>(state, args, at).1 is None,
        M::apply_spec(apply_prefix_spec::<M>(state, args, at).0, args[at]).1 is Some,
    ensures
        apply_all_spec::<M>(state, args) == M::apply_spec(apply_prefix_spec::<M>(state, args, at).0, args[at]),
    decreases at,
{
    if at == 0 {
        assert(args.take(0) =~= Seq::<AttrArgView>::empty());
    } else {
        let first = M::apply_spec(state, args[0]);
        assert(args.take(at)[0] == args[0]);
        assert(args.take(at).skip(1) =~= args.skip(1).take(at - 1));
        lemma_first_failure_wins::<M>(first.0, args.skip(1), at - 1);
    }
}

/// Where every argument succeeds, each is applied to what the ones before it
/// left: applying one more argument is applying it to the state that the
/// others gave.
pub proof fn lemma_apply_one_more<M: ApplyMeta>(state: M::V, args: Seq<AttrArgView>, arg: AttrArgView)
    requires
        apply_all_spec::<M>(state, args).1 is None,
    ensures
        apply_all_spec::<M>(state, args.push(arg)) == M::apply_spec(apply_all_spec::<M>(state, args).0, arg),
    decreases args.len(),
{
    let longer = args.push(arg);
    if args.len() == 0 {
        assert(longer[0] == arg);
        assert(longer.skip(1) =~= Seq::<AttrArgView>::empty());
        let first = M::apply_spec(state, arg);
        assert(first == (first.0, first.1));
        assert(apply_all_spec::<M>(first.0, longer.skip(1)) == (first.0, None::<ErrorView>));
    } else {
        assert(longer[0] == args[0]);
        let first = M::apply_spec(state, args[0]);
        assert(longer.skip(1) =~= args.skip(1).push(arg));
        lemma_apply_one_more::<M>(first.0, args.skip(1), arg);
    }
}

} // verus!
