//! Parsing from a position in a run of tokens, and the three ways to parse a
//! whole run: as one value, as values separated by commas, as values that
//! follow each other.

use crate::error::{plain_error, Error, ErrorKind, ErrorView};
use crate::token::{read_stream, stream_tokens, tokens_view, Location, Token, TokenView};
use proc_macro2::TokenStream;
use vstd::prelude::*;

verus! {

/// A type that can be read from tokens.
pub trait Parse: Sized + View {
    /// What reading at `start` gives: the value and the position behind it,
    /// or the error.
    spec fn parse_spec(tokens: Seq<TokenView>, start: int) -> Result<(Self::V, int), ErrorView>;

    /// A value takes at least one token and ends inside the input.
    proof fn parse_advances(tokens: Seq<TokenView>, start: int)
        requires
            0 <= start <= tokens.len(),
        ensures
            Self::parse_spec(tokens, start) matches Ok((_, next)) ==> start < next <= tokens.len(),
    ;

    fn parse(tokens: &Vec<Token>, start: usize) -> (out: Result<(Self, usize), Error>)
        requires
            start <= tokens.len(),
        ensures
            parsed_view(out) == Self::parse_spec(tokens_view(tokens@), start as int),
    ;
}

/// The view of what [`Parse::parse`] returns.
pub open spec fn parsed_view<T: View>(out: Result<(T, usize), Error>) -> Result<(T::V, int), ErrorView> {
    match out {
        Ok((value, next)) => Ok((value@, next as int)),
        Err(e) => Err(e@),
    }
}

/// The view of a result that holds one value.
pub open spec fn result_view<T: View>(out: Result<T, Error>) -> Result<T::V, ErrorView> {
    match out {
        Ok(value) => Ok(value@),
        Err(e) => Err(e@),
    }
}

/// The views of a run of values.
pub open spec fn values_view<T: View>(values: Seq<T>) -> Seq<T::V> {
    values.map_values(|v: T| v@)
}

/// The view of a result that holds a run of values.
pub open spec fn list_view<T: View>(out: Result<Vec<T>, Error>) -> Result<Seq<T::V>, ErrorView> {
    match out {
        Ok(values) => Ok(values_view(values@)),
        Err(e) => Err(e@),
    }
}

/// Where an error about position `at` of `tokens` is reported: at that token,
/// or behind the input when there is none.
pub open spec fn location_of(tokens: Seq<TokenView>, at: int) -> Location {
    if 0 <= at < tokens.len() {
        Location::At(tokens[at].span())
    } else {
        Location::EndOfInput
    }
}

/// The whole input as one value: the value must end where the input ends.
pub open spec fn parse_all_spec<T: Parse>(tokens: Seq<TokenView>) -> Result<T::V, ErrorView> {
    match T::parse_spec(tokens, 0) {
        Ok((value, next)) => if next == tokens.len() {
            Ok(value)
        } else {
            Err(plain_error(ErrorKind::UnexpectedToken, location_of(tokens, next)))
        },
        Err(e) => Err(e),
    }
}

/// The input from `start` on as values separated by commas; a comma may
/// follow the last value. The first error ends the reading.
pub open spec fn parse_terminated_spec<T: Parse>(tokens: Seq<TokenView>, start: int) -> Result<Seq<T::V>, ErrorView>
    decreases tokens.len() - start,
{
    if start < 0 || start >= tokens.len() {
        Ok(Seq::empty())
    } else {
        match T::parse_spec(tokens, start) {
            Err(e) => Err(e),
            Ok((value, next)) => if next <= start || next >= tokens.len() {
                Ok(seq![value])
            } else if !tokens[next].is_comma() {
                Err(plain_error(ErrorKind::ExpectedComma, location_of(tokens, next)))
            } else {
                match parse_terminated_spec::<T>(tokens, next + 1) {
                    Ok(rest) => Ok(seq![value] + rest),
                    Err(e) => Err(e),
                }
            },
        }
    }
}

/// The input from `start` on as values that follow each other with nothing
/// between them. The first error ends the reading.
pub open spec fn parse_repeated_spec<T: Parse>(tokens: Seq<TokenView>, start: int) -> Result<Seq<T::V>, ErrorView>
    decreases tokens.len() - start,
{
    if start < 0 || start >= tokens.len() {
        Ok(Seq::empty())
    } else {
        match T::parse_spec(tokens, start) {
            Err(e) => Err(e),
            Ok((value, next)) => if next <= start || next >= tokens.len() {
                Ok(seq![value])
            } else {
                match parse_repeated_spec::<T>(tokens, next) {
                    Ok(rest) => Ok(seq![value] + rest),
                    Err(e) => Err(e),
                }
            },
        }
    }
}

/// Where an error about position `at` of `tokens` is reported.
pub fn location_at(tokens: &Vec<Token>, at: usize) -> (out: Location)
    ensures
        out == location_of(tokens_view(tokens@), at as int),
{
    if at < tokens.len() {
        Location::At(tokens[at].span())
    } else {
        Location::EndOfInput
    }
}

/// Reads the whole input as one value.
pub fn parse_all<T: Parse>(tokens: &Vec<Token>) -> (out: Result<T, Error>)
    ensures
        result_view(out) == parse_all_spec::<T>(tokens_view(tokens@)),
{
    match T::parse(tokens, 0) {
        Ok((value, next)) => {
            if next == tokens.len() {
                Ok(value)
            } else {
                Err(Error::new(ErrorKind::UnexpectedToken, location_at(tokens, next)))
            }
        },
        Err(e) => Err(e),
    }
}

/// Reads the whole input as values separated by commas.
pub fn parse_terminated<T: Parse>(tokens: &Vec<Token>) -> (out: Result<Vec<T>, Error>)
    ensures
        list_view(out) == parse_terminated_spec::<T>(tokens_view(tokens@), 0),
{
    let ghost views = tokens_view(tokens@);
    let mut values: Vec<T> = Vec::new();
    let mut pos: usize = 0;
    while pos < tokens.len()
        invariant
            pos <= tokens.len(),
            views == tokens_view(tokens@),
            parse_terminated_spec::<T>(views, 0) == (match parse_terminated_spec::<T>(views, pos as int) {
                Ok(rest) => Ok(values_view(values@) + rest),
                Err(e) => Err(e),
            }),
        decreases tokens.len() - pos,
    {
        proof {
            T::parse_advances(views, pos as int);
        }
        match T::parse(tokens, pos) {
            Err(e) => {
                return Err(e);
            },
            Ok((value, next)) => {
                let ghost before = values_view(values@);
                values.push(value);
                assert(values_view(values@) =~= before + seq![value@]);
                if next == tokens.len() {
                    assert(values_view(values@) + Seq::<T::V>::empty() =~= values_view(values@));
                    return Ok(values);
                }
                if !tokens[next].is_punct(',') {
                    return Err(Error::new(ErrorKind::ExpectedComma, location_at(tokens, next)));
                }
                proof {
                    match parse_terminated_spec::<T>(views, next + 1) {
                        Ok(rest) => {
                            assert(before + (seq![value@] + rest) =~= values_view(values@) + rest);
                        },
                        Err(_) => {},
                    }
                }
                pos = next + 1;
            },
        }
    }
    assert(values_view(values@) + Seq::<T::V>::empty() =~= values_view(values@));
    Ok(values)
}

/// Reads the whole input as values that follow each other.
pub fn parse_repeated<T: Parse>(tokens: &Vec<Token>) -> (out: Result<Vec<T>, Error>)
    ensures
        list_view(out) == parse_repeated_spec::<T>(tokens_view(tokens@), 0),
{
    let ghost views = tokens_view(tokens@);
    let mut values: Vec<T> = Vec::new();
    let mut pos: usize = 0;
    while pos < tokens.len()
        invariant
            pos <= tokens.len(),
            views == tokens_view(tokens@),
            parse_repeated_spec::<T>(views, 0) == (match parse_repeated_spec::<T>(views, pos as int) {
                Ok(rest) => Ok(values_view(values@) + rest),
                Err(e) => Err(e),
            }),
        decreases tokens.len() - pos,
    {
        proof {
            T::parse_advances(views, pos as int);
        }
        match T::parse(tokens, pos) {
            Err(e) => {
                return Err(e);
            },
            Ok((value, next)) => {
                let ghost before = values_view(values@);
                values.push(value);
                assert(values_view(values@) =~= before + seq![value@]);
                proof {
                    match parse_repeated_spec::<T>(views, next as int) {
                        Ok(rest) => {
                            assert(before + (seq![value@] + rest) =~= values_view(values@) + rest);
                            assert(before + seq![value@] =~= values_view(values@) + Seq::<T::V>::empty());
                        },
                        Err(_) => {},
                    }
                }
                pos = next;
            },
        }
    }
    assert(values_view(values@) + Seq::<T::V>::empty() =~= values_view(values@));
    Ok(values)
}

/// Reads a stream as one value.
pub fn parse_stream<T: Parse>(stream: &TokenStream) -> (out: Result<T, Error>)
    ensures
        result_view(out) == parse_all_spec::<T>(stream_tokens(*stream)),
{
    let tokens = read_stream(stream);
    parse_all::<T>(&tokens)
}

/// Reads a stream as values separated by commas.
pub fn parse_stream_terminated<T: Parse>(stream: &TokenStream) -> (out: Result<Vec<T>, Error>)
    ensures
        list_view(out) == parse_terminated_spec::<T>(stream_tokens(*stream), 0),
{
    let tokens = read_stream(stream);
    parse_terminated::<T>(&tokens)
}

/// Reads a stream as values that follow each other.
pub fn parse_stream_repeated<T: Parse>(stream: &TokenStream) -> (out: Result<Vec<T>, Error>)
    ensures
        list_view(out) == parse_repeated_spec::<T>(stream_tokens(*stream), 0),
{
    let tokens = read_stream(stream);
    parse_repeated::<T>(&tokens)
}

} // verus!
