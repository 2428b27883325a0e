//! Attribute arguments and mutator signatures for a builder generator.
//!
//! The crate reads the argument list of an attribute (`name`, `!name`,
//! `name = value`, `name(...)`) into typed arguments, lets a configuration
//! record consume them one by one, and rewrites a mutator method's signature
//! into the form a builder exposes, together with the arguments that forward a
//! call to the method itself.
//!
//! All of it works on tokens and syntax held as plain data. A
//! `proc_macro2::TokenStream` is taken apart in one place,
//! [`token::read_stream`], one nesting level at a time.

pub mod apply;
pub mod attr_arg;
pub mod error;
pub mod fields;
pub mod mutator;
pub mod parse;
pub mod syntax;
pub mod token;

pub use apply::{apply_all, apply_attr, apply_sub_attr, apply_subsections, ApplyMeta};
pub use attr_arg::{AttrArg, KeyValue, SubAttr};
pub use error::{Error, ErrorKind, Shape};
pub use fields::{FieldList, FieldName, MutatorAttribute};
pub use mutator::{FnArg, ItemFn, Mutator, Pat, PatType, Receiver, Signature};
pub use parse::Parse;
pub use syntax::{
    empty_type, empty_type_tuple, expr_to_lit_string, first_visibility, ident_to_type,
    path_to_single_string, public_visibility, strip_raw_ident_prefix, type_tuple, Attribute, Meta,
    MetaList, Path, PathArguments, PathSegment, Type, TypeTuple, Visibility,
};
pub use token::{Delimiter, Ident, Location, Spacing, Token};
