//! Syntax trees between syn's "derive" and "full" modes: a function item
//! whose body is kept as unparsed tokens, and the pattern grammar that its
//! arguments need. The library works on token trees of its own; the
//! grammars of types, generics, attributes and the like are syn's.

use vstd::prelude::*;

pub mod cursor;
pub mod func;
pub mod laws;
pub mod pat;
pub mod path;
pub mod syntax;
pub mod token;

pub use crate::cursor::{
    ErrorKind, Grammar, SyntaxError,
};
pub use crate::func::{
    Block, FnArg, ItemFn, Receiver, Signature, Variadic,
};
pub use crate::pat::{
    FieldPat, Member, Pat, PatIdent, PatKind, PatPath, PatReference, PatRest, PatStruct, PatTuple,
    PatTupleStruct, PatType, PatWild,
};
pub use crate::path::{
    Path, PathSegment,
};
pub use crate::token::{
    Delimiter, Spacing, TokenTree,
};

verus! {

} // verus!
