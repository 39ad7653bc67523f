//! The grammars that this library takes from syn: attributes, visibility,
//! ABI, generics, where clauses, return types, types, lifetimes and generic
//! arguments. Each is run, through `syn::parse::Parser::parse_str`, on the
//! source text of the tokens that remain in the current group, and reports
//! how many token trees follow what it parsed (the rest of the stream,
//! counted by `TokenStream::into_iter`). The result depends on the text
//! alone.

use vstd::prelude::*;

verus! {

/// How many token trees follow what syn's `Attribute::parse_outer` reads at the start
/// of `text`; `None` where it reports an error.
pub uninterp spec fn attrs_rest(text: Seq<char>) -> Option<nat>;

/// Relies on syn's `Attribute::parse_outer`: any number of outer attributes `#[...]`.
#[verifier::external_body]
pub(crate) fn parse_outer_attrs(text: &Vec<char>) -> (r: Option<usize>)
    ensures
        match r {
            Some(k) => attrs_rest(text@) == Some(k as nat),
            None => attrs_rest(text@) is None,
        },
{
    let text: String = text.iter().collect();
    let count = |input: syn::parse::ParseStream<'_>| {
        input.call(syn::Attribute::parse_outer)?;
        Ok(input.parse::<proc_macro2::TokenStream>()?.into_iter().count())
    };
    syn::parse::Parser::parse_str(count, &text).ok()
}

/// How many token trees follow what syn's `Visibility` parser reads at the start
/// of `text`; `None` where it reports an error.
pub uninterp spec fn vis_rest(text: Seq<char>) -> Option<nat>;

/// Relies on syn's `Visibility` parser: `pub`, `pub(crate)`, `pub(in path)`, or nothing.
#[verifier::external_body]
pub(crate) fn parse_visibility(text: &Vec<char>) -> (r: Option<usize>)
    ensures
        match r {
            Some(k) => vis_rest(text@) == Some(k as nat),
            None => vis_rest(text@) is None,
        },
{
    let text: String = text.iter().collect();
    let count = |input: syn::parse::ParseStream<'_>| {
        input.parse::<syn::Visibility>()?;
        Ok(input.parse::<proc_macro2::TokenStream>()?.into_iter().count())
    };
    syn::parse::Parser::parse_str(count, &text).ok()
}

/// How many token trees follow what syn's `Option<Abi>` parser reads at the start
/// of `text`; `None` where it reports an error.
pub uninterp spec fn abi_rest(text: Seq<char>) -> Option<nat>;

/// Relies on syn's `Option<Abi>` parser: an optional ABI marker with its optional string.
#[verifier::external_body]
pub(crate) fn parse_abi(text: &Vec<char>) -> (r: Option<usize>)
    ensures
        match r {
            Some(k) => abi_rest(text@) == Some(k as nat),
            None => abi_rest(text@) is None,
        },
{
    let text: String = text.iter().collect();
    let count = |input: syn::parse::ParseStream<'_>| {
        input.parse::<Option<syn::Abi>>()?;
        Ok(input.parse::<proc_macro2::TokenStream>()?.into_iter().count())
    };
    syn::parse::Parser::parse_str(count, &text).ok()
}

/// How many token trees follow what syn's `Generics` parser reads at the start
/// of `text`; `None` where it reports an error.
pub uninterp spec fn generics_rest(text: Seq<char>) -> Option<nat>;

/// Relies on syn's `Generics` parser: an optional `<...>` parameter list, without a where clause.
#[verifier::external_body]
pub(crate) fn parse_generics(text: &Vec<char>) -> (r: Option<usize>)
    ensures
        match r {
            Some(k) => generics_rest(text@) == Some(k as nat),
            None => generics_rest(text@) is None,
        },
{
    let text: String = text.iter().collect();
    let count = |input: syn::parse::ParseStream<'_>| {
        input.parse::<syn::Generics>()?;
        Ok(input.parse::<proc_macro2::TokenStream>()?.into_iter().count())
    };
    syn::parse::Parser::parse_str(count, &text).ok()
}

/// How many token trees follow what syn's `Option<WhereClause>` parser reads at the start
/// of `text`; `None` where it reports an error.
pub uninterp spec fn where_rest(text: Seq<char>) -> Option<nat>;

/// Relies on syn's `Option<WhereClause>` parser: an optional `where` clause.
#[verifier::external_body]
pub(crate) fn parse_where_clause(text: &Vec<char>) -> (r: Option<usize>)
    ensures
        match r {
            Some(k) => where_rest(text@) == Some(k as nat),
            None => where_rest(text@) is None,
        },
{
    let text: String = text.iter().collect();
    let count = |input: syn::parse::ParseStream<'_>| {
        input.parse::<Option<syn::WhereClause>>()?;
        Ok(input.parse::<proc_macro2::TokenStream>()?.into_iter().count())
    };
    syn::parse::Parser::parse_str(count, &text).ok()
}

/// How many token trees follow what syn's `ReturnType` parser reads at the start
/// of `text`; `None` where it reports an error.
pub uninterp spec fn output_rest(text: Seq<char>) -> Option<nat>;

/// Relies on syn's `ReturnType` parser: an optional `-> Type`.
#[verifier::external_body]
pub(crate) fn parse_return_type(text: &Vec<char>) -> (r: Option<usize>)
    ensures
        match r {
            Some(k) => output_rest(text@) == Some(k as nat),
            None => output_rest(text@) is None,
        },
{
    let text: String = text.iter().collect();
    let count = |input: syn::parse::ParseStream<'_>| {
        input.parse::<syn::ReturnType>()?;
        Ok(input.parse::<proc_macro2::TokenStream>()?.into_iter().count())
    };
    syn::parse::Parser::parse_str(count, &text).ok()
}

/// How many token trees follow what syn's `Type` parser reads at the start
/// of `text`; `None` where it reports an error.
pub uninterp spec fn type_rest(text: Seq<char>) -> Option<nat>;

/// Relies on syn's `Type` parser: one type.
#[verifier::external_body]
pub(crate) fn parse_type(text: &Vec<char>) -> (r: Option<usize>)
    ensures
        match r {
            Some(k) => type_rest(text@) == Some(k as nat),
            None => type_rest(text@) is None,
        },
{
    let text: String = text.iter().collect();
    let count = |input: syn::parse::ParseStream<'_>| {
        input.parse::<syn::Type>()?;
        Ok(input.parse::<proc_macro2::TokenStream>()?.into_iter().count())
    };
    syn::parse::Parser::parse_str(count, &text).ok()
}

/// How many token trees follow what syn's `Option<Lifetime>` parser reads at the start
/// of `text`; `None` where it reports an error.
pub uninterp spec fn lifetime_rest(text: Seq<char>) -> Option<nat>;

/// Relies on syn's `Option<Lifetime>` parser: an optional lifetime `'a`.
#[verifier::external_body]
pub(crate) fn parse_lifetime(text: &Vec<char>) -> (r: Option<usize>)
    ensures
        match r {
            Some(k) => lifetime_rest(text@) == Some(k as nat),
            None => lifetime_rest(text@) is None,
        },
{
    let text: String = text.iter().collect();
    let count = |input: syn::parse::ParseStream<'_>| {
        input.parse::<Option<syn::Lifetime>>()?;
        Ok(input.parse::<proc_macro2::TokenStream>()?.into_iter().count())
    };
    syn::parse::Parser::parse_str(count, &text).ok()
}

/// How many token trees follow what syn's `AngleBracketedGenericArguments` parser reads at the start
/// of `text`; `None` where it reports an error.
pub uninterp spec fn generic_args_rest(text: Seq<char>) -> Option<nat>;

/// Relies on syn's `AngleBracketedGenericArguments` parser: `::<...>` or `<...>`.
#[verifier::external_body]
pub(crate) fn parse_generic_args(text: &Vec<char>) -> (r: Option<usize>)
    ensures
        match r {
            Some(k) => generic_args_rest(text@) == Some(k as nat),
            None => generic_args_rest(text@) is None,
        },
{
    let text: String = text.iter().collect();
    let count = |input: syn::parse::ParseStream<'_>| {
        input.parse::<syn::AngleBracketedGenericArguments>()?;
        Ok(input.parse::<proc_macro2::TokenStream>()?.into_iter().count())
    };
    syn::parse::Parser::parse_str(count, &text).ok()
}

/// Whether syn's `Ident` parser takes the word as an identifier: it refuses
/// keywords and `_`.
pub uninterp spec fn ident_accepted(name: Seq<char>) -> bool;

/// Relies on syn's `Ident` parser, which refuses keywords and `_`.
#[verifier::external_body]
pub(crate) fn accepts_ident(name: &String) -> (r: bool)
    ensures
        r == ident_accepted(name@),
{
    syn::parse_str::<syn::Ident>(name).is_ok()
}

/// Whether syn's `Index` parser takes the literal as a field index: an
/// integer without suffix.
pub uninterp spec fn index_accepted(lit: Seq<char>) -> bool;

/// Relies on syn's `Index` parser: an unsuffixed integer that fits in `u32`.
#[verifier::external_body]
pub(crate) fn accepts_index(lit: &String) -> (r: bool)
    ensures
        r == index_accepted(lit@),
{
    syn::parse_str::<syn::Index>(lit).is_ok()
}

} // verus!
