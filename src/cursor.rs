//! Lookahead on a token sequence, the syntax error, and the bridge to the
//! grammars that syn parses.

use vstd::prelude::*;
use crate::syntax::{
    abi_rest, accepts_ident, attrs_rest, generic_args_rest, generics_rest, ident_accepted,
    lifetime_rest, output_rest, parse_abi, parse_generic_args, parse_generics, parse_lifetime,
    parse_outer_attrs, parse_return_type, parse_type, parse_visibility, parse_where_clause,
    type_rest, vis_rest, where_rest,
};
use crate::token::{
    is_word, lemma_toks_v, lemma_toks_v_push, render, render_from, toks_v, Delimiter, Spacing, Tok,
    TokenTree,
};

verus! {

/// A grammar whose parser is syn's.
#[derive(Clone, Copy, Debug, PartialEq, Eq, Structural)]
pub enum Grammar {
    Attributes,
    Visibility,
    Abi,
    Generics,
    WhereClause,
    ReturnType,
    Type,
    Lifetime,
    GenericArguments,
}

/// What went wrong, and where: `at` is the index of the offending token in
/// the innermost delimited group (its length where the group ended early).
#[derive(Clone, Copy, Debug, PartialEq, Eq, Structural)]
pub enum ErrorKind {
    ExpectedPattern,
    ExpectedIdent,
    ExpectedMember,
    ExpectedPunct(char),
    ExpectedGroup(Delimiter),
    ExpectedSelf,
    ExpectedFn,
    Invalid(Grammar),
    UnexpectedToken,
    UnexpectedReceiver,
    UnexpectedSecondReceiver,
}

#[derive(Clone, Copy, Debug, PartialEq, Eq, Structural)]
pub struct SyntaxError {
    pub at: usize,
    pub kind: ErrorKind,
}

pub open spec fn err<T>(at: int, kind: ErrorKind) -> Result<T, SyntaxError> {
    Err(SyntaxError { at: at as usize, kind })
}

pub open spec fn punct_at(s: Seq<Tok>, i: int, c: char) -> bool {
    0 <= i < s.len() && s[i] is Punct && s[i]->Punct_0 == c
}

pub open spec fn joint_at(s: Seq<Tok>, i: int, c: char) -> bool {
    0 <= i < s.len() && s[i] == Tok::Punct(c, Spacing::Joint)
}

/// The spacing of the punctuation at `i`.
pub open spec fn spacing_at(s: Seq<Tok>, i: int) -> Spacing {
    match s[i] {
        Tok::Punct(_, sp) => sp,
        _ => Spacing::Alone,
    }
}

pub open spec fn word_at(s: Seq<Tok>, i: int, w: Seq<char>) -> bool {
    0 <= i < s.len() && s[i] == Tok::Ident(w)
}

pub open spec fn ident_at(s: Seq<Tok>, i: int) -> bool {
    0 <= i < s.len() && s[i] is Ident
}

/// An identifier that is not a keyword.
pub open spec fn plain_ident_at(s: Seq<Tok>, i: int) -> bool {
    ident_at(s, i) && ident_accepted(s[i]->Ident_0)
}

pub open spec fn group_at(s: Seq<Tok>, i: int, d: Delimiter) -> bool {
    0 <= i < s.len() && s[i] is Group && s[i]->Group_0 == d
}

pub open spec fn inner(s: Seq<Tok>, i: int) -> Seq<Tok> {
    s[i]->Group_1
}

pub open spec fn colon2_at(s: Seq<Tok>, i: int) -> bool {
    joint_at(s, i, ':') && punct_at(s, i + 1, ':')
}

pub open spec fn dot2_at(s: Seq<Tok>, i: int) -> bool {
    joint_at(s, i, '.') && punct_at(s, i + 1, '.')
}

pub open spec fn dot3_at(s: Seq<Tok>, i: int) -> bool {
    joint_at(s, i, '.') && joint_at(s, i + 1, '.') && punct_at(s, i + 2, '.')
}

/// The tokens of `::`, `..` or `...` whose last character has the given
/// spacing.
pub open spec fn symbol(c: char, n: nat, last: Spacing) -> Seq<Tok> {
    if n == 3 {
        seq![Tok::Punct(c, Spacing::Joint), Tok::Punct(c, Spacing::Joint), Tok::Punct(c, last)]
    } else {
        seq![Tok::Punct(c, Spacing::Joint), Tok::Punct(c, last)]
    }
}

pub open spec fn punct(c: char, sp: Spacing) -> Seq<Tok> {
    seq![Tok::Punct(c, sp)]
}

pub open spec fn word(w: Seq<char>) -> Seq<Tok> {
    seq![Tok::Ident(w)]
}

pub open spec fn word_if(b: bool, w: Seq<char>) -> Seq<Tok> {
    if b {
        word(w)
    } else {
        Seq::empty()
    }
}

/// How many token trees syn's parser for `g` leaves after it parsed the
/// start of `text`.
pub open spec fn grammar_rest(g: Grammar, text: Seq<char>) -> Option<nat> {
    match g {
        Grammar::Attributes => attrs_rest(text),
        Grammar::Visibility => vis_rest(text),
        Grammar::Abi => abi_rest(text),
        Grammar::Generics => generics_rest(text),
        Grammar::WhereClause => where_rest(text),
        Grammar::ReturnType => output_rest(text),
        Grammar::Type => type_rest(text),
        Grammar::Lifetime => lifetime_rest(text),
        Grammar::GenericArguments => generic_args_rest(text),
    }
}

/// Where what syn's parser for `g` reads from `s[pos..]` ends, if it
/// succeeds.
pub open spec fn syn_end_spec(g: Grammar, s: Seq<Tok>, pos: int) -> Option<int> {
    match grammar_rest(g, render(s.subrange(pos, s.len() as int))) {
        Some(k) => if k <= s.len() - pos {
            Some(s.len() - k)
        } else {
            None
        },
        None => None,
    }
}

pub open spec fn view_of(toks: &Vec<TokenTree>) -> Seq<Tok> {
    toks_v(toks@)
}

pub fn syn_end(toks: &Vec<TokenTree>, pos: usize, g: Grammar) -> (r: Option<usize>)
    requires
        pos <= toks@.len(),
    ensures
        match syn_end_spec(g, view_of(toks), pos as int) {
            Some(e) => r == Some(e as usize) && pos <= e <= toks@.len(),
            None => r is None,
        },
{
    proof {
        lemma_toks_v(toks@);
    }
    let mut text: Vec<char> = Vec::new();
    render_from(toks, pos, &mut text);
    assert(text@ =~= render(view_of(toks).subrange(pos as int, toks@.len() as int)));
    let rest = match g {
        Grammar::Attributes => parse_outer_attrs(&text),
        Grammar::Visibility => parse_visibility(&text),
        Grammar::Abi => parse_abi(&text),
        Grammar::Generics => parse_generics(&text),
        Grammar::WhereClause => parse_where_clause(&text),
        Grammar::ReturnType => parse_return_type(&text),
        Grammar::Type => parse_type(&text),
        Grammar::Lifetime => parse_lifetime(&text),
        Grammar::GenericArguments => parse_generic_args(&text),
    };
    match rest {
        Some(k) => if k <= toks.len() - pos {
            Some(toks.len() - k)
        } else {
            None
        },
        None => None,
    }
}

pub fn is_punct(toks: &Vec<TokenTree>, i: usize, c: char) -> (r: bool)
    ensures
        r == punct_at(view_of(toks), i as int, c),
{
    proof {
        lemma_toks_v(toks@);
    }
    if i < toks.len() {
        match &toks[i] {
            TokenTree::Punct(x, _) => *x == c,
            _ => false,
        }
    } else {
        false
    }
}

pub fn is_joint(toks: &Vec<TokenTree>, i: usize, c: char) -> (r: bool)
    ensures
        r == joint_at(view_of(toks), i as int, c),
{
    proof {
        lemma_toks_v(toks@);
    }
    if i < toks.len() {
        match &toks[i] {
            TokenTree::Punct(x, Spacing::Joint) => *x == c,
            _ => false,
        }
    } else {
        false
    }
}

pub fn spacing(toks: &Vec<TokenTree>, i: usize) -> (r: Spacing)
    requires
        i < toks@.len(),
    ensures
        r == spacing_at(view_of(toks), i as int),
{
    proof {
        lemma_toks_v(toks@);
    }
    match &toks[i] {
        TokenTree::Punct(_, sp) => *sp,
        _ => Spacing::Alone,
    }
}

pub fn is_word_at(toks: &Vec<TokenTree>, i: usize, w: &str) -> (r: bool)
    ensures
        r == word_at(view_of(toks), i as int, w@),
{
    proof {
        lemma_toks_v(toks@);
    }
    if i < toks.len() {
        match &toks[i] {
            TokenTree::Ident(n) => is_word(n, w),
            _ => false,
        }
    } else {
        false
    }
}

pub fn is_ident(toks: &Vec<TokenTree>, i: usize) -> (r: bool)
    ensures
        r == ident_at(view_of(toks), i as int),
{
    proof {
        lemma_toks_v(toks@);
    }
    i < toks.len() && matches!(&toks[i], TokenTree::Ident(_))
}

pub fn is_plain_ident(toks: &Vec<TokenTree>, i: usize) -> (r: bool)
    ensures
        r == plain_ident_at(view_of(toks), i as int),
{
    proof {
        lemma_toks_v(toks@);
    }
    if i < toks.len() {
        match &toks[i] {
            TokenTree::Ident(n) => accepts_ident(n),
            _ => false,
        }
    } else {
        false
    }
}

pub fn is_group(toks: &Vec<TokenTree>, i: usize, d: Delimiter) -> (r: bool)
    ensures
        r == group_at(view_of(toks), i as int, d),
{
    proof {
        lemma_toks_v(toks@);
    }
    if i < toks.len() {
        match &toks[i] {
            TokenTree::Group(x, _) => *x == d,
            _ => false,
        }
    } else {
        false
    }
}

pub fn group_contents(toks: &Vec<TokenTree>, i: usize) -> (r: &Vec<TokenTree>)
    requires
        i < toks@.len(),
        view_of(toks)[i as int] is Group,
    ensures
        view_of(r) == inner(view_of(toks), i as int),
        toks@[i as int] is Group && r == toks@[i as int]->Group_1,
{
    proof {
        lemma_toks_v(toks@);
    }
    match &toks[i] {
        TokenTree::Group(_, v) => v,
        _ => {
            assert(false);
            toks
        },
    }
}

pub fn is_colon2(toks: &Vec<TokenTree>, i: usize) -> (r: bool)
    ensures
        r == colon2_at(view_of(toks), i as int),
{
    proof {
        lemma_toks_v(toks@);
    }
    i < toks.len() && is_joint(toks, i, ':') && is_punct(toks, i + 1, ':')
}

pub fn is_dot2(toks: &Vec<TokenTree>, i: usize) -> (r: bool)
    ensures
        r == dot2_at(view_of(toks), i as int),
{
    proof {
        lemma_toks_v(toks@);
    }
    i < toks.len() && is_joint(toks, i, '.') && is_punct(toks, i + 1, '.')
}

pub fn is_dot3(toks: &Vec<TokenTree>, i: usize) -> (r: bool)
    ensures
        r == dot3_at(view_of(toks), i as int),
{
    proof {
        lemma_toks_v(toks@);
    }
    i < toks.len() && i + 1 < toks.len() && is_joint(toks, i, '.') && is_joint(toks, i + 1, '.') && is_punct(
        toks,
        i + 2,
        '.',
    )
}

pub fn push_punct(out: &mut Vec<TokenTree>, c: char, sp: Spacing)
    ensures
        toks_v(final(out)@) == toks_v(old(out)@) + punct(c, sp),
{
    proof {
        lemma_toks_v_push(out@, TokenTree::Punct(c, sp));
    }
    out.push(TokenTree::Punct(c, sp));
}

pub fn push_word(out: &mut Vec<TokenTree>, w: &str)
    ensures
        toks_v(final(out)@) == toks_v(old(out)@) + word(w@),
{
    let t = TokenTree::Ident(w.to_owned());
    proof {
        lemma_toks_v_push(out@, t);
    }
    out.push(t);
}

/// Pushes the punctuation symbol `::`, `..` or `...`.
pub fn push_symbol(out: &mut Vec<TokenTree>, c: char, n: usize, last: Spacing)
    requires
        2 <= n <= 3,
    ensures
        toks_v(final(out)@) == toks_v(old(out)@) + symbol(c, n as nat, last),
{
    push_punct(out, c, Spacing::Joint);
    if n == 3 {
        push_punct(out, c, Spacing::Joint);
    }
    push_punct(out, c, last);
    assert(toks_v(out@) =~= toks_v(old(out)@) + symbol(c, n as nat, last));
}

} // verus!
