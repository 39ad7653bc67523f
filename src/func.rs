//! Function items whose body is kept as unparsed tokens, and their
//! signatures: qualifiers, name, generics, arguments (receiver, typed
//! patterns, a variadic `...`), return type and where clause.

use vstd::prelude::*;
use crate::cursor::{
    dot3_at, err, group_at, group_contents, inner, is_dot3, is_group, is_plain_ident, is_punct,
    is_word_at, plain_ident_at, punct, punct_at, push_punct, push_symbol, push_word, spacing,
    spacing_at, symbol, syn_end, syn_end_spec, view_of, word, word_at, word_if, ErrorKind, Grammar,
    SyntaxError,
};
use crate::pat::{
    pat_parsed,
    comma_print, push_comma, push_sep, push_tree, push_word_if, sep_print, empty_or_trailing, opt, pat_print, pat_spec, Pat, PatType,
    PatWild,
};
use crate::token::{
    tokens_eq, append_copy, copy_run, lemma_toks_v, toks_v, Delimiter,
    Spacing, Tok, TokenTree,
};

verus! {

/// A function item whose body is not parsed.
pub struct ItemFn {
    pub attrs: Vec<TokenTree>,
    pub vis: Vec<TokenTree>,
    pub sig: Signature,
    pub block: Box<Block>,
}

/// A braced block, its contents kept as the tokens they are.
pub struct Block {
    pub stmts: Vec<TokenTree>,
}

/// A function signature. `abi`, `generics`, `output` and `where_clause` are
/// the tokens of those parts, empty where they are absent; each argument is
/// followed by its comma, if any.
pub struct Signature {
    pub constness: bool,
    pub asyncness: bool,
    pub unsafety: bool,
    pub abi: Vec<TokenTree>,
    pub ident: String,
    pub generics: Vec<TokenTree>,
    pub inputs: Vec<(FnArg, Option<Spacing>)>,
    pub variadic: Option<Variadic>,
    pub output: Vec<TokenTree>,
    pub where_clause: Vec<TokenTree>,
}

/// An argument of a function: the receiver of a method, or a pattern with
/// its type.
pub enum FnArg {
    Receiver(Receiver),
    Typed(PatType),
}

/// The `self` argument of a method: `self`, `mut self`, `&'a mut self`,
/// `self: Box<Self>`. `reference` holds the spacing of `&` and the tokens of
/// the lifetime; `ty` is the type written after a colon, or else the type
/// that the short form stands for (`Self`, `&'a mut Self`).
pub struct Receiver {
    pub attrs: Vec<TokenTree>,
    pub reference: Option<(Spacing, Vec<TokenTree>)>,
    pub mutability: bool,
    pub colon_token: Option<Spacing>,
    pub ty: Vec<TokenTree>,
}

/// The variadic argument of a foreign function: an optional pattern with
/// its colon, `...` (the spacing of its last dot), and an optional comma.
pub struct Variadic {
    pub attrs: Vec<TokenTree>,
    pub pat: Option<(Box<Pat>, Spacing)>,
    pub dots: Spacing,
    pub comma: Option<Spacing>,
}

/// The arguments from index `from` on are all typed patterns.
pub open spec fn typed_from(v: Seq<(FnArg, Option<Spacing>)>, from: int) -> bool {
    forall|i: int| from <= i < v.len() ==> #[trigger] v[i].0 is Typed
}

/// A signature has at most one receiver, and only as its first argument.
pub open spec fn sig_wf(x: Signature) -> bool {
    typed_from(x.inputs@, 1)
}

// ----- printing -----

pub open spec fn block_print(b: Block) -> Seq<Tok> {
    seq![Tok::Group(Delimiter::Brace, toks_v(b.stmts@))]
}

/// The type that a receiver written without a colon stands for.
pub open spec fn implicit_self_ty(reference: Option<(Spacing, Vec<TokenTree>)>, m: bool) -> Seq<
    Tok,
> {
    match reference {
        Some((_, lt)) => punct('&', Spacing::Alone) + toks_v(lt@) + word_if(m, "mut"@) + word(
            "Self"@,
        ),
        None => word("Self"@),
    }
}

pub open spec fn receiver_print(r: Receiver) -> Seq<Tok> {
    receiver_head(r) + receiver_ty(r)
}

/// The attributes, `&` and lifetime, `mut` and `self` of a receiver.
pub open spec fn receiver_head(r: Receiver) -> Seq<Tok> {
    toks_v(r.attrs@) + match r.reference {
        Some((sp, lt)) => punct('&', sp) + toks_v(lt@),
        None => Seq::empty(),
    } + word_if(r.mutability, "mut"@) + word("self"@)
}

/// The colon and type of a receiver, where they are written.
pub open spec fn receiver_ty(r: Receiver) -> Seq<Tok> {
    match r.colon_token {
        Some(sp) => punct(':', sp) + toks_v(r.ty@),
        None => if toks_v(r.ty@) == implicit_self_ty(r.reference, r.mutability) {
            Seq::empty()
        } else {
            punct(':', Spacing::Alone) + toks_v(r.ty@)
        },
    }
}

pub open spec fn arg_print(a: FnArg) -> Seq<Tok> {
    match a {
        FnArg::Receiver(r) => receiver_print(r),
        FnArg::Typed(t) => pat_print(Pat::Type(t)),
    }
}

pub open spec fn args_print(v: Seq<(FnArg, Option<Spacing>)>) -> Seq<Tok>
    decreases v.len(),
{
    if v.len() == 0 {
        Seq::empty()
    } else {
        arg_print(v[0].0) + sep_print(v[0].1, v.len() > 1) + args_print(v.subrange(1, v.len() as int))
    }
}

pub open spec fn variadic_print(v: Variadic) -> Seq<Tok> {
    toks_v(v.attrs@) + match v.pat {
        Some((p, sp)) => pat_print(*p) + punct(':', sp),
        None => Seq::empty(),
    } + symbol('.', 3, v.dots) + comma_print(v.comma)
}

/// The tokens inside the parentheses of a signature: a comma goes before
/// the variadic argument where the arguments do not end with one.
pub open spec fn inputs_print(x: Signature) -> Seq<Tok> {
    args_print(x.inputs@) + match x.variadic {
        Some(v) => if empty_or_trailing(x.inputs@) {
            variadic_print(v)
        } else {
            punct(',', Spacing::Alone) + variadic_print(v)
        },
        None => Seq::empty(),
    }
}

pub open spec fn sig_print(x: Signature) -> Seq<Tok> {
    word_if(x.constness, "const"@) + word_if(x.asyncness, "async"@) + word_if(
        x.unsafety,
        "unsafe"@,
    ) + toks_v(x.abi@) + word("fn"@) + word(x.ident@) + toks_v(x.generics@) + seq![
        Tok::Group(Delimiter::Parenthesis, inputs_print(x)),
    ] + toks_v(x.output@) + toks_v(x.where_clause@)
}

/// The tokens of a function item.
pub open spec fn item_print(x: ItemFn) -> Seq<Tok> {
    toks_v(x.attrs@) + toks_v(x.vis@) + sig_print(x.sig) + block_print(*x.block)
}

// ----- the grammar -----

/// A receiver: optional `&` with an optional lifetime, optional `mut`,
/// `self`, and (without `&`) an optional `: Type`. Gives where it ends, its
/// tokens, and where its `self` stands.
#[verifier::opaque]
pub open spec fn receiver_spec(s: Seq<Tok>, pos: int) -> Result<(int, Seq<Tok>, int), SyntaxError> {
    let r = punct_at(s, pos, '&');
    match if r {
        syn_end_spec(Grammar::Lifetime, s, pos + 1)
    } else {
        Some(pos)
    } {
        None => err(pos + 1, ErrorKind::Invalid(Grammar::Lifetime)),
        Some(q) => {
            let m = word_at(s, q, "mut"@);
            let q2 = q + opt(m);
            let head = if r {
                punct('&', spacing_at(s, pos)) + s.subrange(pos + 1, q)
            } else {
                Seq::empty()
            } + word_if(m, "mut"@) + word("self"@);
            if !word_at(s, q2, "self"@) {
                err(q2, ErrorKind::ExpectedSelf)
            } else if !r && punct_at(s, q2 + 1, ':') {
                match syn_end_spec(Grammar::Type, s, q2 + 2) {
                    Some(e) => Ok(
                        (e, head + punct(':', spacing_at(s, q2 + 1)) + s.subrange(q2 + 2, e), q2),
                    ),
                    None => err(q2 + 2, ErrorKind::Invalid(Grammar::Type)),
                }
            } else {
                Ok((q2 + 1, head, q2))
            }
        },
    }
}

#[derive(PartialEq, Eq, Structural)]
pub enum ArgKind {
    Receiver,
    Typed,
    Variadic,
}

/// What one argument parses to: where it ends, its tokens, its kind, and
/// for a receiver where its `self` stands.
pub struct ArgParse {
    pub end: int,
    pub out: Seq<Tok>,
    pub kind: ArgKind,
    pub self_at: int,
}

/// Whether the argument at `pos` is a receiver: one parses there, and no
/// `:` that it did not read follows it.
pub open spec fn receiver_taken(s: Seq<Tok>, pos: int) -> bool {
    receiver_spec(s, pos) is Ok && !punct_at(s, receiver_spec(s, pos)->Ok_0.0, ':')
}

/// One argument after its attributes: a receiver where one is taken; else,
/// for an identifier followed by `<`, a bare type (read as `_: Type`); else
/// `pattern: Type`, or `pattern: ...` for the variadic argument.
#[verifier::opaque]
pub open spec fn arg_spec(s: Seq<Tok>, pos: int) -> Result<ArgParse, SyntaxError> {
    if receiver_taken(s, pos) {
        let (e, o, at) = receiver_spec(s, pos)->Ok_0;
        Ok(ArgParse { end: e, out: o, kind: ArgKind::Receiver, self_at: at })
    } else if plain_ident_at(s, pos) && punct_at(s, pos + 1, '<') {
        bare_type_spec(s, pos)
    } else {
        typed_arg_spec(s, pos)
    }
}

/// A type with no pattern, read as `_: Type`.
#[verifier::opaque]
pub open spec fn bare_type_spec(s: Seq<Tok>, pos: int) -> Result<ArgParse, SyntaxError> {
    match syn_end_spec(Grammar::Type, s, pos) {
        Some(e) => Ok(
            ArgParse {
                end: e,
                out: word("_"@) + punct(':', Spacing::Alone) + s.subrange(pos, e),
                kind: ArgKind::Typed,
                self_at: 0,
            },
        ),
        None => err(pos, ErrorKind::Invalid(Grammar::Type)),
    }
}

/// `pattern: Type`, or `pattern: ...`.
#[verifier::opaque]
pub open spec fn typed_arg_spec(s: Seq<Tok>, pos: int) -> Result<ArgParse, SyntaxError> {
    match pat_spec(s, pos) {
        Err(x) => Err(x),
        Ok((e, o)) => if !punct_at(s, e, ':') {
            err(e, ErrorKind::ExpectedPunct(':'))
        } else if dot3_at(s, e + 1) {
            Ok(
                ArgParse {
                    end: e + 4,
                    out: o + punct(':', spacing_at(s, e)) + symbol('.', 3, spacing_at(s, e + 3)),
                    kind: ArgKind::Variadic,
                    self_at: 0,
                },
            )
        } else {
            match syn_end_spec(Grammar::Type, s, e + 1) {
                Some(t) => Ok(
                    ArgParse {
                        end: t,
                        out: o + punct(':', spacing_at(s, e)) + s.subrange(e + 1, t),
                        kind: ArgKind::Typed,
                        self_at: 0,
                    },
                ),
                None => err(e + 1, ErrorKind::Invalid(Grammar::Type)),
            }
        },
    }
}

/// One argument on its own, attributes first: as in a list, but `...` is
/// not accepted where a type is due.
pub open spec fn fn_arg_spec(s: Seq<Tok>, pos: int) -> Result<(int, Seq<Tok>), SyntaxError> {
    match syn_end_spec(Grammar::Attributes, s, pos) {
        None => err(pos, ErrorKind::Invalid(Grammar::Attributes)),
        Some(a) => match arg_spec(s, a) {
            Err(x) => Err(x),
            Ok(g) => if g.kind == ArgKind::Variadic {
                err(g.end - 3, ErrorKind::Invalid(Grammar::Type))
            } else {
                Ok((g.end, s.subrange(pos, a) + g.out))
            },
        },
    }
}

/// After the variadic argument (whose tokens are `o`), which ends at `e`:
/// an optional comma, then the end of the list.
pub open spec fn variadic_tail(c: Seq<Tok>, e: int, o: Seq<Tok>) -> Result<Seq<Tok>, SyntaxError> {
    if e >= c.len() {
        Ok(o)
    } else if !punct_at(c, e, ',') {
        err(e, ErrorKind::ExpectedPunct(','))
    } else if e + 1 < c.len() {
        err(e + 1, ErrorKind::UnexpectedToken)
    } else {
        Ok(o + punct(',', spacing_at(c, e)))
    }
}

/// The arguments from `q` to the end of the parentheses. `first` tells
/// whether none came before; `has_receiver` whether a receiver did.
pub open spec fn args_spec(c: Seq<Tok>, q: int, first: bool, has_receiver: bool) -> Result<
    Seq<Tok>,
    SyntaxError,
>
    decreases c.len() - q,
{
    if q >= c.len() {
        Ok(Seq::empty())
    } else {
        match syn_end_spec(Grammar::Attributes, c, q) {
            None => err(q, ErrorKind::Invalid(Grammar::Attributes)),
            Some(a) => {
                let at = c.subrange(q, a);
                if dot3_at(c, a) {
                    variadic_tail(c, a + 3, at + symbol('.', 3, spacing_at(c, a + 2)))
                } else {
                    match arg_spec(c, a) {
                        Err(x) => Err(x),
                        Ok(g) => if g.kind == ArgKind::Variadic {
                            variadic_tail(c, g.end, at + g.out)
                        } else if g.kind == ArgKind::Receiver && has_receiver {
                            err(g.self_at, ErrorKind::UnexpectedSecondReceiver)
                        } else if g.kind == ArgKind::Receiver && !first {
                            err(g.self_at, ErrorKind::UnexpectedReceiver)
                        } else if g.end >= c.len() {
                            Ok(at + g.out)
                        } else if !punct_at(c, g.end, ',') {
                            err(g.end, ErrorKind::ExpectedPunct(','))
                        } else if g.end < q {
                            // never taken: an argument ends after its attributes
                            err(g.end, ErrorKind::UnexpectedToken)
                        } else {
                            match args_spec(
                                c,
                                g.end + 1,
                                false,
                                has_receiver || g.kind == ArgKind::Receiver,
                            ) {
                                Ok(o2) => Ok(at + g.out + punct(',', spacing_at(c, g.end)) + o2),
                                Err(x) => Err(x),
                            }
                        },
                    }
                }
            },
        }
    }
}

/// A signature: `const`, `async`, `unsafe` (each optional), an ABI, `fn`,
/// the name, generics, the parenthesized arguments, the return type and
/// the where clause.
#[verifier::opaque]
pub open spec fn sig_spec(s: Seq<Tok>, pos: int) -> Result<(int, Seq<Tok>), SyntaxError> {
    let c1 = word_at(s, pos, "const"@);
    let q1 = pos + opt(c1);
    let a1 = word_at(s, q1, "async"@);
    let q2 = q1 + opt(a1);
    let u1 = word_at(s, q2, "unsafe"@);
    let q3 = q2 + opt(u1);
    match syn_end_spec(Grammar::Abi, s, q3) {
        None => err(q3, ErrorKind::Invalid(Grammar::Abi)),
        Some(q4) => if !word_at(s, q4, "fn"@) {
            err(q4, ErrorKind::ExpectedFn)
        } else if !plain_ident_at(s, q4 + 1) {
            err(q4 + 1, ErrorKind::ExpectedIdent)
        } else {
            match syn_end_spec(Grammar::Generics, s, q4 + 2) {
                None => err(q4 + 2, ErrorKind::Invalid(Grammar::Generics)),
                Some(g) => match sig_tail_spec(s, g) {
                    Err(x) => Err(x),
                    Ok((w, t)) => Ok(
                        (
                            w,
                            word_if(c1, "const"@) + word_if(a1, "async"@) + word_if(u1, "unsafe"@)
                                + s.subrange(q3, q4) + word("fn"@) + seq![s[q4 + 1]] + s.subrange(
                                q4 + 2,
                                g,
                            ) + t,
                        ),
                    ),
                },
            }
        },
    }
}

/// The parenthesized arguments at `g`, the return type and the where
/// clause.
#[verifier::opaque]
pub open spec fn sig_tail_spec(s: Seq<Tok>, g: int) -> Result<(int, Seq<Tok>), SyntaxError> {
    if !group_at(s, g, Delimiter::Parenthesis) {
        err(g, ErrorKind::ExpectedGroup(Delimiter::Parenthesis))
    } else {
        match args_spec(inner(s, g), 0, true, false) {
            Err(x) => Err(x),
            Ok(ao) => match syn_end_spec(Grammar::ReturnType, s, g + 1) {
                None => err(g + 1, ErrorKind::Invalid(Grammar::ReturnType)),
                Some(o) => match syn_end_spec(Grammar::WhereClause, s, o) {
                    None => err(o, ErrorKind::Invalid(Grammar::WhereClause)),
                    Some(w) => Ok(
                        (w, seq![Tok::Group(Delimiter::Parenthesis, ao)] + s.subrange(g + 1, w)),
                    ),
                },
            },
        }
    }
}

/// A whole function item: outer attributes, visibility, signature, and a
/// braced body that ends the input.
pub open spec fn item_spec(s: Seq<Tok>) -> Result<Seq<Tok>, SyntaxError> {
    match syn_end_spec(Grammar::Attributes, s, 0) {
        None => err(0, ErrorKind::Invalid(Grammar::Attributes)),
        Some(a) => match syn_end_spec(Grammar::Visibility, s, a) {
            None => err(a, ErrorKind::Invalid(Grammar::Visibility)),
            Some(v) => match sig_spec(s, v) {
                Err(x) => Err(x),
                Ok((e, so)) => if !group_at(s, e, Delimiter::Brace) {
                    err(e, ErrorKind::ExpectedGroup(Delimiter::Brace))
                } else if e + 1 < s.len() {
                    err(e + 1, ErrorKind::UnexpectedToken)
                } else {
                    Ok(s.subrange(0, v) + so + seq![s[e]])
                },
            },
        },
    }
}

// ----- the tree that was read -----

/// Where the lifetime of a receiver at `pos` ends (`pos` without `&`).
pub open spec fn receiver_lt_end(s: Seq<Tok>, pos: int) -> int {
    if punct_at(s, pos, '&') {
        syn_end_spec(Grammar::Lifetime, s, pos + 1)->Some_0
    } else {
        pos
    }
}

/// The receiver `r` is the one read at `pos` (attributes aside): `&` and
/// lifetime exactly where written, the `mut` written, a colon exactly where
/// one is written with the type read after it, and otherwise the type that
/// the short form stands for.
pub open spec fn receiver_parsed(r: Receiver, s: Seq<Tok>, pos: int) -> bool {
    let amp = punct_at(s, pos, '&');
    let q = receiver_lt_end(s, pos);
    let q2 = q + opt(r.mutability);
    let colon = !amp && punct_at(s, q2 + 1, ':');
    r.mutability == word_at(s, q, "mut"@) && match r.reference {
        Some((sp, lt)) => amp && sp == spacing_at(s, pos) && toks_v(lt@) == s.subrange(pos + 1, q),
        None => !amp,
    } && match r.colon_token {
        Some(sp) => colon && sp == spacing_at(s, q2 + 1) && receiver_spec(s, pos) is Ok && toks_v(
            r.ty@,
        ) == s.subrange(q2 + 2, receiver_spec(s, pos)->Ok_0.0),
        None => !colon && toks_v(r.ty@) == implicit_self_ty(r.reference, r.mutability),
    }
}

pub open spec fn arg_attrs(a: FnArg) -> Seq<TokenTree> {
    match a {
        FnArg::Receiver(r) => r.attrs@,
        FnArg::Typed(t) => t.attrs@,
    }
}

/// The argument `a` is the one read at `pos` (attributes aside): the
/// receiver taken there, or the bare type read as `_: Type`, or the pattern
/// read there with its colon and the type read after it.
pub open spec fn arg_parsed(a: FnArg, s: Seq<Tok>, pos: int) -> bool {
    match a {
        FnArg::Receiver(r) => receiver_taken(s, pos) && receiver_parsed(r, s, pos),
        FnArg::Typed(t) => !receiver_taken(s, pos) && arg_spec(s, pos) is Ok && if plain_ident_at(
            s,
            pos,
        ) && punct_at(s, pos + 1, '<') {
            *t.pat is Wild && (*t.pat)->Wild_0.attrs@.len() == 0 && t.colon_token == Spacing::Alone
                && toks_v(t.ty@) == s.subrange(pos, arg_spec(s, pos)->Ok_0.end)
        } else {
            pat_spec(s, pos) is Ok && pat_parsed(*t.pat, s, pos) && pat_print(*t.pat) == pat_spec(
                s,
                pos,
            )->Ok_0.1 && t.colon_token == spacing_at(s, pat_spec(s, pos)->Ok_0.0) && toks_v(t.ty@)
                == s.subrange(pat_spec(s, pos)->Ok_0.0 + 1, arg_spec(s, pos)->Ok_0.end)
        },
    }
}

/// The variadic argument `v` is `pattern: ...` read at `pos` (attributes
/// and comma aside).
pub open spec fn variadic_pat_parsed(v: Variadic, s: Seq<Tok>, pos: int) -> bool {
    pat_spec(s, pos) is Ok && match v.pat {
        Some((p, sp)) => {
            let e = pat_spec(s, pos)->Ok_0.0;
            pat_parsed(*p, s, pos) && pat_print(*p) == pat_spec(s, pos)->Ok_0.1 && sp == spacing_at(
                s,
                e,
            ) && v.dots == spacing_at(s, e + 3)
        },
        None => false,
    }
}

/// The comma `o` is the one at `e`, where the list goes on.
pub open spec fn comma_parsed(o: Option<Spacing>, c: Seq<Tok>, e: int) -> bool {
    if e < c.len() {
        o == Some(spacing_at(c, e))
    } else {
        o is None
    }
}

/// The arguments `v` and the variadic argument `var` are those read from
/// `q` to the end of the parentheses `c`: each with the attributes written
/// before it and the comma after it.
pub open spec fn args_parsed(
    v: Seq<(FnArg, Option<Spacing>)>,
    var: Option<Variadic>,
    c: Seq<Tok>,
    q: int,
) -> bool
    decreases v.len(),
{
    if q >= c.len() {
        v.len() == 0 && var is None
    } else {
        syn_end_spec(Grammar::Attributes, c, q) is Some && {
            let a = syn_end_spec(Grammar::Attributes, c, q)->Some_0;
            if v.len() == 0 {
                var is Some && toks_v(var->Some_0.attrs@) == c.subrange(q, a) && if dot3_at(c, a) {
                    var->Some_0.pat is None && var->Some_0.dots == spacing_at(c, a + 2)
                        && comma_parsed(var->Some_0.comma, c, a + 3)
                } else {
                    arg_spec(c, a) is Ok && arg_spec(c, a)->Ok_0.kind == ArgKind::Variadic
                        && variadic_pat_parsed(var->Some_0, c, a) && comma_parsed(
                        var->Some_0.comma,
                        c,
                        arg_spec(c, a)->Ok_0.end,
                    )
                }
            } else {
                !dot3_at(c, a) && arg_spec(c, a) is Ok && arg_spec(c, a)->Ok_0.kind
                    != ArgKind::Variadic && toks_v(arg_attrs(v[0].0)) == c.subrange(q, a)
                    && arg_parsed(v[0].0, c, a) && {
                    let e = arg_spec(c, a)->Ok_0.end;
                    if e < c.len() {
                        v[0].1 == Some(spacing_at(c, e)) && args_parsed(
                            v.subrange(1, v.len() as int),
                            var,
                            c,
                            e + 1,
                        )
                    } else {
                        v.len() == 1 && v[0].1 is None && var is None
                    }
                }
            }
        }
    }
}

/// The signature `x` is the one read at `pos`: the qualifiers written, the
/// ABI, generics, return type and where clause exactly as syn read them,
/// the name written after `fn`, and the arguments read in the parentheses.
pub open spec fn sig_parsed(x: Signature, s: Seq<Tok>, pos: int) -> bool {
    let q1 = pos + opt(x.constness);
    let q2 = q1 + opt(x.asyncness);
    let q3 = q2 + opt(x.unsafety);
    x.constness == word_at(s, pos, "const"@) && x.asyncness == word_at(s, q1, "async"@)
        && x.unsafety == word_at(s, q2, "unsafe"@) && syn_end_spec(Grammar::Abi, s, q3) is Some && {
        let q4 = syn_end_spec(Grammar::Abi, s, q3)->Some_0;
        toks_v(x.abi@) == s.subrange(q3, q4) && 0 <= q4 + 1 < s.len() && s[q4 + 1] == Tok::Ident(
            x.ident@,
        ) && syn_end_spec(Grammar::Generics, s, q4 + 2) is Some && {
            let g = syn_end_spec(Grammar::Generics, s, q4 + 2)->Some_0;
            toks_v(x.generics@) == s.subrange(q4 + 2, g) && args_parsed(
                x.inputs@,
                x.variadic,
                inner(s, g),
                0,
            ) && syn_end_spec(Grammar::ReturnType, s, g + 1) is Some && {
                let o = syn_end_spec(Grammar::ReturnType, s, g + 1)->Some_0;
                toks_v(x.output@) == s.subrange(g + 1, o) && syn_end_spec(
                    Grammar::WhereClause,
                    s,
                    o,
                ) is Some && toks_v(x.where_clause@) == s.subrange(
                    o,
                    syn_end_spec(Grammar::WhereClause, s, o)->Some_0,
                )
            }
        }
    }
}

/// The item `x` is the one read from all of `s`: its attributes and
/// visibility as syn read them, its signature, and the body's tokens.
pub open spec fn item_parsed(x: ItemFn, s: Seq<Tok>) -> bool {
    syn_end_spec(Grammar::Attributes, s, 0) is Some && {
        let a = syn_end_spec(Grammar::Attributes, s, 0)->Some_0;
        toks_v(x.attrs@) == s.subrange(0, a) && syn_end_spec(Grammar::Visibility, s, a) is Some && {
            let v = syn_end_spec(Grammar::Visibility, s, a)->Some_0;
            toks_v(x.vis@) == s.subrange(a, v) && sig_parsed(x.sig, s, v) && s.len() > 0
                && toks_v(x.block.stmts@) == inner(s, s.len() - 1)
        }
    }
}

proof fn lemma_args_parsed_cons(
    v: Seq<(FnArg, Option<Spacing>)>,
    var: Option<Variadic>,
    arg: FnArg,
    sp: Spacing,
    c: Seq<Tok>,
    q: int,
    a: int,
)
    requires
        q < c.len(),
        syn_end_spec(Grammar::Attributes, c, q) == Some(a),
        !dot3_at(c, a),
        arg_spec(c, a) is Ok,
        arg_spec(c, a)->Ok_0.kind != ArgKind::Variadic,
        toks_v(arg_attrs(arg)) == c.subrange(q, a),
        arg_parsed(arg, c, a),
        arg_spec(c, a)->Ok_0.end < c.len(),
        sp == spacing_at(c, arg_spec(c, a)->Ok_0.end),
        args_parsed(v, var, c, arg_spec(c, a)->Ok_0.end + 1),
    ensures
        args_parsed(v.insert(0, (arg, Some(sp))), var, c, q),
{
    let w = v.insert(0, (arg, Some(sp)));
    assert(w.subrange(1, w.len() as int) =~= v);
}

// ----- parsing -----

fn build_self_ty(reference: &Option<(Spacing, Vec<TokenTree>)>, m: bool) -> (r: Vec<TokenTree>)
    ensures
        toks_v(r@) == implicit_self_ty(*reference, m),
{
    let mut r: Vec<TokenTree> = Vec::new();
    assert(toks_v(r@) =~= Seq::<Tok>::empty()) by {
        lemma_toks_v(r@);
    }
    if let Some((_, lt)) = reference {
        push_punct(&mut r, '&', Spacing::Alone);
        append_copy(&mut r, lt);
        if m {
            push_word(&mut r, "mut");
        }
    }
    push_word(&mut r, "Self");
    assert(toks_v(r@) =~= implicit_self_ty(*reference, m));
    r
}

fn parse_receiver(toks: &Vec<TokenTree>, pos: usize) -> (r: Result<
    (Receiver, usize, usize),
    SyntaxError,
>)
    requires
        pos <= toks@.len(),
    ensures
        match receiver_spec(view_of(toks), pos as int) {
            Ok((e, o, at)) => r is Ok && r->Ok_0.1 == e && r->Ok_0.2 == at && pos < e
                <= toks@.len() && receiver_print(r->Ok_0.0) == o && r->Ok_0.0.attrs@.len() == 0,
            Err(x) => r == Err::<(Receiver, usize, usize), SyntaxError>(x),
        },
        r is Ok ==> receiver_parsed(r->Ok_0.0, view_of(toks), pos as int),
{
    proof {
        lemma_toks_v(toks@);
        reveal(receiver_spec);
    }
    let ghost s = view_of(toks);
    let n = toks.len();
    let amp = is_punct(toks, pos, '&');
    let q = if amp {
        match syn_end(toks, pos + 1, Grammar::Lifetime) {
            Some(q) => q,
            None => {
                return Err(SyntaxError { at: pos + 1, kind: ErrorKind::Invalid(Grammar::Lifetime) });
            },
        }
    } else {
        pos
    };
    let m = is_word_at(toks, q, "mut");
    let q2 = if m {
        q + 1
    } else {
        q
    };
    if !is_word_at(toks, q2, "self") {
        return Err(SyntaxError { at: q2, kind: ErrorKind::ExpectedSelf });
    }
    let attrs: Vec<TokenTree> = Vec::new();
    assert(toks_v(attrs@) =~= Seq::<Tok>::empty()) by {
        lemma_toks_v(attrs@);
    }
    if !amp && is_punct(toks, q2 + 1, ':') {
        let sp = spacing(toks, q2 + 1);
        match syn_end(toks, q2 + 2, Grammar::Type) {
            Some(e) => {
                let ty = copy_run(toks, q2 + 2, e);
                let rc = Receiver {
                    attrs,
                    reference: None,
                    mutability: m,
                    colon_token: Some(sp),
                    ty,
                };
                assert(receiver_print(rc) =~= word_if(m, "mut"@) + word("self"@) + punct(':', sp)
                    + s.subrange(q2 + 2, e as int));
                Ok((rc, e, q2))
            },
            None => Err(SyntaxError { at: q2 + 2, kind: ErrorKind::Invalid(Grammar::Type) }),
        }
    } else {
        let reference = if amp {
            Some((spacing(toks, pos), copy_run(toks, pos + 1, q)))
        } else {
            None
        };
        let ty = build_self_ty(&reference, m);
        let rc = Receiver { attrs, reference, mutability: m, colon_token: None, ty };
        assert(receiver_print(rc) =~= if amp {
            punct('&', spacing_at(s, pos as int)) + s.subrange(pos + 1, q as int)
        } else {
            Seq::empty()
        } + word_if(m, "mut"@) + word("self"@));
        Ok((rc, q2 + 1, q2))
    }
}

enum FnArgOrVariadic {
    FnArg(FnArg),
    Variadic(Variadic),
}

spec fn arg_or_variadic_print(x: FnArgOrVariadic) -> Seq<Tok> {
    match x {
        FnArgOrVariadic::FnArg(a) => arg_print(a),
        FnArgOrVariadic::Variadic(v) => variadic_print(v),
    }
}

spec fn is_receiver(x: FnArgOrVariadic) -> bool {
    x is FnArg && x->FnArg_0 is Receiver
}

fn parse_arg(toks: &Vec<TokenTree>, pos: usize, attrs: Vec<TokenTree>) -> (r: Result<
    (FnArgOrVariadic, usize, usize),
    SyntaxError,
>)
    requires
        pos <= toks@.len(),
    ensures
        arg_res(r, arg_spec(view_of(toks), pos as int), toks_v(attrs@), view_of(toks), pos as int, toks@.len() as int),
        r is Ok && r->Ok_0.0 is FnArg ==> arg_parsed(r->Ok_0.0->FnArg_0, view_of(toks), pos as int),
        r is Ok && r->Ok_0.0 is Variadic ==> variadic_pat_parsed(r->Ok_0.0->Variadic_0, view_of(toks), pos as int),
{
    proof {
        lemma_toks_v(toks@);
        reveal(arg_spec);
    }
    let ghost s = view_of(toks);
    let n = toks.len();
    match parse_receiver(toks, pos) {
        Ok((rc, e, at)) => if !is_punct(toks, e, ':') {
            let ghost ro = receiver_print(rc);
            assert(toks_v(rc.attrs@) =~= Seq::<Tok>::empty()) by {
                lemma_toks_v(rc.attrs@);
            }
            let rc = Receiver {
                attrs,
                reference: rc.reference,
                mutability: rc.mutability,
                colon_token: rc.colon_token,
                ty: rc.ty,
            };
            assert(receiver_print(rc) =~= toks_v(attrs@) + ro);
            return Ok((FnArgOrVariadic::FnArg(FnArg::Receiver(rc)), e, at));
        },
        Err(_) => {},
    }
    if is_plain_ident(toks, pos) && is_punct(toks, pos + 1, '<') {
        parse_bare_type(toks, pos, attrs)
    } else {
        parse_typed_arg(toks, pos, attrs)
    }
}

spec fn arg_res(
    r: Result<(FnArgOrVariadic, usize, usize), SyntaxError>,
    sp: Result<ArgParse, SyntaxError>,
    attrs: Seq<Tok>,
    s: Seq<Tok>,
    pos: int,
    n: int,
) -> bool {
    match sp {
        Ok(g) => r is Ok && r->Ok_0.1 == g.end && pos <= g.end <= n && arg_or_variadic_print(r->Ok_0.0)
            == attrs + g.out && (r->Ok_0.0 is Variadic <==> g.kind == ArgKind::Variadic) && (
        is_receiver(r->Ok_0.0) <==> g.kind == ArgKind::Receiver) && r->Ok_0.2 == g.self_at && (
        r->Ok_0.0 is Variadic ==> r->Ok_0.0->Variadic_0.comma is None && pos + 3 <= g.end) && (
        r->Ok_0.0 is FnArg ==> toks_v(arg_attrs(r->Ok_0.0->FnArg_0)) == attrs) && (r->Ok_0.0 is Variadic
            ==> toks_v(r->Ok_0.0->Variadic_0.attrs@) == attrs),
        Err(x) => r == Err::<(FnArgOrVariadic, usize, usize), SyntaxError>(x),
    }
}

fn parse_bare_type(toks: &Vec<TokenTree>, pos: usize, attrs: Vec<TokenTree>) -> (r: Result<
    (FnArgOrVariadic, usize, usize),
    SyntaxError,
>)
    requires
        pos < toks@.len(),
    ensures
        arg_res(r, bare_type_spec(view_of(toks), pos as int), toks_v(attrs@), view_of(toks), pos as int, toks@.len() as int),
        r is Ok ==> r->Ok_0.0 is FnArg && r->Ok_0.0->FnArg_0 is Typed && {
            let t = r->Ok_0.0->FnArg_0->Typed_0;
            *t.pat is Wild && (*t.pat)->Wild_0.attrs@.len() == 0 && t.colon_token == Spacing::Alone
                && toks_v(t.ty@) == view_of(toks).subrange(pos as int, r->Ok_0.1 as int)
        },
{
    proof {
        lemma_toks_v(toks@);
        reveal(bare_type_spec);
    }
    let n = toks.len();
    let ghost s = view_of(toks);
    match syn_end(toks, pos, Grammar::Type) {
        Some(e) => {
            let ty = copy_run(toks, pos, e);
            let empty: Vec<TokenTree> = Vec::new();
            assert(toks_v(empty@) =~= Seq::<Tok>::empty()) by {
                lemma_toks_v(empty@);
            }
            let wild = Pat::Wild(PatWild { attrs: empty });
            assert(pat_print(wild) =~= word("_"@));
            let ghost at = toks_v(attrs@);
            let t = PatType { attrs, pat: Box::new(wild), colon_token: Spacing::Alone, ty };
            assert(pat_print(Pat::Type(t)) =~= at + (word("_"@) + punct(':', Spacing::Alone)
                + s.subrange(pos as int, e as int)));
            Ok((FnArgOrVariadic::FnArg(FnArg::Typed(t)), e, 0))
        },
        None => Err(SyntaxError { at: pos, kind: ErrorKind::Invalid(Grammar::Type) }),
    }
}

fn parse_typed_arg(toks: &Vec<TokenTree>, pos: usize, attrs: Vec<TokenTree>) -> (r: Result<
    (FnArgOrVariadic, usize, usize),
    SyntaxError,
>)
    requires
        pos <= toks@.len(),
    ensures
        arg_res(r, typed_arg_spec(view_of(toks), pos as int), toks_v(attrs@), view_of(toks), pos as int, toks@.len() as int),
        r is Ok && r->Ok_0.0 is Variadic ==> variadic_pat_parsed(r->Ok_0.0->Variadic_0, view_of(toks), pos as int),
        r is Ok && r->Ok_0.0 is FnArg ==> r->Ok_0.0->FnArg_0 is Typed && pat_spec(view_of(toks), pos as int) is Ok && {
            let t = r->Ok_0.0->FnArg_0->Typed_0;
            let e = pat_spec(view_of(toks), pos as int)->Ok_0.0;
            pat_parsed(*t.pat, view_of(toks), pos as int) && pat_print(*t.pat) == pat_spec(view_of(toks), pos as int)->Ok_0.1
                && t.colon_token == spacing_at(view_of(toks), e) && toks_v(t.ty@) == view_of(toks).subrange(e + 1, r->Ok_0.1 as int)
        },
{
    proof {
        lemma_toks_v(toks@);
        reveal(typed_arg_spec);
    }
    let ghost s = view_of(toks);
    let n = toks.len();
    let (p, e) = match Pat::parse_single(toks, pos) {
        Ok(x) => x,
        Err(x) => {
            return Err(x);
        },
    };
    if !is_punct(toks, e, ':') {
        return Err(SyntaxError { at: e, kind: ErrorKind::ExpectedPunct(':') });
    }
    let sp = spacing(toks, e);
    let ghost at = toks_v(attrs@);
    if is_dot3(toks, e + 1) {
        let dots = spacing(toks, e + 3);
        let v = Variadic { attrs, pat: Some((Box::new(p), sp)), dots, comma: None };
        assert(variadic_print(v) =~= at + (pat_print(p) + punct(':', sp) + symbol('.', 3, dots)));
        return Ok((FnArgOrVariadic::Variadic(v), e + 4, 0));
    }
    match syn_end(toks, e + 1, Grammar::Type) {
        Some(t) => {
            let ty = copy_run(toks, e + 1, t);
            let pt = PatType { attrs, pat: Box::new(p), colon_token: sp, ty };
            assert(pat_print(Pat::Type(pt)) =~= at + (pat_print(p) + punct(':', sp) + s.subrange(
                e + 1,
                t as int,
            )));
            Ok((FnArgOrVariadic::FnArg(FnArg::Typed(pt)), t, 0))
        },
        None => Err(SyntaxError { at: e + 1, kind: ErrorKind::Invalid(Grammar::Type) }),
    }
}

pub open spec fn variadic_part(o: Option<Variadic>) -> Seq<Tok> {
    match o {
        Some(v) => variadic_print(v),
        None => Seq::empty(),
    }
}

fn finish_variadic(c: &Vec<TokenTree>, e: usize, v: Variadic) -> (r: Result<Variadic, SyntaxError>)
    requires
        e <= c@.len(),
        v.comma is None,
    ensures
        match variadic_tail(view_of(c), e as int, variadic_print(v)) {
            Ok(o) => r is Ok && variadic_print(r->Ok_0) == o,
            Err(x) => r == Err::<Variadic, SyntaxError>(x),
        },
        r is Ok ==> comma_parsed(r->Ok_0.comma, view_of(c), e as int) && r->Ok_0.attrs == v.attrs
            && r->Ok_0.pat == v.pat && r->Ok_0.dots == v.dots,
{
    proof {
        lemma_toks_v(c@);
    }
    let n = c.len();
    if e >= n {
        return Ok(v);
    }
    if !is_punct(c, e, ',') {
        return Err(SyntaxError { at: e, kind: ErrorKind::ExpectedPunct(',') });
    }
    if e + 1 < n {
        return Err(SyntaxError { at: e + 1, kind: ErrorKind::UnexpectedToken });
    }
    let sp = spacing(c, e);
    let w = Variadic { attrs: v.attrs, pat: v.pat, dots: v.dots, comma: Some(sp) };
    assert(variadic_print(w) =~= variadic_print(v) + punct(',', sp));
    Ok(w)
}

pub open spec fn args_res(
    r: Result<(Vec<(FnArg, Option<Spacing>)>, Option<Variadic>), SyntaxError>,
    sp: Result<Seq<Tok>, SyntaxError>,
) -> bool {
    match sp {
        Ok(o) => r is Ok && args_print(r->Ok_0.0@) + variadic_part(r->Ok_0.1) == o && (
        r->Ok_0.1 is Some ==> empty_or_trailing(r->Ok_0.0@)),
        Err(x) => r == Err::<(Vec<(FnArg, Option<Spacing>)>, Option<Variadic>), SyntaxError>(x),
    }
}

proof fn lemma_args_cons(v: Seq<(FnArg, Option<Spacing>)>, a: FnArg, sp: Spacing)
    ensures
        args_print(v.insert(0, (a, Some(sp)))) == arg_print(a) + punct(',', sp) + args_print(v),
        empty_or_trailing(v) ==> empty_or_trailing(v.insert(0, (a, Some(sp)))),
{
    let w = v.insert(0, (a, Some(sp)));
    assert(w.subrange(1, w.len() as int) =~= v);
    if v.len() > 0 {
        assert(w.last() == v.last());
    }
}

proof fn lemma_args_one(v: Seq<(FnArg, Option<Spacing>)>)
    requires
        v.len() == 1,
        v[0].1 is None,
    ensures
        args_print(v) == arg_print(v[0].0),
{
    assert(v.subrange(1, 1) =~= Seq::<(FnArg, Option<Spacing>)>::empty());
    assert(args_print(v.subrange(1, 1)) =~= Seq::<Tok>::empty());
    assert(args_print(v) =~= arg_print(v[0].0));
}

#[verifier::rlimit(60)]
fn parse_args(c: &Vec<TokenTree>, q: usize, first: bool, has_receiver: bool) -> (r: Result<
    (Vec<(FnArg, Option<Spacing>)>, Option<Variadic>),
    SyntaxError,
>)
    requires
        q <= c@.len(),
    ensures
        args_res(r, args_spec(view_of(c), q as int, first, has_receiver)),
        r is Ok ==> typed_from(r->Ok_0.0@, if first {
            1
        } else {
            0
        }),
        r is Ok ==> args_parsed(r->Ok_0.0@, r->Ok_0.1, view_of(c), q as int),
    decreases c@.len() - q,
{
    proof {
        lemma_toks_v(c@);
    }
    let ghost s = view_of(c);
    let n = c.len();
    let empty: Vec<(FnArg, Option<Spacing>)> = Vec::new();
    assert(args_print(empty@) =~= Seq::<Tok>::empty());
    if q >= n {
        assert(variadic_part(None) =~= Seq::<Tok>::empty());
        return Ok((empty, None));
    }
    let a = match syn_end(c, q, Grammar::Attributes) {
        Some(a) => a,
        None => {
            return Err(SyntaxError { at: q, kind: ErrorKind::Invalid(Grammar::Attributes) });
        },
    };
    let attrs = copy_run(c, q, a);
    if is_dot3(c, a) {
        let v = Variadic { attrs, pat: None, dots: spacing(c, a + 2), comma: None };
        assert(variadic_print(v) =~= s.subrange(q as int, a as int) + symbol(
            '.',
            3,
            spacing_at(s, a + 2),
        ));
        return match finish_variadic(c, a + 3, v) {
            Ok(v) => Ok((empty, Some(v))),
            Err(x) => Err(x),
        };
    }
    let (arg, e, self_at) = match parse_arg(c, a, attrs) {
        Ok(x) => x,
        Err(x) => {
            return Err(x);
        },
    };
    let is_recv = match &arg {
        FnArgOrVariadic::FnArg(FnArg::Receiver(_)) => true,
        _ => false,
    };
    let arg = match arg {
        FnArgOrVariadic::Variadic(v) => {
            return match finish_variadic(c, e, v) {
                Ok(v) => Ok((empty, Some(v))),
                Err(x) => Err(x),
            };
        },
        FnArgOrVariadic::FnArg(arg) => arg,
    };
    if is_recv && has_receiver {
        return Err(SyntaxError { at: self_at, kind: ErrorKind::UnexpectedSecondReceiver });
    }
    if is_recv && !first {
        return Err(SyntaxError { at: self_at, kind: ErrorKind::UnexpectedReceiver });
    }
    assert(variadic_part(None) =~= Seq::<Tok>::empty());
    if e >= n {
        let mut v: Vec<(FnArg, Option<Spacing>)> = Vec::new();
        v.push((arg, None));
        proof {
            lemma_args_one(v@);
            assert(v@[0].0 == arg);
            assert(args_parsed(v@, None, s, q as int));
        }
        return Ok((v, None));
    }
    if !is_punct(c, e, ',') {
        return Err(SyntaxError { at: e, kind: ErrorKind::ExpectedPunct(',') });
    }
    let sp = spacing(c, e);
    let (mut args, variadic) = match parse_args(c, e + 1, false, has_receiver || is_recv) {
        Ok(x) => x,
        Err(x) => {
            return Err(x);
        },
    };
    let ghost old_args = args@;
    let ghost ao = arg_print(arg);
    args.insert(0, (arg, Some(sp)));
    proof {
        assert(!first ==> arg is Typed);
        assert forall|i: int| (if first {
            1int
        } else {
            0
        }) <= i < args@.len() implies #[trigger] args@[i].0 is Typed by {
            if i > 0 {
                assert(args@[i] == old_args[i - 1]);
            }
        }
        lemma_args_cons(old_args, arg, sp);
        lemma_args_parsed_cons(old_args, variadic, arg, sp, s, q as int, a as int);
        assert(args_print(args@) + variadic_part(variadic) =~= ao + punct(',', sp) + (args_print(
            old_args,
        ) + variadic_part(variadic)));
    }
    Ok((args, variadic))
}

impl Block {
    /// Parses the braced block at `pos`, keeping its contents as they are.
    pub fn parse(toks: &Vec<TokenTree>, pos: usize) -> (r: Result<(Block, usize), SyntaxError>)
        ensures
            group_at(view_of(toks), pos as int, Delimiter::Brace) ==> r is Ok && r->Ok_0.1 == pos + 1
                && toks_v(r->Ok_0.0.stmts@) == inner(view_of(toks), pos as int),
            !group_at(view_of(toks), pos as int, Delimiter::Brace) ==> r == Err::<
                (Block, usize),
                SyntaxError,
            >(SyntaxError { at: pos, kind: ErrorKind::ExpectedGroup(Delimiter::Brace) }),
    {
        proof {
            lemma_toks_v(toks@);
        }
        let n = toks.len();
        if !is_group(toks, pos, Delimiter::Brace) {
            return Err(SyntaxError { at: pos, kind: ErrorKind::ExpectedGroup(Delimiter::Brace) });
        }
        let body = group_contents(toks, pos);
        let stmts = copy_run(body, 0, body.len());
        proof {
            lemma_toks_v(body@);
            assert(toks_v(body@).subrange(0, body@.len() as int) =~= toks_v(body@));
        }
        Ok((Block { stmts }, pos + 1))
    }
}

impl Receiver {
    /// Parses the receiver at `pos` (no attributes): `self`, `mut self`,
    /// `&'a mut self` or `self: Type`. Returns it and where it ends.
    pub fn parse(toks: &Vec<TokenTree>, pos: usize) -> (r: Result<(Receiver, usize), SyntaxError>)
        requires
            pos <= toks@.len(),
        ensures
            match receiver_spec(view_of(toks), pos as int) {
                Ok((e, o, _)) => r is Ok && r->Ok_0.1 == e && receiver_print(r->Ok_0.0) == o
                    && r->Ok_0.0.attrs@.len() == 0 && receiver_parsed(
                    r->Ok_0.0,
                    view_of(toks),
                    pos as int,
                ),
                Err(x) => r == Err::<(Receiver, usize), SyntaxError>(x),
            },
    {
        match parse_receiver(toks, pos) {
            Ok((rc, e, _)) => Ok((rc, e)),
            Err(x) => Err(x),
        }
    }
}

impl FnArg {
    /// Parses the argument that starts at `pos`, with its attributes.
    /// Returns it and where it ends.
    pub fn parse(toks: &Vec<TokenTree>, pos: usize) -> (r: Result<(FnArg, usize), SyntaxError>)
        requires
            pos <= toks@.len(),
        ensures
            match fn_arg_spec(view_of(toks), pos as int) {
                Ok((e, o)) => r is Ok && r->Ok_0.1 == e && arg_print(r->Ok_0.0) == o,
                Err(x) => r == Err::<(FnArg, usize), SyntaxError>(x),
            },
            r is Ok ==> syn_end_spec(Grammar::Attributes, view_of(toks), pos as int) is Some && {
                let a = syn_end_spec(Grammar::Attributes, view_of(toks), pos as int)->Some_0;
                toks_v(arg_attrs(r->Ok_0.0)) == view_of(toks).subrange(pos as int, a) && arg_parsed(
                    r->Ok_0.0,
                    view_of(toks),
                    a,
                )
            },
    {
        proof {
            lemma_toks_v(toks@);
        }
        let n = toks.len();
        let a = match syn_end(toks, pos, Grammar::Attributes) {
            Some(a) => a,
            None => {
                return Err(SyntaxError { at: pos, kind: ErrorKind::Invalid(Grammar::Attributes) });
            },
        };
        let attrs = copy_run(toks, pos, a);
        match parse_arg(toks, a, attrs) {
            Ok((FnArgOrVariadic::FnArg(arg), e, _)) => Ok((arg, e)),
            Ok((FnArgOrVariadic::Variadic(_), e, _)) => Err(
                SyntaxError { at: e - 3, kind: ErrorKind::Invalid(Grammar::Type) },
            ),
            Err(x) => Err(x),
        }
    }
}

impl Signature {
    /// Parses the signature that starts at `pos`. Returns it and where it
    /// ends.
    #[verifier::rlimit(100)]
    pub fn parse(toks: &Vec<TokenTree>, pos: usize) -> (r: Result<(Signature, usize), SyntaxError>)
        requires
            pos <= toks@.len(),
        ensures
            match sig_spec(view_of(toks), pos as int) {
                Ok((e, o)) => r is Ok && r->Ok_0.1 == e && pos < e <= toks@.len() && sig_print(
                    r->Ok_0.0,
                ) == o,
                Err(x) => r == Err::<(Signature, usize), SyntaxError>(x),
            },
            r is Ok ==> sig_wf(r->Ok_0.0),
            r is Ok ==> sig_parsed(r->Ok_0.0, view_of(toks), pos as int),
    {
        proof {
            lemma_toks_v(toks@);
            reveal(sig_spec);
        }
        let ghost s = view_of(toks);
        let n = toks.len();
        let constness = is_word_at(toks, pos, "const");
        let q1 = if constness {
            pos + 1
        } else {
            pos
        };
        let asyncness = is_word_at(toks, q1, "async");
        let q2 = if asyncness {
            q1 + 1
        } else {
            q1
        };
        let unsafety = is_word_at(toks, q2, "unsafe");
        let q3 = if unsafety {
            q2 + 1
        } else {
            q2
        };
        let q4 = match syn_end(toks, q3, Grammar::Abi) {
            Some(x) => x,
            None => {
                return Err(SyntaxError { at: q3, kind: ErrorKind::Invalid(Grammar::Abi) });
            },
        };
        if !is_word_at(toks, q4, "fn") {
            return Err(SyntaxError { at: q4, kind: ErrorKind::ExpectedFn });
        }
        if !is_plain_ident(toks, q4 + 1) {
            return Err(SyntaxError { at: q4 + 1, kind: ErrorKind::ExpectedIdent });
        }
        let ident = match &toks[q4 + 1] {
            TokenTree::Ident(x) => x.clone(),
            _ => {
                assert(false);
                return Err(SyntaxError { at: q4 + 1, kind: ErrorKind::ExpectedIdent });
            },
        };
        let g = match syn_end(toks, q4 + 2, Grammar::Generics) {
            Some(x) => x,
            None => {
                return Err(SyntaxError { at: q4 + 2, kind: ErrorKind::Invalid(Grammar::Generics) });
            },
        };
        let (inputs, variadic, o, w) = match parse_sig_tail(toks, g) {
            Ok(x) => x,
            Err(x) => {
                return Err(x);
            },
        };
        let sig = Signature {
            constness,
            asyncness,
            unsafety,
            abi: copy_run(toks, q3, q4),
            ident,
            generics: copy_run(toks, q4 + 2, g),
            inputs,
            variadic,
            output: copy_run(toks, g + 1, o),
            where_clause: copy_run(toks, o, w),
        };
        assert(inputs_print(sig) =~= args_print(sig.inputs@) + variadic_part(sig.variadic));
        assert(s.subrange(g + 1, w as int) =~= s.subrange(g + 1, o as int) + s.subrange(
            o as int,
            w as int,
        ));
        assert(sig_print(sig) =~= word_if(constness, "const"@) + word_if(asyncness, "async"@)
            + word_if(unsafety, "unsafe"@) + s.subrange(q3 as int, q4 as int) + word("fn"@) + seq![
            s[q4 + 1],
        ] + s.subrange(q4 + 2, g as int) + (seq![
            Tok::Group(Delimiter::Parenthesis, inputs_print(sig)),
        ] + s.subrange(g + 1, w as int)));
        Ok((sig, w))
    }
}

fn parse_sig_tail(toks: &Vec<TokenTree>, g: usize) -> (r: Result<
    (Vec<(FnArg, Option<Spacing>)>, Option<Variadic>, usize, usize),
    SyntaxError,
>)
    requires
        g <= toks@.len(),
    ensures
        match sig_tail_spec(view_of(toks), g as int) {
            Ok((w, t)) => r is Ok && r->Ok_0.3 == w && g < r->Ok_0.2 <= w <= toks@.len() && t
                == seq![
                Tok::Group(
                    Delimiter::Parenthesis,
                    args_print(r->Ok_0.0@) + variadic_part(r->Ok_0.1),
                ),
            ] + view_of(toks).subrange(g + 1, w) && (r->Ok_0.1 is Some ==> empty_or_trailing(
                r->Ok_0.0@,
            )),
            Err(x) => r == Err::<
                (Vec<(FnArg, Option<Spacing>)>, Option<Variadic>, usize, usize),
                SyntaxError,
            >(x),
        },
        r is Ok ==> typed_from(r->Ok_0.0@, 1),
        r is Ok ==> args_parsed(r->Ok_0.0@, r->Ok_0.1, inner(view_of(toks), g as int), 0)
            && syn_end_spec(Grammar::ReturnType, view_of(toks), g + 1) == Some(r->Ok_0.2 as int)
            && syn_end_spec(Grammar::WhereClause, view_of(toks), r->Ok_0.2 as int) == Some(
            r->Ok_0.3 as int,
        ),
{
    proof {
        lemma_toks_v(toks@);
        reveal(sig_tail_spec);
    }
    let n = toks.len();
    if !is_group(toks, g, Delimiter::Parenthesis) {
        return Err(SyntaxError { at: g, kind: ErrorKind::ExpectedGroup(Delimiter::Parenthesis) });
    }
    let c = group_contents(toks, g);
    let (inputs, variadic) = match parse_args(c, 0, true, false) {
        Ok(x) => x,
        Err(x) => {
            return Err(x);
        },
    };
    let o = match syn_end(toks, g + 1, Grammar::ReturnType) {
        Some(x) => x,
        None => {
            return Err(SyntaxError { at: g + 1, kind: ErrorKind::Invalid(Grammar::ReturnType) });
        },
    };
    let w = match syn_end(toks, o, Grammar::WhereClause) {
        Some(x) => x,
        None => {
            return Err(SyntaxError { at: o, kind: ErrorKind::Invalid(Grammar::WhereClause) });
        },
    };
    Ok((inputs, variadic, o, w))
}

impl ItemFn {
    /// Parses a whole function item: outer attributes, visibility,
    /// signature, and a braced body that is kept unparsed and must end the
    /// input.
    pub fn parse(toks: &Vec<TokenTree>) -> (r: Result<ItemFn, SyntaxError>)
        ensures
            match item_spec(view_of(toks)) {
                Ok(o) => r is Ok && item_print(r->Ok_0) == o,
                Err(x) => r == Err::<ItemFn, SyntaxError>(x),
            },
            r is Ok ==> toks@.len() > 0 && toks_v(r->Ok_0.block.stmts@) == inner(
                view_of(toks),
                toks@.len() - 1,
            ),
            r is Ok ==> sig_wf(r->Ok_0.sig),
            r is Ok ==> item_parsed(r->Ok_0, view_of(toks)),
    {
        proof {
            lemma_toks_v(toks@);
        }
        let ghost s = view_of(toks);
        let n = toks.len();
        let a = match syn_end(toks, 0, Grammar::Attributes) {
            Some(x) => x,
            None => {
                return Err(SyntaxError { at: 0, kind: ErrorKind::Invalid(Grammar::Attributes) });
            },
        };
        let v = match syn_end(toks, a, Grammar::Visibility) {
            Some(x) => x,
            None => {
                return Err(SyntaxError { at: a, kind: ErrorKind::Invalid(Grammar::Visibility) });
            },
        };
        let (sig, e) = match Signature::parse(toks, v) {
            Ok(x) => x,
            Err(x) => {
                return Err(x);
            },
        };
        if !is_group(toks, e, Delimiter::Brace) {
            return Err(SyntaxError { at: e, kind: ErrorKind::ExpectedGroup(Delimiter::Brace) });
        }
        if e + 1 < n {
            return Err(SyntaxError { at: e + 1, kind: ErrorKind::UnexpectedToken });
        }
        let body = group_contents(toks, e);
        let stmts = copy_run(body, 0, body.len());
        proof {
            lemma_toks_v(body@);
            assert(toks_v(body@).subrange(0, body@.len() as int) =~= toks_v(body@));
        }
        let item = ItemFn {
            attrs: copy_run(toks, 0, a),
            vis: copy_run(toks, a, v),
            sig,
            block: Box::new(Block { stmts }),
        };
        assert(block_print(*item.block) =~= seq![s[e as int]]);
        assert(s.subrange(0, v as int) =~= s.subrange(0, a as int) + s.subrange(a as int, v as int));
        assert(item_print(item) =~= s.subrange(0, v as int) + sig_print(sig) + seq![s[e as int]]);
        Ok(item)
    }
}

// ----- printing, executable -----

fn empty_tokens() -> (r: Vec<TokenTree>)
    ensures
        toks_v(r@) == Seq::<Tok>::empty(),
{
    let r: Vec<TokenTree> = Vec::new();
    assert(toks_v(r@) =~= Seq::<Tok>::empty()) by {
        lemma_toks_v(r@);
    }
    r
}

impl Block {
    /// Appends the braces and the tokens between them.
    pub fn to_tokens(&self, out: &mut Vec<TokenTree>)
        ensures
            toks_v(final(out)@) == toks_v(old(out)@) + block_print(*self),
    {
        let mut g = empty_tokens();
        append_copy(&mut g, &self.stmts);
        push_tree(out, TokenTree::Group(Delimiter::Brace, g));
    }
}

impl Receiver {
    /// Appends the tokens of the receiver; its type is written out only
    /// after a colon, or where the short form does not stand for it.
    #[verifier::rlimit(100)]
    pub fn to_tokens(&self, out: &mut Vec<TokenTree>)
        ensures
            toks_v(final(out)@) == toks_v(old(out)@) + receiver_print(*self),
    {
        let ghost o0 = toks_v(out@);
        append_copy(out, &self.attrs);
        if let Some((sp, lt)) = &self.reference {
            push_punct(out, '&', *sp);
            append_copy(out, lt);
        }
        push_word_if(out, self.mutability, "mut");
        push_word(out, "self");
        let ghost o1 = toks_v(out@);
        assert(o1 =~= o0 + receiver_head(*self));
        match self.colon_token {
            Some(sp) => {
                push_punct(out, ':', sp);
                append_copy(out, &self.ty);
            },
            None => {
                let implicit = build_self_ty(&self.reference, self.mutability);
                if !tokens_eq(&self.ty, &implicit) {
                    push_punct(out, ':', Spacing::Alone);
                    append_copy(out, &self.ty);
                } else {
                    assert(toks_v(out@) =~= o1 + Seq::<Tok>::empty());
                }
            },
        }
        assert(toks_v(out@) =~= o1 + receiver_ty(*self));
        assert(toks_v(out@) =~= o0 + receiver_print(*self));
    }
}

impl Variadic {
    /// Appends the tokens of the variadic argument.
    pub fn to_tokens(&self, out: &mut Vec<TokenTree>)
        ensures
            toks_v(final(out)@) == toks_v(old(out)@) + variadic_print(*self),
    {
        let ghost o0 = toks_v(out@);
        append_copy(out, &self.attrs);
        if let Some((p, sp)) = &self.pat {
            p.to_tokens(out);
            push_punct(out, ':', *sp);
        }
        push_symbol(out, '.', 3, self.dots);
        push_comma(out, self.comma);
        assert(toks_v(out@) =~= o0 + variadic_print(*self));
    }
}

impl FnArg {
    /// Appends the tokens of the argument.
    pub fn to_tokens(&self, out: &mut Vec<TokenTree>)
        ensures
            toks_v(final(out)@) == toks_v(old(out)@) + arg_print(*self),
    {
        let ghost o0 = toks_v(out@);
        match self {
            FnArg::Receiver(r) => r.to_tokens(out),
            FnArg::Typed(t) => {
                append_copy(out, &t.attrs);
                t.pat.to_tokens(out);
                push_punct(out, ':', t.colon_token);
                append_copy(out, &t.ty);
                assert(toks_v(out@) =~= o0 + arg_print(*self));
            },
        }
    }
}

fn args_to_tokens(v: &Vec<(FnArg, Option<Spacing>)>, i: usize, out: &mut Vec<TokenTree>)
    requires
        i <= v@.len(),
    ensures
        toks_v(final(out)@) == toks_v(old(out)@) + args_print(v@.subrange(i as int, v@.len() as int)),
    decreases v@.len() - i,
{
    let ghost t = v@.subrange(i as int, v@.len() as int);
    if i == v.len() {
        assert(toks_v(out@) =~= toks_v(out@) + args_print(t));
        return;
    }
    v[i].0.to_tokens(out);
    push_sep(out, v[i].1, i + 1 < v.len());
    args_to_tokens(v, i + 1, out);
    assert(t.subrange(1, t.len() as int) =~= v@.subrange(i + 1, v@.len() as int));
    assert(toks_v(out@) =~= toks_v(old(out)@) + args_print(t));
}

impl Signature {
    /// The tokens inside the parentheses, with a comma before the variadic
    /// argument where the arguments do not end with one.
    #[verifier::rlimit(100)]
    fn inputs_tokens(&self) -> (g: Vec<TokenTree>)
        ensures
            toks_v(g@) == inputs_print(*self),
    {
        let mut g = empty_tokens();
        args_to_tokens(&self.inputs, 0, &mut g);
        assert(self.inputs@.subrange(0, self.inputs@.len() as int) =~= self.inputs@);
        let ghost g0 = toks_v(g@);
        if let Some(v) = &self.variadic {
            let n = self.inputs.len();
            if !(n == 0 || self.inputs[n - 1].1.is_some()) {
                push_punct(&mut g, ',', Spacing::Alone);
            }
            v.to_tokens(&mut g);
        }
        assert(toks_v(g@) =~= inputs_print(*self));
        g
    }

    /// Appends the tokens of the signature.
    #[verifier::rlimit(100)]
    pub fn to_tokens(&self, out: &mut Vec<TokenTree>)
        ensures
            toks_v(final(out)@) == toks_v(old(out)@) + sig_print(*self),
    {
        let ghost o0 = toks_v(out@);
        push_word_if(out, self.constness, "const");
        push_word_if(out, self.asyncness, "async");
        push_word_if(out, self.unsafety, "unsafe");
        append_copy(out, &self.abi);
        push_word(out, "fn");
        push_tree(out, TokenTree::Ident(self.ident.clone()));
        append_copy(out, &self.generics);
        let g = self.inputs_tokens();
        push_tree(out, TokenTree::Group(Delimiter::Parenthesis, g));
        append_copy(out, &self.output);
        append_copy(out, &self.where_clause);
        assert(toks_v(out@) =~= o0 + sig_print(*self));
    }
}

impl ItemFn {
    /// Appends the tokens of the function item.
    pub fn to_tokens(&self, out: &mut Vec<TokenTree>)
        ensures
            toks_v(final(out)@) == toks_v(old(out)@) + item_print(*self),
    {
        let ghost o0 = toks_v(out@);
        append_copy(out, &self.attrs);
        append_copy(out, &self.vis);
        self.sig.to_tokens(out);
        self.block.to_tokens(out);
        assert(toks_v(out@) =~= o0 + item_print(*self));
    }

    /// The tokens of the function item.
    pub fn to_token_vec(&self) -> (r: Vec<TokenTree>)
        ensures
            toks_v(r@) == item_print(*self),
    {
        let mut out = empty_tokens();
        self.to_tokens(&mut out);
        assert(toks_v(out@) =~= item_print(*self));
        out
    }
}

} // verus!
