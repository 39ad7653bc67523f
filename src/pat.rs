//! Patterns: `_`, `ref mut x`, `&p`, `Path`, `Path { a, b: p, .. }`,
//! `Path(p, q)` and `(p, q)`, with their tokens.

use vstd::prelude::*;
use crate::cursor::{
    dot2_at, err, group_at, group_contents, ident_at, inner, is_dot2, is_group, is_ident,
    is_plain_ident, is_punct, is_word_at, plain_ident_at, punct, punct_at, push_punct, push_word,
    spacing, spacing_at, symbol, syn_end, syn_end_spec, view_of, word, word_at, word_if, colon2_at,
    is_colon2, push_symbol, ErrorKind, Grammar, SyntaxError,
};
use crate::path::{
    path_parsed,
    parse_path, path_end, path_print, path_to_tokens, Path,
};
use crate::syntax::{
    accepts_index, index_accepted,
};
use crate::token::{
    append_copy, copy_run, lemma_toks_v, lemma_toks_v_push, tok_v, toks_v, Delimiter, Spacing, Tok,
    TokenTree,
};

verus! {

/// A pattern.
pub enum Pat {
    /// A binding: `ref mut name`.
    Ident(PatIdent),
    /// A path: `Color::Red`.
    Path(PatPath),
    /// A reference pattern: `&mut p`.
    Reference(PatReference),
    /// A struct pattern: `Point { x, y: p, .. }`.
    Struct(PatStruct),
    /// A tuple pattern: `(a, b)`.
    Tuple(PatTuple),
    /// A tuple struct pattern: `Some(p)`.
    TupleStruct(PatTupleStruct),
    /// The rest of a tuple or tuple struct: the `..` in `(a, .., z)`.
    Rest(PatRest),
    /// A pattern with a type ascribed: `n: usize`.
    Type(PatType),
    /// The wildcard `_`.
    Wild(PatWild),
}

pub struct PatIdent {
    pub attrs: Vec<TokenTree>,
    pub by_ref: bool,
    pub mutability: bool,
    pub ident: String,
}

pub struct PatPath {
    pub attrs: Vec<TokenTree>,
    pub path: Path,
}

/// `&` (with its spacing), an optional `mut`, and the pattern referred to.
pub struct PatReference {
    pub attrs: Vec<TokenTree>,
    pub and_token: Spacing,
    pub mutability: bool,
    pub pat: Box<Pat>,
}

/// The `..` of a struct, tuple or tuple struct pattern (the spacing of
/// its second dot).
pub struct PatRest {
    pub attrs: Vec<TokenTree>,
    pub dot2_token: Spacing,
}

/// A struct pattern; each field is followed by its comma, if any.
pub struct PatStruct {
    pub attrs: Vec<TokenTree>,
    pub path: Path,
    pub fields: Vec<(FieldPat, Option<Spacing>)>,
    pub rest: Option<PatRest>,
}

/// A tuple pattern; each element is followed by its comma, if any.
pub struct PatTuple {
    pub attrs: Vec<TokenTree>,
    pub elems: Vec<(Pat, Option<Spacing>)>,
}

pub struct PatTupleStruct {
    pub attrs: Vec<TokenTree>,
    pub path: Path,
    pub elems: Vec<(Pat, Option<Spacing>)>,
}

/// A pattern, a `:` and the tokens of a type.
pub struct PatType {
    pub attrs: Vec<TokenTree>,
    pub pat: Box<Pat>,
    pub colon_token: Spacing,
    pub ty: Vec<TokenTree>,
}

pub struct PatWild {
    pub attrs: Vec<TokenTree>,
}

/// The field a struct pattern names: by name, or by position (the integer
/// literal as written).
pub enum Member {
    Named(String),
    Unnamed(String),
}

/// One field of a struct pattern. Without a colon the field is written in
/// short form (`ref x`), and `pat` is the binding of the same name.
pub struct FieldPat {
    pub attrs: Vec<TokenTree>,
    pub member: Member,
    pub colon_token: Option<Spacing>,
    pub pat: Box<Pat>,
}

/// The variants of `Pat`.
#[derive(Clone, Copy, Debug, PartialEq, Eq, Structural)]
pub enum PatKind {
    Ident,
    Path,
    Reference,
    Struct,
    Tuple,
    TupleStruct,
    Rest,
    Type,
    Wild,
}

pub open spec fn kind_of(p: Pat) -> PatKind {
    match p {
        Pat::Ident(_) => PatKind::Ident,
        Pat::Path(_) => PatKind::Path,
        Pat::Reference(_) => PatKind::Reference,
        Pat::Struct(_) => PatKind::Struct,
        Pat::Tuple(_) => PatKind::Tuple,
        Pat::TupleStruct(_) => PatKind::TupleStruct,
        Pat::Rest(_) => PatKind::Rest,
        Pat::Type(_) => PatKind::Type,
        Pat::Wild(_) => PatKind::Wild,
    }
}

/// A field written in short form binds the name of its member.
pub open spec fn field_wf(f: FieldPat) -> bool {
    f.colon_token is None ==> f.member is Named && *f.pat is Ident && (*f.pat)->Ident_0.ident@
        == f.member->Named_0@
}

pub open spec fn fields_wf(v: Seq<(FieldPat, Option<Spacing>)>) -> bool {
    forall|i: int| 0 <= i < v.len() ==> #[trigger] field_wf(v[i].0)
}

// ----- printing -----

pub open spec fn comma_print(o: Option<Spacing>) -> Seq<Tok> {
    match o {
        Some(sp) => punct(',', sp),
        None => Seq::empty(),
    }
}

/// The comma after a list element: the one recorded, or, where none is and
/// more elements follow, one that separates them.
pub open spec fn sep_print(o: Option<Spacing>, more: bool) -> Seq<Tok> {
    match o {
        Some(sp) => punct(',', sp),
        None => if more {
            punct(',', Spacing::Alone)
        } else {
            Seq::empty()
        },
    }
}

pub open spec fn member_print(m: Member) -> Seq<Tok> {
    match m {
        Member::Named(n) => seq![Tok::Ident(n@)],
        Member::Unnamed(l) => seq![Tok::Literal(l@)],
    }
}

pub open spec fn rest_print(r: Option<PatRest>) -> Seq<Tok> {
    match r {
        Some(x) => toks_v(x.attrs@) + symbol('.', 2, x.dot2_token),
        None => Seq::empty(),
    }
}

/// Whether a list has no elements or ends with a comma.
pub open spec fn empty_or_trailing<T>(v: Seq<(T, Option<Spacing>)>) -> bool {
    v.len() == 0 || v.last().1 is Some
}

/// The comma that a struct pattern needs between its last field and `..`.
pub open spec fn rest_comma(x: PatStruct) -> Seq<Tok> {
    if x.rest is Some && !empty_or_trailing(x.fields@) {
        punct(',', Spacing::Alone)
    } else {
        Seq::empty()
    }
}

/// The tokens of a pattern.
pub open spec fn pat_print(p: Pat) -> Seq<Tok>
    decreases p,
{
    match p {
        Pat::Ident(x) => toks_v(x.attrs@) + word_if(x.by_ref, "ref"@) + word_if(
            x.mutability,
            "mut"@,
        ) + word(x.ident@),
        Pat::Path(x) => toks_v(x.attrs@) + path_print(x.path),
        Pat::Reference(x) => toks_v(x.attrs@) + punct('&', x.and_token) + word_if(
            x.mutability,
            "mut"@,
        ) + pat_print(*x.pat),
        Pat::Struct(x) => toks_v(x.attrs@) + path_print(x.path) + seq![
            Tok::Group(
                Delimiter::Brace,
                fields_print(x.fields@) + rest_comma(x) + rest_print(x.rest),
            ),
        ],
        Pat::Tuple(x) => toks_v(x.attrs@) + seq![
            Tok::Group(Delimiter::Parenthesis, elems_print(x.elems@)),
        ],
        Pat::TupleStruct(x) => toks_v(x.attrs@) + path_print(x.path) + seq![
            Tok::Group(Delimiter::Parenthesis, elems_print(x.elems@)),
        ],
        Pat::Rest(x) => toks_v(x.attrs@) + symbol('.', 2, x.dot2_token),
        Pat::Type(x) => toks_v(x.attrs@) + pat_print(*x.pat) + punct(':', x.colon_token) + toks_v(
            x.ty@,
        ),
        Pat::Wild(x) => toks_v(x.attrs@) + word("_"@),
    }
}

pub open spec fn elems_print(v: Seq<(Pat, Option<Spacing>)>) -> Seq<Tok>
    decreases v,
{
    if v.len() == 0 {
        Seq::empty()
    } else {
        pat_print(v[0].0) + sep_print(v[0].1, v.len() > 1) + elems_print(v.subrange(1, v.len() as int))
    }
}

pub open spec fn field_print(f: FieldPat) -> Seq<Tok>
    decreases f,
{
    toks_v(f.attrs@) + match f.colon_token {
        Some(sp) => member_print(f.member) + punct(':', sp),
        None => Seq::empty(),
    } + pat_print(*f.pat)
}

pub open spec fn fields_print(v: Seq<(FieldPat, Option<Spacing>)>) -> Seq<Tok>
    decreases v,
{
    if v.len() == 0 {
        Seq::empty()
    } else {
        field_print(v[0].0) + sep_print(v[0].1, v.len() > 1) + fields_print(v.subrange(1, v.len() as int))
    }
}

// ----- the grammar -----

/// Whether the tokens at `pos` start a path, struct or tuple struct pattern.
pub open spec fn starts_path(s: Seq<Tok>, pos: int) -> bool {
    (plain_ident_at(s, pos) && (colon2_at(s, pos + 1) || punct_at(s, pos + 1, '!') || group_at(
        s,
        pos + 1,
        Delimiter::Brace,
    ) || group_at(s, pos + 1, Delimiter::Parenthesis) || dot2_at(s, pos + 1))) || (word_at(
        s,
        pos,
        "self"@,
    ) && colon2_at(s, pos + 1)) || colon2_at(s, pos) || punct_at(s, pos, '<') || word_at(
        s,
        pos,
        "Self"@,
    ) || word_at(s, pos, "super"@) || word_at(s, pos, "crate"@)
}

pub open spec fn starts_binding(s: Seq<Tok>, pos: int) -> bool {
    word_at(s, pos, "ref"@) || word_at(s, pos, "mut"@) || word_at(s, pos, "self"@)
        || plain_ident_at(s, pos)
}

/// Which variant the pattern at `pos` is, when it parses.
pub open spec fn pat_kind(s: Seq<Tok>, pos: int) -> PatKind {
    if starts_path(s, pos) {
        match path_end(s, pos) {
            Ok(e) => if group_at(s, e, Delimiter::Brace) {
                PatKind::Struct
            } else if group_at(s, e, Delimiter::Parenthesis) {
                PatKind::TupleStruct
            } else {
                PatKind::Path
            },
            Err(_) => PatKind::Path,
        }
    } else if word_at(s, pos, "_"@) {
        PatKind::Wild
    } else if starts_binding(s, pos) {
        PatKind::Ident
    } else if punct_at(s, pos, '&') {
        PatKind::Reference
    } else if dot2_at(s, pos) {
        PatKind::Rest
    } else {
        PatKind::Tuple
    }
}

pub open spec fn opt(b: bool) -> int {
    if b {
        1
    } else {
        0
    }
}

/// A binding: optional `ref`, optional `mut`, then any identifier.
pub open spec fn binding_spec(s: Seq<Tok>, pos: int) -> Result<(int, Seq<Tok>), SyntaxError> {
    let r = word_at(s, pos, "ref"@);
    let q1 = pos + opt(r);
    let m = word_at(s, q1, "mut"@);
    let q2 = q1 + opt(m);
    if ident_at(s, q2) {
        Ok((q2 + 1, word_if(r, "ref"@) + word_if(m, "mut"@) + seq![s[q2]]))
    } else {
        err(q2, ErrorKind::ExpectedIdent)
    }
}

/// What the pattern at `pos` parses to: where it ends and its tokens.
pub open spec fn pat_spec(s: Seq<Tok>, pos: int) -> Result<(int, Seq<Tok>), SyntaxError>
    decreases s, s.len() - pos, 3nat,
{
    if starts_path(s, pos) {
        path_or_struct_spec(s, pos)
    } else if word_at(s, pos, "_"@) {
        Ok((pos + 1, word("_"@)))
    } else if starts_binding(s, pos) {
        binding_spec(s, pos)
    } else if punct_at(s, pos, '&') {
        let m = word_at(s, pos + 1, "mut"@);
        match pat_spec(s, pos + 1 + opt(m)) {
            Ok((e, o)) => Ok((e, punct('&', spacing_at(s, pos)) + word_if(m, "mut"@) + o)),
            Err(x) => Err(x),
        }
    } else if group_at(s, pos, Delimiter::Parenthesis) {
        match elems_spec(inner(s, pos), 0) {
            Ok(o) => Ok((pos + 1, seq![Tok::Group(Delimiter::Parenthesis, o)])),
            Err(x) => Err(x),
        }
    } else if dot2_at(s, pos) {
        Ok((pos + 2, symbol('.', 2, spacing_at(s, pos + 1))))
    } else {
        err(pos, ErrorKind::ExpectedPattern)
    }
}

pub open spec fn path_or_struct_spec(s: Seq<Tok>, pos: int) -> Result<
    (int, Seq<Tok>),
    SyntaxError,
>
    decreases s, s.len() - pos, 2nat,
{
    match path_end(s, pos) {
        Err(x) => Err(x),
        Ok(e) => if group_at(s, e, Delimiter::Brace) {
            match struct_spec(inner(s, e), 0) {
                Ok(o) => Ok((e + 1, s.subrange(pos, e) + seq![Tok::Group(Delimiter::Brace, o)])),
                Err(x) => Err(x),
            }
        } else if group_at(s, e, Delimiter::Parenthesis) {
            match elems_spec(inner(s, e), 0) {
                Ok(o) => Ok(
                    (e + 1, s.subrange(pos, e) + seq![Tok::Group(Delimiter::Parenthesis, o)]),
                ),
                Err(x) => Err(x),
            }
        } else {
            Ok((e, s.subrange(pos, e)))
        },
    }
}

/// The comma-separated patterns of a tuple or tuple struct, from `q` to the
/// end of the group.
pub open spec fn elems_spec(c: Seq<Tok>, q: int) -> Result<Seq<Tok>, SyntaxError>
    decreases c, c.len() - q, 4nat,
{
    if q >= c.len() {
        Ok(Seq::empty())
    } else {
        match pat_spec(c, q) {
            Err(x) => Err(x),
            Ok((e, o)) => if e >= c.len() {
                Ok(o)
            } else if !punct_at(c, e, ',') {
                err(e, ErrorKind::ExpectedPunct(','))
            } else if e < q {
                // never taken: a pattern ends after its start
                err(e, ErrorKind::UnexpectedToken)
            } else {
                match elems_spec(c, e + 1) {
                    Ok(o2) => Ok(o + punct(',', spacing_at(c, e)) + o2),
                    Err(x) => Err(x),
                }
            },
        }
    }
}

/// The fields of a struct pattern from `q` to the end of the group, with an
/// optional `..` last.
pub open spec fn struct_spec(c: Seq<Tok>, q: int) -> Result<Seq<Tok>, SyntaxError>
    decreases c, c.len() - q, 5nat,
{
    if q >= c.len() {
        Ok(Seq::empty())
    } else {
        match syn_end_spec(Grammar::Attributes, c, q) {
            None => err(q, ErrorKind::Invalid(Grammar::Attributes)),
            Some(a) => if dot2_at(c, a) {
                if a + 2 < c.len() {
                    err(a + 2, ErrorKind::UnexpectedToken)
                } else {
                    Ok(c.subrange(q, a) + symbol('.', 2, spacing_at(c, a + 1)))
                }
            } else {
                match field_spec(c, a) {
                    Err(x) => Err(x),
                    Ok((e, o)) => if e >= c.len() {
                        Ok(c.subrange(q, a) + o)
                    } else if !punct_at(c, e, ',') {
                        err(e, ErrorKind::ExpectedPunct(','))
                    } else if e < q {
                        // never taken: a field ends after its start
                        err(e, ErrorKind::UnexpectedToken)
                    } else {
                        match struct_spec(c, e + 1) {
                            Ok(o2) => Ok(c.subrange(q, a) + o + punct(',', spacing_at(c, e)) + o2),
                            Err(x) => Err(x),
                        }
                    },
                }
            },
        }
    }
}

/// Whether the token at `i` is a field index: an unsuffixed integer.
pub open spec fn index_at(c: Seq<Tok>, i: int) -> bool {
    0 <= i < c.len() && c[i] is Literal && index_accepted(c[i]->Literal_0)
}

/// One field of a struct pattern: `box`, `ref` and `mut` (each optional),
/// a member, and `: pattern` unless the field is written in short form.
/// `box` is read and not kept.
pub open spec fn field_spec(c: Seq<Tok>, a: int) -> Result<(int, Seq<Tok>), SyntaxError>
    decreases c, c.len() - a, 4nat,
{
    let b = word_at(c, a, "box"@);
    let q1 = a + opt(b);
    let r = word_at(c, q1, "ref"@);
    let q2 = q1 + opt(r);
    let m = word_at(c, q2, "mut"@);
    let q3 = q2 + opt(m);
    let any = b || r || m;
    let named = plain_ident_at(c, q3);
    let unnamed = !any && !named && index_at(c, q3);
    if !named && !unnamed {
        if any {
            err(q3, ErrorKind::ExpectedIdent)
        } else {
            err(q3, ErrorKind::ExpectedMember)
        }
    } else if (!any && punct_at(c, q3 + 1, ':')) || unnamed {
        if !punct_at(c, q3 + 1, ':') {
            err(q3 + 1, ErrorKind::ExpectedPunct(':'))
        } else {
            match pat_spec(c, q3 + 2) {
                Ok((e, o)) => Ok((e, seq![c[q3]] + punct(':', spacing_at(c, q3 + 1)) + o)),
                Err(x) => Err(x),
            }
        }
    } else {
        Ok((q3 + 1, word_if(r, "ref"@) + word_if(m, "mut"@) + seq![c[q3]]))
    }
}

// ----- the tree that was read -----

/// The pattern `p` is the one read at `pos`: no attributes, the `ref` and
/// `mut` that stand there, the path read there, and each element or field
/// the one read at its own place.
pub open spec fn pat_parsed(p: Pat, s: Seq<Tok>, pos: int) -> bool
    decreases p, 1nat,
{
    kind_of(p) == pat_kind(s, pos) && pat_shape(p, s, pos)
}

/// The parts of the pattern `p` are those read at `pos`.
pub open spec fn pat_shape(p: Pat, s: Seq<Tok>, pos: int) -> bool
    decreases p, 0nat,
{
    match p {
        Pat::Wild(x) => x.attrs@.len() == 0,
        Pat::Ident(x) => {
            let q2 = pos + opt(x.by_ref) + opt(x.mutability);
            x.attrs@.len() == 0 && x.by_ref == word_at(s, pos, "ref"@) && x.mutability == word_at(
                s,
                pos + opt(x.by_ref),
                "mut"@,
            ) && 0 <= q2 < s.len() && s[q2] == Tok::Ident(x.ident@)
        },
        Pat::Reference(x) => x.attrs@.len() == 0 && x.mutability == word_at(s, pos + 1, "mut"@)
            && pat_parsed(*x.pat, s, pos + 1 + opt(x.mutability)),
        Pat::Rest(x) => x.attrs@.len() == 0,
        Pat::Path(x) => x.attrs@.len() == 0 && path_parsed(x.path, s, pos),
        Pat::Struct(x) => x.attrs@.len() == 0 && path_parsed(x.path, s, pos) && path_end(s, pos) is Ok
            && fields_parsed(x.fields@, x.rest, inner(s, path_end(s, pos)->Ok_0), 0),
        Pat::Tuple(x) => x.attrs@.len() == 0 && elems_parsed(x.elems@, inner(s, pos), 0),
        Pat::TupleStruct(x) => x.attrs@.len() == 0 && path_parsed(x.path, s, pos) && path_end(
            s,
            pos,
        ) is Ok && elems_parsed(x.elems@, inner(s, path_end(s, pos)->Ok_0), 0),
        Pat::Type(_) => false,
    }
}

/// The elements `v` are the comma-separated patterns read from `q` to the
/// end of the group `c`, each followed by the comma written after it.
pub open spec fn elems_parsed(v: Seq<(Pat, Option<Spacing>)>, c: Seq<Tok>, q: int) -> bool
    decreases v, 0nat,
{
    if v.len() == 0 {
        q >= c.len()
    } else {
        pat_spec(c, q) is Ok && pat_parsed(v[0].0, c, q) && pat_print(v[0].0) == pat_spec(c, q)->Ok_0.1
            && {
            let e = pat_spec(c, q)->Ok_0.0;
            if e < c.len() {
                v[0].1 == Some(spacing_at(c, e)) && elems_parsed(v.subrange(1, v.len() as int), c, e + 1)
            } else {
                v.len() == 1 && v[0].1 is None
            }
        }
    }
}

/// The fields `v` and the rest `rest` are those read from `q` to the end of
/// the braces `c`: each field with the attributes written before it and the
/// comma after it.
pub open spec fn fields_parsed(
    v: Seq<(FieldPat, Option<Spacing>)>,
    rest: Option<PatRest>,
    c: Seq<Tok>,
    q: int,
) -> bool
    decreases v, 0nat,
{
    if v.len() == 0 {
        match rest {
            None => q >= c.len(),
            Some(r) => q < c.len() && syn_end_spec(Grammar::Attributes, c, q) is Some && {
                let a = syn_end_spec(Grammar::Attributes, c, q)->Some_0;
                toks_v(r.attrs@) == c.subrange(q, a) && dot2_at(c, a) && r.dot2_token == spacing_at(
                    c,
                    a + 1,
                )
            },
        }
    } else {
        q < c.len() && syn_end_spec(Grammar::Attributes, c, q) is Some && {
            let a = syn_end_spec(Grammar::Attributes, c, q)->Some_0;
            toks_v(v[0].0.attrs@) == c.subrange(q, a) && field_spec(c, a) is Ok && field_parsed(
                v[0].0,
                c,
                a,
            ) && {
                let e = field_spec(c, a)->Ok_0.0;
                if e < c.len() {
                    v[0].1 == Some(spacing_at(c, e)) && fields_parsed(
                        v.subrange(1, v.len() as int),
                        rest,
                        c,
                        e + 1,
                    )
                } else {
                    v.len() == 1 && v[0].1 is None && rest is None
                }
            }
        }
    }
}

/// The field `f` is the one read at `a` (after its attributes): its member
/// is the token there, it has a colon exactly where one is written, and its
/// pattern is the one read after the colon, or else the binding of the
/// member's name with the `ref` and `mut` written before it.
pub open spec fn field_parsed(f: FieldPat, c: Seq<Tok>, a: int) -> bool
    decreases f, 0nat,
{
    let b = word_at(c, a, "box"@);
    let q1 = a + opt(b);
    let r = word_at(c, q1, "ref"@);
    let q2 = q1 + opt(r);
    let m = word_at(c, q2, "mut"@);
    let q3 = q2 + opt(m);
    0 <= q3 < c.len() && member_print(f.member) == seq![c[q3]] && match f.colon_token {
        Some(sp) => punct_at(c, q3 + 1, ':') && sp == spacing_at(c, q3 + 1) && pat_spec(c, q3 + 2) is Ok
            && pat_parsed(*f.pat, c, q3 + 2) && pat_print(*f.pat) == pat_spec(c, q3 + 2)->Ok_0.1,
        None => f.member is Named && *f.pat is Ident && (*f.pat)->Ident_0.attrs@.len() == 0
            && (*f.pat)->Ident_0.by_ref == r && (*f.pat)->Ident_0.mutability == m
            && (*f.pat)->Ident_0.ident@ == f.member->Named_0@,
    }
}

// ----- results -----

pub open spec fn pat_res(
    r: Result<(Pat, usize), SyntaxError>,
    sp: Result<(int, Seq<Tok>), SyntaxError>,
    pos: int,
) -> bool {
    match sp {
        Ok((e, o)) => r is Ok && r->Ok_0.1 == e && pos < e && pat_print(r->Ok_0.0) == o,
        Err(x) => r == Err::<(Pat, usize), SyntaxError>(x),
    }
}

pub open spec fn elems_res(
    r: Result<Vec<(Pat, Option<Spacing>)>, SyntaxError>,
    sp: Result<Seq<Tok>, SyntaxError>,
) -> bool {
    match sp {
        Ok(o) => r is Ok && elems_print(r->Ok_0@) == o,
        Err(x) => r == Err::<Vec<(Pat, Option<Spacing>)>, SyntaxError>(x),
    }
}

pub open spec fn struct_res(
    r: Result<(Vec<(FieldPat, Option<Spacing>)>, Option<PatRest>), SyntaxError>,
    sp: Result<Seq<Tok>, SyntaxError>,
) -> bool {
    match sp {
        Ok(o) => r is Ok && fields_print(r->Ok_0.0@) + rest_print(r->Ok_0.1) == o && (r->Ok_0.1 is Some
            ==> empty_or_trailing(r->Ok_0.0@)),
        Err(x) => r == Err::<(Vec<(FieldPat, Option<Spacing>)>, Option<PatRest>), SyntaxError>(x),
    }
}

pub open spec fn field_res(
    r: Result<(FieldPat, usize), SyntaxError>,
    sp: Result<(int, Seq<Tok>), SyntaxError>,
    pos: int,
) -> bool {
    match sp {
        Ok((e, o)) => r is Ok && r->Ok_0.1 == e && pos < e && field_print(r->Ok_0.0) == o
            && r->Ok_0.0.attrs@.len() == 0,
        Err(x) => r == Err::<(FieldPat, usize), SyntaxError>(x),
    }
}

// ----- parsing -----

fn starts_path_at(toks: &Vec<TokenTree>, pos: usize) -> (r: bool)
    requires
        pos <= toks@.len(),
    ensures
        r == starts_path(view_of(toks), pos as int),
{
    proof {
        lemma_toks_v(toks@);
    }
    let n = toks.len();
    if pos >= n {
        return false;
    }
    (is_plain_ident(toks, pos) && (is_colon2(toks, pos + 1) || is_punct(toks, pos + 1, '!')
        || is_group(toks, pos + 1, Delimiter::Brace) || is_group(
        toks,
        pos + 1,
        Delimiter::Parenthesis,
    ) || is_dot2(toks, pos + 1))) || (is_word_at(toks, pos, "self") && is_colon2(toks, pos + 1))
        || is_colon2(toks, pos) || is_punct(toks, pos, '<') || is_word_at(toks, pos, "Self")
        || is_word_at(toks, pos, "super") || is_word_at(toks, pos, "crate")
}

fn parse_binding(toks: &Vec<TokenTree>, pos: usize) -> (r: Result<(Pat, usize), SyntaxError>)
    requires
        pos <= toks@.len(),
    ensures
        pat_res(r, binding_spec(view_of(toks), pos as int), pos as int),
        r is Ok ==> kind_of(r->Ok_0.0) == PatKind::Ident,
        r is Ok ==> pat_shape(r->Ok_0.0, view_of(toks), pos as int),
{
    proof {
        lemma_toks_v(toks@);
    }
    let n = toks.len();
    let by_ref = is_word_at(toks, pos, "ref");
    let q1 = if by_ref {
        pos + 1
    } else {
        pos
    };
    let mutability = is_word_at(toks, q1, "mut");
    let q2 = if mutability {
        q1 + 1
    } else {
        q1
    };
    if !is_ident(toks, q2) {
        return Err(SyntaxError { at: q2, kind: ErrorKind::ExpectedIdent });
    }
    let ident = match &toks[q2] {
        TokenTree::Ident(x) => x.clone(),
        _ => {
            assert(false);
            return Err(SyntaxError { at: q2, kind: ErrorKind::ExpectedIdent });
        },
    };
    let p = Pat::Ident(PatIdent { attrs: Vec::new(), by_ref, mutability, ident });
    assert(pat_print(p) =~= word_if(by_ref, "ref"@) + word_if(mutability, "mut"@) + seq![
        view_of(toks)[q2 as int],
    ]);
    Ok((p, q2 + 1))
}

fn is_index(c: &Vec<TokenTree>, i: usize) -> (r: bool)
    ensures
        r == index_at(view_of(c), i as int),
{
    proof {
        lemma_toks_v(c@);
    }
    if i < c.len() {
        match &c[i] {
            TokenTree::Literal(l) => accepts_index(l),
            _ => false,
        }
    } else {
        false
    }
}

impl Pat {
    /// Parses the pattern that starts at `pos` (one that has no `|` at its
    /// top level). Returns it and where it ends.
    pub fn parse_single(toks: &Vec<TokenTree>, pos: usize) -> (r: Result<(Pat, usize), SyntaxError>)
        requires
            pos <= toks@.len(),
        ensures
            pat_res(r, pat_spec(view_of(toks), pos as int), pos as int),
            r is Ok ==> kind_of(r->Ok_0.0) == pat_kind(view_of(toks), pos as int),
            r is Ok && r->Ok_0.0 is Struct ==> fields_wf(r->Ok_0.0->Struct_0.fields@),
            r is Ok ==> pat_parsed(r->Ok_0.0, view_of(toks), pos as int),
        decreases toks@, toks@.len() - pos, 3nat,
    {
        proof {
            lemma_toks_v(toks@);
        }
        let ghost s = view_of(toks);
        let n = toks.len();
        if starts_path_at(toks, pos) {
            return parse_path_or_struct(toks, pos);
        }
        if is_word_at(toks, pos, "_") {
            let p = Pat::Wild(PatWild { attrs: Vec::new() });
            assert(pat_print(p) =~= word("_"@));
            return Ok((p, pos + 1));
        }
        if is_word_at(toks, pos, "ref") || is_word_at(toks, pos, "mut") || is_word_at(
            toks,
            pos,
            "self",
        ) || is_plain_ident(toks, pos) {
            return parse_binding(toks, pos);
        }
        if is_punct(toks, pos, '&') {
            let sp = spacing(toks, pos);
            let m = is_word_at(toks, pos + 1, "mut");
            let q = if m {
                pos + 2
            } else {
                pos + 1
            };
            return match Pat::parse_single(toks, q) {
                Ok((inner_pat, e)) => {
                    let p = Pat::Reference(
                        PatReference {
                            attrs: Vec::new(),
                            and_token: sp,
                            mutability: m,
                            pat: Box::new(inner_pat),
                        },
                    );
                    assert(pat_print(p) =~= punct('&', sp) + word_if(m, "mut"@) + pat_print(
                        inner_pat,
                    ));
                    Ok((p, e))
                },
                Err(x) => Err(x),
            };
        }
        if is_group(toks, pos, Delimiter::Parenthesis) {
            let c = group_contents(toks, pos);
            assert(decreases_to!(toks@ => toks@[pos as int]));
            return match parse_elems(c, 0) {
                Ok(elems) => {
                    let p = Pat::Tuple(PatTuple { attrs: Vec::new(), elems });
                    assert(pat_print(p) =~= seq![
                        Tok::Group(Delimiter::Parenthesis, elems_print(elems@)),
                    ]);
                    Ok((p, pos + 1))
                },
                Err(x) => Err(x),
            };
        }
        if is_dot2(toks, pos) {
            let sp = spacing(toks, pos + 1);
            let p = Pat::Rest(PatRest { attrs: Vec::new(), dot2_token: sp });
            assert(pat_print(p) =~= symbol('.', 2, sp));
            return Ok((p, pos + 2));
        }
        Err(SyntaxError { at: pos, kind: ErrorKind::ExpectedPattern })
    }
}

fn parse_path_or_struct(toks: &Vec<TokenTree>, pos: usize) -> (r: Result<(Pat, usize), SyntaxError>)
    requires
        pos <= toks@.len(),
    ensures
        pat_res(r, path_or_struct_spec(view_of(toks), pos as int), pos as int),
        r is Ok && r->Ok_0.0 is Struct ==> fields_wf(r->Ok_0.0->Struct_0.fields@),
        r is Ok ==> kind_of(r->Ok_0.0) == pat_kind(view_of(toks), pos as int) || !starts_path(
            view_of(toks),
            pos as int,
        ),
        r is Ok ==> pat_shape(r->Ok_0.0, view_of(toks), pos as int),
    decreases toks@, toks@.len() - pos, 2nat,
{
    proof {
        lemma_toks_v(toks@);
    }
    let ghost s = view_of(toks);
    let n = toks.len();
    let (path, e) = match parse_path(toks, pos) {
        Ok(x) => x,
        Err(x) => {
            return Err(x);
        },
    };
    let ghost ps = s.subrange(pos as int, e as int);
    if is_group(toks, e, Delimiter::Brace) {
        let c = group_contents(toks, e);
        assert(decreases_to!(toks@ => toks@[e as int]));
        match parse_fields(c, 0) {
            Ok((fields, rest)) => {
                let x = PatStruct { attrs: Vec::new(), path, fields, rest };
                assert(rest_comma(x) =~= Seq::<Tok>::empty());
                let p = Pat::Struct(x);
                assert(pat_print(p) =~= ps + seq![
                    Tok::Group(Delimiter::Brace, fields_print(x.fields@) + rest_print(x.rest)),
                ]);
                Ok((p, e + 1))
            },
            Err(x) => Err(x),
        }
    } else if is_group(toks, e, Delimiter::Parenthesis) {
        let c = group_contents(toks, e);
        assert(decreases_to!(toks@ => toks@[e as int]));
        match parse_elems(c, 0) {
            Ok(elems) => {
                let p = Pat::TupleStruct(PatTupleStruct { attrs: Vec::new(), path, elems });
                assert(pat_print(p) =~= ps + seq![
                    Tok::Group(Delimiter::Parenthesis, elems_print(elems@)),
                ]);
                Ok((p, e + 1))
            },
            Err(x) => Err(x),
        }
    } else {
        let p = Pat::Path(PatPath { attrs: Vec::new(), path });
        assert(pat_print(p) =~= ps);
        Ok((p, e))
    }
}

#[verifier::rlimit(100)]
fn parse_elems(c: &Vec<TokenTree>, q: usize) -> (r: Result<Vec<(Pat, Option<Spacing>)>, SyntaxError>)
    requires
        q <= c@.len(),
    ensures
        elems_res(r, elems_spec(view_of(c), q as int)),
        r is Ok ==> elems_parsed(r->Ok_0@, view_of(c), q as int),
    decreases c@, c@.len() - q, 4nat,
{
    proof {
        lemma_toks_v(c@);
    }
    let n = c.len();
    if q >= n {
        let v: Vec<(Pat, Option<Spacing>)> = Vec::new();
        assert(elems_print(v@) =~= Seq::<Tok>::empty());
        return Ok(v);
    }
    let (p, e) = match Pat::parse_single(c, q) {
        Ok(x) => x,
        Err(x) => {
            return Err(x);
        },
    };
    if e >= n {
        let mut v: Vec<(Pat, Option<Spacing>)> = Vec::new();
        v.push((p, None));
        assert(v@.subrange(1, 1) =~= Seq::<(Pat, Option<Spacing>)>::empty());
        assert(elems_print(v@.subrange(1, 1)) =~= Seq::<Tok>::empty());
        assert(elems_print(v@) =~= pat_print(p));
        return Ok(v);
    }
    if !is_punct(c, e, ',') {
        return Err(SyntaxError { at: e, kind: ErrorKind::ExpectedPunct(',') });
    }
    let sp = spacing(c, e);
    let mut rest = match parse_elems(c, e + 1) {
        Ok(x) => x,
        Err(x) => {
            return Err(x);
        },
    };
    let ghost old_rest = rest@;
    rest.insert(0, (p, Some(sp)));
    proof {
        lemma_elems_cons(old_rest, p, sp, view_of(c), q as int);
    }
    Ok(rest)
}

#[verifier::rlimit(100)]
fn parse_fields(c: &Vec<TokenTree>, q: usize) -> (r: Result<
    (Vec<(FieldPat, Option<Spacing>)>, Option<PatRest>),
    SyntaxError,
>)
    requires
        q <= c@.len(),
    ensures
        struct_res(r, struct_spec(view_of(c), q as int)),
        r is Ok ==> fields_wf(r->Ok_0.0@),
        r is Ok ==> fields_parsed(r->Ok_0.0@, r->Ok_0.1, view_of(c), q as int),
    decreases c@, c@.len() - q, 5nat,
{
    proof {
        lemma_toks_v(c@);
    }
    let ghost s = view_of(c);
    let n = c.len();
    if q >= n {
        let v: Vec<(FieldPat, Option<Spacing>)> = Vec::new();
        assert(fields_print(v@) =~= Seq::<Tok>::empty());
        assert(rest_print(None) =~= Seq::<Tok>::empty());
        return Ok((v, None));
    }
    let a = match syn_end(c, q, Grammar::Attributes) {
        Some(a) => a,
        None => {
            return Err(SyntaxError { at: q, kind: ErrorKind::Invalid(Grammar::Attributes) });
        },
    };
    let attrs = copy_run(c, q, a);
    if is_dot2(c, a) {
        if a + 2 < n {
            return Err(SyntaxError { at: a + 2, kind: ErrorKind::UnexpectedToken });
        }
        let sp = spacing(c, a + 1);
        let v: Vec<(FieldPat, Option<Spacing>)> = Vec::new();
        let rest = Some(PatRest { attrs, dot2_token: sp });
        proof {
            lemma_fields_rest(v@, rest->Some_0, s.subrange(q as int, a as int));
            assert(fields_parsed(v@, rest, s, q as int));
        }
        return Ok((v, rest));
    }
    let (f, e) = match parse_field(c, a) {
        Ok(x) => x,
        Err(x) => {
            return Err(x);
        },
    };
    let ghost fo = field_print(f);
    let ghost f0 = f;
    let f = FieldPat { attrs, member: f.member, colon_token: f.colon_token, pat: f.pat };
    assert(field_print(f) =~= s.subrange(q as int, a as int) + fo);
    assert(field_parsed(f, s, a as int) == field_parsed(f0, s, a as int));
    if e >= n {
        let mut v: Vec<(FieldPat, Option<Spacing>)> = Vec::new();
        v.push((f, None));
        proof {
            lemma_fields_one(v@);
            lemma_fields_parsed_one(v@, s, q as int);
        }
        return Ok((v, None));
    }
    if !is_punct(c, e, ',') {
        return Err(SyntaxError { at: e, kind: ErrorKind::ExpectedPunct(',') });
    }
    let sp = spacing(c, e);
    let (mut fields, rest) = match parse_fields(c, e + 1) {
        Ok(x) => x,
        Err(x) => {
            return Err(x);
        },
    };
    let ghost old_fields = fields@;
    fields.insert(0, (f, Some(sp)));
    proof {
        assert forall|i: int| 0 <= i < fields@.len() implies #[trigger] field_wf(fields@[i].0) by {
            if i > 0 {
                assert(fields@[i] == old_fields[i - 1]);
            }
        }
        lemma_fields_cons(old_fields, f, sp);
        lemma_fields_parsed_cons(old_fields, f, sp, rest, s, q as int);
        assert(fields_print(fields@) + rest_print(rest) =~= s.subrange(q as int, a as int) + fo
            + punct(',', sp) + (fields_print(old_fields) + rest_print(rest)));
    }
    Ok((fields, rest))
}

proof fn lemma_elems_cons(v: Seq<(Pat, Option<Spacing>)>, p: Pat, sp: Spacing, c: Seq<Tok>, q: int)
    requires
        pat_spec(c, q) is Ok,
        pat_parsed(p, c, q),
        pat_print(p) == pat_spec(c, q)->Ok_0.1,
        pat_spec(c, q)->Ok_0.0 < c.len(),
        sp == spacing_at(c, pat_spec(c, q)->Ok_0.0),
        elems_parsed(v, c, pat_spec(c, q)->Ok_0.0 + 1),
    ensures
        elems_parsed(v.insert(0, (p, Some(sp))), c, q),
        elems_print(v.insert(0, (p, Some(sp)))) == pat_print(p) + punct(',', sp) + elems_print(v),
{
    let w = v.insert(0, (p, Some(sp)));
    assert(w.subrange(1, w.len() as int) =~= v);
}

proof fn lemma_fields_parsed_one(v: Seq<(FieldPat, Option<Spacing>)>, c: Seq<Tok>, q: int)
    requires
        v.len() == 1,
        v[0].1 is None,
        q < c.len(),
        syn_end_spec(Grammar::Attributes, c, q) is Some,
        toks_v(v[0].0.attrs@) == c.subrange(q, syn_end_spec(Grammar::Attributes, c, q)->Some_0),
        field_spec(c, syn_end_spec(Grammar::Attributes, c, q)->Some_0) is Ok,
        field_parsed(v[0].0, c, syn_end_spec(Grammar::Attributes, c, q)->Some_0),
        field_spec(c, syn_end_spec(Grammar::Attributes, c, q)->Some_0)->Ok_0.0 >= c.len(),
    ensures
        fields_parsed(v, None, c, q),
{
}

proof fn lemma_fields_parsed_cons(
    v: Seq<(FieldPat, Option<Spacing>)>,
    f: FieldPat,
    sp: Spacing,
    rest: Option<PatRest>,
    c: Seq<Tok>,
    q: int,
)
    requires
        q < c.len(),
        syn_end_spec(Grammar::Attributes, c, q) is Some,
        toks_v(f.attrs@) == c.subrange(q, syn_end_spec(Grammar::Attributes, c, q)->Some_0),
        field_spec(c, syn_end_spec(Grammar::Attributes, c, q)->Some_0) is Ok,
        field_parsed(f, c, syn_end_spec(Grammar::Attributes, c, q)->Some_0),
        field_spec(c, syn_end_spec(Grammar::Attributes, c, q)->Some_0)->Ok_0.0 < c.len(),
        sp == spacing_at(c, field_spec(c, syn_end_spec(Grammar::Attributes, c, q)->Some_0)->Ok_0.0),
        fields_parsed(
            v,
            rest,
            c,
            field_spec(c, syn_end_spec(Grammar::Attributes, c, q)->Some_0)->Ok_0.0 + 1,
        ),
    ensures
        fields_parsed(v.insert(0, (f, Some(sp))), rest, c, q),
{
    let w = v.insert(0, (f, Some(sp)));
    assert(w.subrange(1, w.len() as int) =~= v);
}

proof fn lemma_fields_rest(v: Seq<(FieldPat, Option<Spacing>)>, r: PatRest, at: Seq<Tok>)
    requires
        v.len() == 0,
        toks_v(r.attrs@) == at,
    ensures
        fields_print(v) + rest_print(Some(r)) == at + symbol('.', 2, r.dot2_token),
{
    assert(fields_print(v) + rest_print(Some(r)) =~= at + symbol('.', 2, r.dot2_token));
}

proof fn lemma_fields_one(v: Seq<(FieldPat, Option<Spacing>)>)
    requires
        v.len() == 1,
        v[0].1 is None,
    ensures
        fields_print(v) + rest_print(None) == field_print(v[0].0),
{
    assert(v.subrange(1, 1) =~= Seq::<(FieldPat, Option<Spacing>)>::empty());
    assert(fields_print(v.subrange(1, 1)) =~= Seq::<Tok>::empty());
    assert(fields_print(v) + rest_print(None) =~= field_print(v[0].0));
}

proof fn lemma_fields_cons(v: Seq<(FieldPat, Option<Spacing>)>, f: FieldPat, sp: Spacing)
    ensures
        fields_print(v.insert(0, (f, Some(sp)))) == field_print(f) + punct(',', sp) + fields_print(
            v,
        ),
        empty_or_trailing(v) ==> empty_or_trailing(v.insert(0, (f, Some(sp)))),
{
    let w = v.insert(0, (f, Some(sp)));
    assert(w.subrange(1, w.len() as int) =~= v);
    if v.len() > 0 {
        assert(w.last() == v.last());
    }
}

fn parse_field(c: &Vec<TokenTree>, a: usize) -> (r: Result<(FieldPat, usize), SyntaxError>)
    requires
        a <= c@.len(),
    ensures
        field_res(r, field_spec(view_of(c), a as int), a as int),
        r is Ok ==> field_wf(r->Ok_0.0),
        r is Ok ==> field_parsed(r->Ok_0.0, view_of(c), a as int),
    decreases c@, c@.len() - a, 4nat,
{
    proof {
        lemma_toks_v(c@);
    }
    let ghost s = view_of(c);
    let n = c.len();
    let b = is_word_at(c, a, "box");
    let q1 = if b {
        a + 1
    } else {
        a
    };
    let by_ref = is_word_at(c, q1, "ref");
    let q2 = if by_ref {
        q1 + 1
    } else {
        q1
    };
    let mutability = is_word_at(c, q2, "mut");
    let q3 = if mutability {
        q2 + 1
    } else {
        q2
    };
    let any = b || by_ref || mutability;
    let named = is_plain_ident(c, q3);
    let unnamed = !any && !named && is_index(c, q3);
    if !named && !unnamed {
        let kind = if any {
            ErrorKind::ExpectedIdent
        } else {
            ErrorKind::ExpectedMember
        };
        return Err(SyntaxError { at: q3, kind });
    }
    let member = match &c[q3] {
        TokenTree::Ident(x) => Member::Named(x.clone()),
        TokenTree::Literal(x) => Member::Unnamed(x.clone()),
        _ => {
            assert(false);
            return Err(SyntaxError { at: q3, kind: ErrorKind::ExpectedMember });
        },
    };
    assert(member_print(member) =~= seq![s[q3 as int]]);
    if (!any && is_punct(c, q3 + 1, ':')) || unnamed {
        if !is_punct(c, q3 + 1, ':') {
            return Err(SyntaxError { at: q3 + 1, kind: ErrorKind::ExpectedPunct(':') });
        }
        let sp = spacing(c, q3 + 1);
        match Pat::parse_single(c, q3 + 2) {
            Ok((p, e)) => {
                let f = FieldPat {
                    attrs: Vec::new(),
                    member,
                    colon_token: Some(sp),
                    pat: Box::new(p),
                };
                assert(field_print(f) =~= seq![s[q3 as int]] + punct(':', sp) + pat_print(p));
                Ok((f, e))
            },
            Err(x) => Err(x),
        }
    } else {
        let ident = match &c[q3] {
            TokenTree::Ident(x) => x.clone(),
            _ => {
                assert(false);
                return Err(SyntaxError { at: q3, kind: ErrorKind::ExpectedIdent });
            },
        };
        let p = Pat::Ident(PatIdent { attrs: Vec::new(), by_ref, mutability, ident });
        let f = FieldPat { attrs: Vec::new(), member, colon_token: None, pat: Box::new(p) };
        assert(field_print(f) =~= word_if(by_ref, "ref"@) + word_if(mutability, "mut"@) + seq![
            s[q3 as int],
        ]);
        Ok((f, q3 + 1))
    }
}

// ----- printing, executable -----

pub(crate) fn push_tree(out: &mut Vec<TokenTree>, t: TokenTree)
    ensures
        toks_v(final(out)@) == toks_v(old(out)@) + seq![tok_v(t)],
{
    proof {
        lemma_toks_v_push(out@, t);
    }
    out.push(t);
}

pub(crate) fn push_word_if(out: &mut Vec<TokenTree>, b: bool, w: &str)
    ensures
        toks_v(final(out)@) == toks_v(old(out)@) + word_if(b, w@),
{
    if b {
        push_word(out, w);
    } else {
        assert(toks_v(out@) =~= toks_v(out@) + word_if(b, w@));
    }
}

pub(crate) fn push_sep(out: &mut Vec<TokenTree>, o: Option<Spacing>, more: bool)
    ensures
        toks_v(final(out)@) == toks_v(old(out)@) + sep_print(o, more),
{
    match o {
        Some(sp) => push_punct(out, ',', sp),
        None => if more {
            push_punct(out, ',', Spacing::Alone);
        } else {
            assert(toks_v(out@) =~= toks_v(out@) + sep_print(o, more));
        },
    }
}

pub(crate) fn push_comma(out: &mut Vec<TokenTree>, o: Option<Spacing>)
    ensures
        toks_v(final(out)@) == toks_v(old(out)@) + comma_print(o),
{
    match o {
        Some(sp) => push_punct(out, ',', sp),
        None => {
            assert(toks_v(out@) =~= toks_v(out@) + comma_print(o));
        },
    }
}

impl Pat {
    /// Appends the tokens of the pattern.
    pub fn to_tokens(&self, out: &mut Vec<TokenTree>)
        ensures
            toks_v(final(out)@) == toks_v(old(out)@) + pat_print(*self),
        decreases *self, 0nat,
    {
        let ghost o0 = toks_v(out@);
        match self {
            Pat::Ident(x) => {
                append_copy(out, &x.attrs);
                push_word_if(out, x.by_ref, "ref");
                push_word_if(out, x.mutability, "mut");
                push_tree(out, TokenTree::Ident(x.ident.clone()));
                assert(toks_v(out@) =~= o0 + pat_print(*self));
            },
            Pat::Path(x) => {
                append_copy(out, &x.attrs);
                path_to_tokens(&x.path, out);
                assert(toks_v(out@) =~= o0 + pat_print(*self));
            },
            Pat::Reference(x) => {
                append_copy(out, &x.attrs);
                push_punct(out, '&', x.and_token);
                push_word_if(out, x.mutability, "mut");
                x.pat.to_tokens(out);
                assert(toks_v(out@) =~= o0 + pat_print(*self));
            },
            Pat::Struct(x) => {
                append_copy(out, &x.attrs);
                path_to_tokens(&x.path, out);
                let g = struct_body_tokens(x);
                push_tree(out, TokenTree::Group(Delimiter::Brace, g));
                assert(toks_v(out@) =~= o0 + pat_print(*self));
            },
            Pat::Tuple(x) => {
                append_copy(out, &x.attrs);
                let mut g: Vec<TokenTree> = Vec::new();
                assert(toks_v(g@) =~= Seq::<Tok>::empty()) by {
                    lemma_toks_v(g@);
                }
                elems_to_tokens(&x.elems, 0, &mut g);
                assert(x.elems@.subrange(0, x.elems@.len() as int) =~= x.elems@);
                push_tree(out, TokenTree::Group(Delimiter::Parenthesis, g));
                assert(toks_v(out@) =~= o0 + pat_print(*self));
            },
            Pat::TupleStruct(x) => {
                append_copy(out, &x.attrs);
                path_to_tokens(&x.path, out);
                let mut g: Vec<TokenTree> = Vec::new();
                assert(toks_v(g@) =~= Seq::<Tok>::empty()) by {
                    lemma_toks_v(g@);
                }
                elems_to_tokens(&x.elems, 0, &mut g);
                assert(x.elems@.subrange(0, x.elems@.len() as int) =~= x.elems@);
                push_tree(out, TokenTree::Group(Delimiter::Parenthesis, g));
                assert(toks_v(out@) =~= o0 + pat_print(*self));
            },
            Pat::Rest(x) => {
                append_copy(out, &x.attrs);
                push_symbol(out, '.', 2, x.dot2_token);
                assert(toks_v(out@) =~= o0 + pat_print(*self));
            },
            Pat::Type(x) => {
                append_copy(out, &x.attrs);
                x.pat.to_tokens(out);
                push_punct(out, ':', x.colon_token);
                append_copy(out, &x.ty);
                assert(toks_v(out@) =~= o0 + pat_print(*self));
            },
            Pat::Wild(x) => {
                append_copy(out, &x.attrs);
                push_word(out, "_");
                assert(toks_v(out@) =~= o0 + pat_print(*self));
            },
        }
    }
}

fn struct_body_tokens(x: &PatStruct) -> (g: Vec<TokenTree>)
    ensures
        toks_v(g@) == fields_print(x.fields@) + rest_comma(*x) + rest_print(x.rest),
    decreases *x, 0nat,
{
    let mut g: Vec<TokenTree> = Vec::new();
    assert(toks_v(g@) =~= Seq::<Tok>::empty()) by {
        lemma_toks_v(g@);
    }
    fields_to_tokens(&x.fields, 0, &mut g);
    let n = x.fields.len();
    if x.rest.is_some() && !(n == 0 || x.fields[n - 1].1.is_some()) {
        push_punct(&mut g, ',', Spacing::Alone);
    } else {
        assert(rest_comma(*x) =~= Seq::<Tok>::empty());
    }
    match &x.rest {
        Some(r) => {
            append_copy(&mut g, &r.attrs);
            push_symbol(&mut g, '.', 2, r.dot2_token);
        },
        None => {},
    }
    assert(x.fields@.subrange(0, x.fields@.len() as int) =~= x.fields@);
    assert(toks_v(g@) =~= fields_print(x.fields@) + rest_comma(*x) + rest_print(x.rest));
    g
}

fn elems_to_tokens(v: &Vec<(Pat, Option<Spacing>)>, i: usize, out: &mut Vec<TokenTree>)
    requires
        i <= v@.len(),
    ensures
        toks_v(final(out)@) == toks_v(old(out)@) + elems_print(v@.subrange(i as int, v@.len() as int)),
    decreases v@, v@.len() - i,
{
    let ghost t = v@.subrange(i as int, v@.len() as int);
    if i == v.len() {
        assert(toks_v(out@) =~= toks_v(out@) + elems_print(t));
        return;
    }
    assert(decreases_to!(v@ => v@[i as int]));
    v[i].0.to_tokens(out);
    push_sep(out, v[i].1, i + 1 < v.len());
    elems_to_tokens(v, i + 1, out);
    assert(t.subrange(1, t.len() as int) =~= v@.subrange(i + 1, v@.len() as int));
    assert(toks_v(out@) =~= toks_v(old(out)@) + elems_print(t));
}

impl FieldPat {
    /// Appends the tokens of the field: the member and colon only where
    /// the field was not written in short form.
    pub fn to_tokens(&self, out: &mut Vec<TokenTree>)
        ensures
            toks_v(final(out)@) == toks_v(old(out)@) + field_print(*self),
        decreases *self, 0nat,
    {
        let ghost o0 = toks_v(out@);
        append_copy(out, &self.attrs);
        if let Some(sp) = self.colon_token {
            match &self.member {
                Member::Named(n) => push_tree(out, TokenTree::Ident(n.clone())),
                Member::Unnamed(l) => push_tree(out, TokenTree::Literal(l.clone())),
            }
            push_punct(out, ':', sp);
        }
        self.pat.to_tokens(out);
        assert(toks_v(out@) =~= o0 + field_print(*self));
    }
}

fn fields_to_tokens(v: &Vec<(FieldPat, Option<Spacing>)>, i: usize, out: &mut Vec<TokenTree>)
    requires
        i <= v@.len(),
    ensures
        toks_v(final(out)@) == toks_v(old(out)@) + fields_print(v@.subrange(i as int, v@.len() as int)),
    decreases v@, v@.len() - i,
{
    let ghost t = v@.subrange(i as int, v@.len() as int);
    if i == v.len() {
        assert(toks_v(out@) =~= toks_v(out@) + fields_print(t));
        return;
    }
    assert(decreases_to!(v@ => v@[i as int]));
    v[i].0.to_tokens(out);
    push_sep(out, v[i].1, i + 1 < v.len());
    fields_to_tokens(v, i + 1, out);
    assert(t.subrange(1, t.len() as int) =~= v@.subrange(i + 1, v@.len() as int));
    assert(toks_v(out@) =~= toks_v(old(out)@) + fields_print(t));
}

} // verus!
