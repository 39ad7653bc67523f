//! Paths in patterns: `a::b::c`, `::std::x`, `Self::X`, `Vec::<T>::new`.

use vstd::prelude::*;
use crate::cursor::{
    spacing_at,    colon2_at, err, is_colon2, is_plain_ident, is_punct, is_word_at, plain_ident_at, punct_at,
    spacing, symbol, syn_end, syn_end_spec, view_of, word_at, ErrorKind, Grammar, SyntaxError,
};
use crate::token::{
    append_copy, copy_run, lemma_toks_v, lemma_toks_v_push, toks_v, Spacing, Tok, TokenTree,
};

verus! {

/// One segment of a path: a name and the generic arguments written after
/// it, `::<T>` included, as tokens.
pub struct PathSegment {
    pub ident: String,
    pub arguments: Vec<TokenTree>,
}

/// A path: an optional leading `::` and one or more segments, each but the
/// last followed by a `::` (recorded by the spacing of its second colon).
pub struct Path {
    pub leading_colon: Option<Spacing>,
    pub segments: Vec<(PathSegment, Option<Spacing>)>,
}

pub open spec fn colon2_print(o: Option<Spacing>) -> Seq<Tok> {
    match o {
        Some(sp) => symbol(':', 2, sp),
        None => Seq::empty(),
    }
}

pub open spec fn segment_print(x: PathSegment) -> Seq<Tok> {
    seq![Tok::Ident(x.ident@)] + toks_v(x.arguments@)
}

pub open spec fn segments_print(v: Seq<(PathSegment, Option<Spacing>)>) -> Seq<Tok>
    decreases v.len(),
{
    if v.len() == 0 {
        Seq::empty()
    } else {
        segment_print(v[0].0) + colon2_print(v[0].1) + segments_print(v.subrange(1, v.len() as int))
    }
}

/// The tokens of a path.
pub open spec fn path_print(p: Path) -> Seq<Tok> {
    colon2_print(p.leading_colon) + segments_print(p.segments@)
}

/// Where the path segment at `p` ends. `self`, `super` and `crate` stand
/// alone; another name may be followed by `::<...>` generic arguments.
pub open spec fn segment_end(s: Seq<Tok>, p: int) -> Result<int, SyntaxError> {
    if word_at(s, p, "super"@) || word_at(s, p, "self"@) || word_at(s, p, "crate"@) {
        Ok(p + 1)
    } else if !(word_at(s, p, "Self"@) || plain_ident_at(s, p)) {
        err(p, ErrorKind::ExpectedIdent)
    } else if colon2_at(s, p + 1) && punct_at(s, p + 3, '<') {
        match syn_end_spec(Grammar::GenericArguments, s, p + 1) {
            Some(e) => Ok(e),
            None => err(p + 1, ErrorKind::Invalid(Grammar::GenericArguments)),
        }
    } else {
        Ok(p + 1)
    }
}

/// Where the `::`-separated segments from `p` on end.
pub open spec fn segments_end(s: Seq<Tok>, p: int) -> Result<int, SyntaxError>
    decreases s.len() - p,
{
    match segment_end(s, p) {
        Err(x) => Err(x),
        Ok(q) => if colon2_at(s, q) {
            segments_end(s, q + 2)
        } else {
            Ok(q)
        },
    }
}

/// Where the path at `pos` ends.
pub open spec fn path_end(s: Seq<Tok>, pos: int) -> Result<int, SyntaxError> {
    if colon2_at(s, pos) {
        segments_end(s, pos + 2)
    } else {
        segments_end(s, pos)
    }
}

/// The segment `x` is the one read at `p`: its name is the token there, and
/// its arguments are exactly the tokens that syn read after it.
pub open spec fn segment_parsed(x: PathSegment, s: Seq<Tok>, p: int) -> bool {
    segment_end(s, p) is Ok && 0 <= p < s.len() && s[p] == Tok::Ident(x.ident@) && toks_v(
        x.arguments@,
    ) == s.subrange(p + 1, segment_end(s, p)->Ok_0)
}

/// The segments `v` are those read from `p` on, one per name, each with the
/// `::` that follows it.
pub open spec fn segments_parsed(v: Seq<(PathSegment, Option<Spacing>)>, s: Seq<Tok>, p: int) -> bool
    decreases v.len(),
{
    v.len() > 0 && segment_parsed(v[0].0, s, p) && {
        let q = segment_end(s, p)->Ok_0;
        if colon2_at(s, q) {
            v[0].1 == Some(spacing_at(s, q + 1)) && segments_parsed(
                v.subrange(1, v.len() as int),
                s,
                q + 2,
            )
        } else {
            v.len() == 1 && v[0].1 is None
        }
    }
}

/// The path `x` is the one read at `pos`.
pub open spec fn path_parsed(x: Path, s: Seq<Tok>, pos: int) -> bool {
    if colon2_at(s, pos) {
        x.leading_colon == Some(spacing_at(s, pos + 1)) && segments_parsed(x.segments@, s, pos + 2)
    } else {
        x.leading_colon is None && segments_parsed(x.segments@, s, pos)
    }
}

fn parse_segment(toks: &Vec<TokenTree>, p: usize) -> (r: Result<(PathSegment, usize), SyntaxError>)
    requires
        p <= toks@.len(),
    ensures
        match segment_end(view_of(toks), p as int) {
            Ok(e) => r is Ok && r->Ok_0.1 == e && p < e <= toks@.len() && segment_print(r->Ok_0.0)
                == view_of(toks).subrange(p as int, e),
            Err(x) => r == Err::<(PathSegment, usize), SyntaxError>(x),
        },
        r is Ok ==> segment_parsed(r->Ok_0.0, view_of(toks), p as int),
{
    proof {
        lemma_toks_v(toks@);
    }
    let ghost s = view_of(toks);
    let n = toks.len();
    let special = is_word_at(toks, p, "super") || is_word_at(toks, p, "self") || is_word_at(
        toks,
        p,
        "crate",
    );
    if !special && !(is_word_at(toks, p, "Self") || is_plain_ident(toks, p)) {
        return Err(SyntaxError { at: p, kind: ErrorKind::ExpectedIdent });
    }
    let ident = match &toks[p] {
        TokenTree::Ident(n) => n.clone(),
        _ => {
            assert(false);
            return Err(SyntaxError { at: p, kind: ErrorKind::ExpectedIdent });
        },
    };
    let mut end = p + 1;
    if !special && is_colon2(toks, p + 1) && is_punct(toks, p + 3, '<') {
        match syn_end(toks, p + 1, Grammar::GenericArguments) {
            Some(e) => {
                end = e;
            },
            None => {
                return Err(
                    SyntaxError { at: p + 1, kind: ErrorKind::Invalid(Grammar::GenericArguments) },
                );
            },
        }
    }
    let arguments = copy_run(toks, p + 1, end);
    let seg = PathSegment { ident, arguments };
    assert(segment_print(seg) =~= s.subrange(p as int, end as int));
    Ok((seg, end))
}

fn parse_segments(toks: &Vec<TokenTree>, p: usize) -> (r: Result<
    (Vec<(PathSegment, Option<Spacing>)>, usize),
    SyntaxError,
>)
    requires
        p <= toks@.len(),
    ensures
        match segments_end(view_of(toks), p as int) {
            Ok(e) => r is Ok && r->Ok_0.1 == e && p < e <= toks@.len() && segments_print(
                r->Ok_0.0@,
            ) == view_of(toks).subrange(p as int, e),
            Err(x) => r == Err::<(Vec<(PathSegment, Option<Spacing>)>, usize), SyntaxError>(x),
        },
        r is Ok ==> segments_parsed(r->Ok_0.0@, view_of(toks), p as int),
    decreases toks@.len() - p,
{
    proof {
        lemma_toks_v(toks@);
    }
    let ghost s = view_of(toks);
    let n = toks.len();
    let (seg, q) = match parse_segment(toks, p) {
        Ok(x) => x,
        Err(x) => {
            return Err(x);
        },
    };
    if is_colon2(toks, q) {
        let sp = spacing(toks, q + 1);
        let (mut rest, e) = match parse_segments(toks, q + 2) {
            Ok(x) => x,
            Err(x) => {
                return Err(x);
            },
        };
        let ghost old_rest = rest@;
        rest.insert(0, (seg, Some(sp)));
        assert(rest@.subrange(1, rest@.len() as int) =~= old_rest);
        assert(s.subrange(p as int, e as int) =~= s.subrange(p as int, q as int) + symbol(':', 2, sp)
            + s.subrange(q + 2, e as int));
        Ok((rest, e))
    } else {
        let mut v: Vec<(PathSegment, Option<Spacing>)> = Vec::new();
        v.push((seg, None));
        assert(v@.subrange(1, 1) =~= Seq::<(PathSegment, Option<Spacing>)>::empty());
        assert(segments_print(v@.subrange(1, 1)) =~= Seq::<Tok>::empty());
        assert(segments_print(v@) =~= segment_print(v@[0].0));
        Ok((v, q))
    }
}

/// Parses the path at `pos`.
pub fn parse_path(toks: &Vec<TokenTree>, pos: usize) -> (r: Result<(Path, usize), SyntaxError>)
    requires
        pos <= toks@.len(),
    ensures
        match path_end(view_of(toks), pos as int) {
            Ok(e) => r is Ok && r->Ok_0.1 == e && pos < e <= toks@.len() && path_print(r->Ok_0.0)
                == view_of(toks).subrange(pos as int, e),
            Err(x) => r == Err::<(Path, usize), SyntaxError>(x),
        },
        r is Ok ==> path_parsed(r->Ok_0.0, view_of(toks), pos as int),
{
    proof {
        lemma_toks_v(toks@);
    }
    let ghost s = view_of(toks);
    let n = toks.len();
    if is_colon2(toks, pos) {
        let sp = spacing(toks, pos + 1);
        match parse_segments(toks, pos + 2) {
            Ok((segments, e)) => {
                let path = Path { leading_colon: Some(sp), segments };
                assert(s.subrange(pos as int, e as int) =~= symbol(':', 2, sp) + s.subrange(
                    pos + 2,
                    e as int,
                ));
                Ok((path, e))
            },
            Err(x) => Err(x),
        }
    } else {
        match parse_segments(toks, pos) {
            Ok((segments, e)) => {
                let path = Path { leading_colon: None, segments };
                assert(path_print(path) =~= s.subrange(pos as int, e as int));
                Ok((path, e))
            },
            Err(x) => Err(x),
        }
    }
}

/// Appends the tokens of `p`.
pub fn path_to_tokens(p: &Path, out: &mut Vec<TokenTree>)
    ensures
        toks_v(final(out)@) == toks_v(old(out)@) + path_print(*p),
{
    if let Some(sp) = p.leading_colon {
        push_colon2(out, sp);
    }
    assert(toks_v(out@) =~= toks_v(old(out)@) + colon2_print(p.leading_colon) + segments_prefix(
        p.segments@,
        0,
    ));
    let mut i: usize = 0;
    while i < p.segments.len()
        invariant
            i <= p.segments@.len(),
            toks_v(out@) == toks_v(old(out)@) + colon2_print(p.leading_colon) + segments_prefix(
                p.segments@,
                i as int,
            ),
        decreases p.segments.len() - i,
    {
        let (seg, sep) = &p.segments[i];
        let t = TokenTree::Ident(seg.ident.clone());
        proof {
            lemma_toks_v_push(out@, t);
        }
        out.push(t);
        append_copy(out, &seg.arguments);
        if let Some(sp) = sep {
            push_colon2(out, *sp);
        }
        proof {
            lemma_segments_prefix(p.segments@, i as int);
        }
        i = i + 1;
    }
    proof {
        lemma_segments_prefix_all(p.segments@);
    }
}

/// The tokens of the first `n` segments.
pub open spec fn segments_prefix(v: Seq<(PathSegment, Option<Spacing>)>, n: int) -> Seq<Tok>
    decreases n,
{
    if n <= 0 {
        Seq::empty()
    } else {
        segments_prefix(v, n - 1) + segment_print(v[n - 1].0) + colon2_print(v[n - 1].1)
    }
}

proof fn lemma_segments_prefix(v: Seq<(PathSegment, Option<Spacing>)>, i: int)
    requires
        0 <= i < v.len(),
    ensures
        segments_prefix(v, i + 1) == segments_prefix(v, i) + seq![Tok::Ident(v[i].0.ident@)]
            + toks_v(v[i].0.arguments@) + colon2_print(v[i].1),
{
    assert(segments_prefix(v, i + 1) =~= segments_prefix(v, i) + seq![Tok::Ident(v[i].0.ident@)]
        + toks_v(v[i].0.arguments@) + colon2_print(v[i].1));
}

proof fn lemma_segments_prefix_all(v: Seq<(PathSegment, Option<Spacing>)>)
    ensures
        segments_prefix(v, v.len() as int) == segments_print(v),
    decreases v.len(),
{
    if v.len() > 0 {
        let t = v.subrange(1, v.len() as int);
        lemma_segments_prefix_all(t);
        lemma_segments_prefix_shift(v, v.len() as int);
    }
}

proof fn lemma_segments_prefix_shift(v: Seq<(PathSegment, Option<Spacing>)>, n: int)
    requires
        1 <= n <= v.len(),
    ensures
        segments_prefix(v, n) == segment_print(v[0].0) + colon2_print(v[0].1) + segments_prefix(
            v.subrange(1, v.len() as int),
            n - 1,
        ),
    decreases n,
{
    if n > 1 {
        lemma_segments_prefix_shift(v, n - 1);
        let t = v.subrange(1, v.len() as int);
        assert(t[n - 2] == v[n - 1]);
        assert(segments_prefix(v, n) =~= segment_print(v[0].0) + colon2_print(v[0].1)
            + segments_prefix(t, n - 1));
    } else {
        assert(segments_prefix(v, 0) =~= Seq::<Tok>::empty());
        assert(segments_prefix(v.subrange(1, v.len() as int), 0) =~= Seq::<Tok>::empty());
        assert(segments_prefix(v, 1) =~= segment_print(v[0].0) + colon2_print(v[0].1));
    }
}

pub fn push_colon2(out: &mut Vec<TokenTree>, sp: Spacing)
    ensures
        toks_v(final(out)@) == toks_v(old(out)@) + symbol(':', 2, sp),
{
    crate::cursor::push_symbol(out, ':', 2, sp);
}

} // verus!
