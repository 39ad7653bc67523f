//! Laws of the grammar.

use vstd::prelude::*;
use crate::cursor::{
    colon2_at, dot2_at, dot3_at, err, group_at, inner, plain_ident_at, punct_at, spacing_at, symbol,
    syn_end_spec, word_at, ErrorKind, Grammar,
};
use crate::func::{
    arg_spec, args_spec, item_spec, receiver_spec, receiver_taken, sig_spec, sig_tail_spec, typed_arg_spec,
    variadic_tail, ArgKind,
};
use crate::pat::{
    elems_spec, field_spec, index_at, opt, pat_spec, path_or_struct_spec, starts_binding,
    starts_path, struct_spec,
};
use crate::path::{
    path_end, segment_end, segments_end,
};
use crate::token::{
    Delimiter, Tok,
};

verus! {

/// The body of a function item is never looked into: whenever the item
/// parses, its last token is the braced body, and the printed item ends
/// with that very token, contents unchanged.
pub proof fn body_is_kept(s: Seq<Tok>)
    requires
        item_spec(s) is Ok,
    ensures
        s.len() > 0,
        group_at(s, s.len() - 1, Delimiter::Brace),
        item_spec(s)->Ok_0.len() > 0,
        item_spec(s)->Ok_0.last() == s.last(),
{
    let o = item_spec(s)->Ok_0;
    let a = syn_end_spec(Grammar::Attributes, s, 0)->Some_0;
    let v = syn_end_spec(Grammar::Visibility, s, a)->Some_0;
    let e = crate::func::sig_spec(s, v)->Ok_0.0;
    assert(o.last() == s[e]);
}

/// A receiver is accepted only as the first argument: where one parses
/// after another argument, the list fails at the receiver's `self`, with
/// one error for a second receiver and another for a receiver placed
/// later.
pub proof fn receiver_only_first(c: Seq<Tok>, q: int, has_receiver: bool)
    requires
        0 <= q < c.len(),
        syn_end_spec(Grammar::Attributes, c, q) is Some,
        !dot3_at(c, syn_end_spec(Grammar::Attributes, c, q)->Some_0),
        arg_spec(c, syn_end_spec(Grammar::Attributes, c, q)->Some_0) is Ok,
        arg_spec(c, syn_end_spec(Grammar::Attributes, c, q)->Some_0)->Ok_0.kind
            == ArgKind::Receiver,
    ensures
        args_spec(c, q, false, has_receiver) == err::<Seq<Tok>>(
            arg_spec(c, syn_end_spec(Grammar::Attributes, c, q)->Some_0)->Ok_0.self_at,
            if has_receiver {
                ErrorKind::UnexpectedSecondReceiver
            } else {
                ErrorKind::UnexpectedReceiver
            },
        ),
{
}

/// Whether the word `box` occurs nowhere in the tokens, groups included.
pub open spec fn no_box(s: Seq<Tok>) -> bool
    decreases s,
{
    s.len() == 0 || (match s[0] {
        Tok::Ident(n) => n != "box"@,
        Tok::Group(_, g) => no_box(g),
        _ => true,
    } && no_box(s.subrange(1, s.len() as int)))
}

proof fn lemma_no_box_at(s: Seq<Tok>, i: int)
    requires
        no_box(s),
        0 <= i < s.len(),
    ensures
        !word_at(s, i, "box"@),
        s[i] is Group ==> no_box(s[i]->Group_1),
    decreases s.len(),
{
    if i > 0 {
        let t = s.subrange(1, s.len() as int);
        lemma_no_box_at(t, i - 1);
        assert(t[i - 1] == s[i]);
    }
}

/// Whether the argument at `a` is written as a bare type with no pattern.
pub open spec fn bare_at(c: Seq<Tok>, a: int) -> bool {
    !receiver_taken(c, a) && plain_ident_at(c, a) && punct_at(c, a + 1, '<')
}

/// Whether some argument from `q` on is written as a bare type.
pub open spec fn args_bare(c: Seq<Tok>, q: int) -> bool
    decreases c.len() - q,
{
    if q >= c.len() {
        false
    } else {
        match syn_end_spec(Grammar::Attributes, c, q) {
            None => false,
            Some(a) => if dot3_at(c, a) {
                false
            } else if bare_at(c, a) {
                true
            } else {
                match arg_spec(c, a) {
                    Err(_) => false,
                    Ok(g) => g.kind != ArgKind::Variadic && q <= g.end && g.end < c.len()
                        && args_bare(c, g.end + 1),
                }
            },
        }
    }
}

/// Where the parentheses of the signature at `pos` stand.
pub open spec fn sig_paren(s: Seq<Tok>, pos: int) -> int {
    let q1 = pos + opt(word_at(s, pos, "const"@));
    let q2 = q1 + opt(word_at(s, q1, "async"@));
    let q3 = q2 + opt(word_at(s, q2, "unsafe"@));
    let q4 = syn_end_spec(Grammar::Abi, s, q3)->Some_0;
    syn_end_spec(Grammar::Generics, s, q4 + 2)->Some_0
}

/// Where the signature of the item `f` starts.
pub open spec fn item_sig_start(f: Seq<Tok>) -> int {
    syn_end_spec(
        Grammar::Visibility,
        f,
        syn_end_spec(Grammar::Attributes, f, 0)->Some_0,
    )->Some_0
}

/// Whether some argument of the item `f` is written as a bare type.
pub open spec fn item_has_bare_arg(f: Seq<Tok>) -> bool {
    args_bare(inner(f, sig_paren(f, item_sig_start(f))), 0)
}

proof fn lemma_segments(s: Seq<Tok>, p: int)
    requires
        0 <= p,
        segments_end(s, p) is Ok,
    ensures
        p < segments_end(s, p)->Ok_0 <= s.len(),
    decreases s.len() - p,
{
    let q = segment_end(s, p)->Ok_0;
    if colon2_at(s, q) {
        lemma_segments(s, q + 2);
    }
}

proof fn lemma_path(s: Seq<Tok>, pos: int)
    requires
        0 <= pos,
        path_end(s, pos) is Ok,
    ensures
        pos < path_end(s, pos)->Ok_0 <= s.len(),
{
    if colon2_at(s, pos) {
        lemma_segments(s, pos + 2);
    } else {
        lemma_segments(s, pos);
    }
}

proof fn lemma_pat(s: Seq<Tok>, pos: int)
    requires
        0 <= pos,
        no_box(s),
        pat_spec(s, pos) is Ok,
    ensures
        pos < pat_spec(s, pos)->Ok_0.0 <= s.len(),
        pat_spec(s, pos)->Ok_0.1 == s.subrange(pos, pat_spec(s, pos)->Ok_0.0),
    decreases s, s.len() - pos, 3nat,
{
    if starts_path(s, pos) {
        lemma_path_or_struct(s, pos);
    } else if word_at(s, pos, "_"@) {
        assert(s.subrange(pos, pos + 1) =~= seq![Tok::Ident("_"@)]);
    } else if starts_binding(s, pos) {
        let r = word_at(s, pos, "ref"@);
        let q1 = pos + opt(r);
        let m = word_at(s, q1, "mut"@);
        let q2 = q1 + opt(m);
        assert(pat_spec(s, pos)->Ok_0.1 =~= s.subrange(pos, q2 + 1));
    } else if punct_at(s, pos, '&') {
        let m = word_at(s, pos + 1, "mut"@);
        lemma_pat(s, pos + 1 + opt(m));
        let e = pat_spec(s, pos)->Ok_0.0;
        assert(pat_spec(s, pos)->Ok_0.1 =~= s.subrange(pos, e));
    } else if group_at(s, pos, Delimiter::Parenthesis) {
        lemma_no_box_at(s, pos);
        lemma_elems(inner(s, pos), 0);
        assert(inner(s, pos).subrange(0, inner(s, pos).len() as int) =~= inner(s, pos));
        assert(pat_spec(s, pos)->Ok_0.1 =~= s.subrange(pos, pos + 1));
    } else {
        assert(pat_spec(s, pos)->Ok_0.1 =~= s.subrange(pos, pos + 2));
    }
}

proof fn lemma_path_or_struct(s: Seq<Tok>, pos: int)
    requires
        0 <= pos,
        no_box(s),
        path_or_struct_spec(s, pos) is Ok,
    ensures
        pos < path_or_struct_spec(s, pos)->Ok_0.0 <= s.len(),
        path_or_struct_spec(s, pos)->Ok_0.1 == s.subrange(pos, path_or_struct_spec(s, pos)->Ok_0.0),
    decreases s, s.len() - pos, 2nat,
{
    lemma_path(s, pos);
    let e = path_end(s, pos)->Ok_0;
    if group_at(s, e, Delimiter::Brace) {
        lemma_no_box_at(s, e);
        lemma_struct(inner(s, e), 0);
        assert(inner(s, e).subrange(0, inner(s, e).len() as int) =~= inner(s, e));
        assert(path_or_struct_spec(s, pos)->Ok_0.1 =~= s.subrange(pos, e + 1));
    } else if group_at(s, e, Delimiter::Parenthesis) {
        lemma_no_box_at(s, e);
        lemma_elems(inner(s, e), 0);
        assert(inner(s, e).subrange(0, inner(s, e).len() as int) =~= inner(s, e));
        assert(path_or_struct_spec(s, pos)->Ok_0.1 =~= s.subrange(pos, e + 1));
    }
}

proof fn lemma_elems(c: Seq<Tok>, q: int)
    requires
        0 <= q,
        no_box(c),
        elems_spec(c, q) is Ok,
    ensures
        q <= c.len() ==> elems_spec(c, q)->Ok_0 == c.subrange(q, c.len() as int),
        q > c.len() ==> elems_spec(c, q)->Ok_0.len() == 0,
    decreases c, c.len() - q, 4nat,
{
    if q < c.len() {
        lemma_pat(c, q);
        let e = pat_spec(c, q)->Ok_0.0;
        if e < c.len() {
            lemma_elems(c, e + 1);
            assert(elems_spec(c, q)->Ok_0 =~= c.subrange(q, c.len() as int));
        }
    } else if q == c.len() {
        assert(c.subrange(q, q) =~= Seq::<Tok>::empty());
    }
}

#[verifier::rlimit(100)]
proof fn lemma_struct(c: Seq<Tok>, q: int)
    requires
        0 <= q,
        no_box(c),
        struct_spec(c, q) is Ok,
    ensures
        q <= c.len() ==> struct_spec(c, q)->Ok_0 == c.subrange(q, c.len() as int),
    decreases c, c.len() - q, 5nat,
{
    let n = c.len() as int;
    if q < n {
        let a = syn_end_spec(Grammar::Attributes, c, q)->Some_0;
        let o = struct_spec(c, q)->Ok_0;
        if dot2_at(c, a) {
            assert(o == c.subrange(q, a) + symbol('.', 2, spacing_at(c, a + 1)));
            assert(symbol('.', 2, spacing_at(c, a + 1)) =~= c.subrange(a, a + 2));
            assert(o =~= c.subrange(q, n));
        } else {
            lemma_field(c, a);
            let e = field_spec(c, a)->Ok_0.0;
            let fo = field_spec(c, a)->Ok_0.1;
            if e < n {
                lemma_struct(c, e + 1);
                let o2 = struct_spec(c, e + 1)->Ok_0;
                assert(o == c.subrange(q, a) + fo + seq![Tok::Punct(',', spacing_at(c, e))] + o2);
                assert(o =~= c.subrange(q, n));
            } else {
                assert(o == c.subrange(q, a) + fo);
                assert(o =~= c.subrange(q, n));
            }
        }
    } else if q == n {
        assert(c.subrange(q, q) =~= Seq::<Tok>::empty());
    }
}

proof fn lemma_field(c: Seq<Tok>, a: int)
    requires
        0 <= a,
        no_box(c),
        field_spec(c, a) is Ok,
    ensures
        a < field_spec(c, a)->Ok_0.0 <= c.len(),
        field_spec(c, a)->Ok_0.1 == c.subrange(a, field_spec(c, a)->Ok_0.0),
    decreases c, c.len() - a, 4nat,
{
    if a < c.len() {
        lemma_no_box_at(c, a);
    }
    let r = word_at(c, a, "ref"@);
    let q2 = a + opt(r);
    let m = word_at(c, q2, "mut"@);
    let q3 = q2 + opt(m);
    let any = r || m;
    let unnamed = !any && !plain_ident_at(c, q3) && index_at(c, q3);
    if (!any && punct_at(c, q3 + 1, ':')) || unnamed {
        lemma_pat(c, q3 + 2);
        let e = field_spec(c, a)->Ok_0.0;
        assert(field_spec(c, a)->Ok_0.1 =~= c.subrange(a, e));
    } else {
        assert(field_spec(c, a)->Ok_0.1 =~= c.subrange(a, q3 + 1));
    }
}

proof fn lemma_receiver(s: Seq<Tok>, pos: int)
    requires
        0 <= pos,
        receiver_spec(s, pos) is Ok,
    ensures
        pos < receiver_spec(s, pos)->Ok_0.0 <= s.len(),
        receiver_spec(s, pos)->Ok_0.1 == s.subrange(pos, receiver_spec(s, pos)->Ok_0.0),
{
    reveal(receiver_spec);
    let r = punct_at(s, pos, '&');
    let q = if r {
        syn_end_spec(Grammar::Lifetime, s, pos + 1)->Some_0
    } else {
        pos
    };
    let m = word_at(s, q, "mut"@);
    let q2 = q + opt(m);
    let e = receiver_spec(s, pos)->Ok_0.0;
    assert(receiver_spec(s, pos)->Ok_0.1 =~= s.subrange(pos, e));
}

proof fn lemma_arg(c: Seq<Tok>, a: int)
    requires
        0 <= a,
        no_box(c),
        arg_spec(c, a) is Ok,
        !bare_at(c, a),
    ensures
        a <= arg_spec(c, a)->Ok_0.end <= c.len(),
        arg_spec(c, a)->Ok_0.out == c.subrange(a, arg_spec(c, a)->Ok_0.end),
{
    reveal(arg_spec);
    reveal(typed_arg_spec);
    if receiver_taken(c, a) {
        lemma_receiver(c, a);
    } else {
        lemma_pat(c, a);
        let e = pat_spec(c, a)->Ok_0.0;
        let g = arg_spec(c, a)->Ok_0;
        assert(g.out =~= c.subrange(a, g.end));
    }
}

proof fn lemma_variadic_tail(c: Seq<Tok>, q: int, e: int)
    requires
        0 <= q <= e <= c.len(),
        variadic_tail(c, e, c.subrange(q, e)) is Ok,
    ensures
        variadic_tail(c, e, c.subrange(q, e))->Ok_0 == c.subrange(q, c.len() as int),
{
    assert(variadic_tail(c, e, c.subrange(q, e))->Ok_0 =~= c.subrange(q, c.len() as int));
}

#[verifier::rlimit(100)]
proof fn lemma_args(c: Seq<Tok>, q: int, first: bool, has_receiver: bool)
    requires
        0 <= q,
        no_box(c),
        args_spec(c, q, first, has_receiver) is Ok,
        !args_bare(c, q),
    ensures
        q <= c.len() ==> args_spec(c, q, first, has_receiver)->Ok_0 == c.subrange(
            q,
            c.len() as int,
        ),
    decreases c.len() - q,
{
    let n = c.len() as int;
    if q < n {
        let a = syn_end_spec(Grammar::Attributes, c, q)->Some_0;
        let o = args_spec(c, q, first, has_receiver)->Ok_0;
        if dot3_at(c, a) {
            assert(c.subrange(q, a) + symbol('.', 3, spacing_at(c, a + 2)) =~= c.subrange(q, a + 3));
            lemma_variadic_tail(c, q, a + 3);
        } else {
            lemma_arg(c, a);
            let g = arg_spec(c, a)->Ok_0;
            assert(c.subrange(q, a) + g.out =~= c.subrange(q, g.end));
            if g.kind == ArgKind::Variadic {
                lemma_variadic_tail(c, q, g.end);
            } else if g.end >= n {
                assert(o =~= c.subrange(q, n));
            } else {
                lemma_args(c, g.end + 1, false, has_receiver || g.kind == ArgKind::Receiver);
                let o2 = args_spec(c, g.end + 1, false, has_receiver || g.kind == ArgKind::Receiver)->Ok_0;
                assert(o == c.subrange(q, g.end) + seq![Tok::Punct(',', spacing_at(c, g.end))] + o2);
                assert(o =~= c.subrange(q, n));
            }
        }
    } else if q == n {
        assert(c.subrange(q, q) =~= Seq::<Tok>::empty());
    }
}

#[verifier::rlimit(100)]
proof fn lemma_sig(s: Seq<Tok>, pos: int)
    requires
        0 <= pos,
        no_box(s),
        sig_spec(s, pos) is Ok,
        !args_bare(inner(s, sig_paren(s, pos)), 0),
    ensures
        pos < sig_spec(s, pos)->Ok_0.0 <= s.len(),
        sig_spec(s, pos)->Ok_0.1 == s.subrange(pos, sig_spec(s, pos)->Ok_0.0),
{
    reveal(sig_spec);
    reveal(sig_tail_spec);
    let q1 = pos + opt(word_at(s, pos, "const"@));
    let q2 = q1 + opt(word_at(s, q1, "async"@));
    let q3 = q2 + opt(word_at(s, q2, "unsafe"@));
    let q4 = syn_end_spec(Grammar::Abi, s, q3)->Some_0;
    let g = syn_end_spec(Grammar::Generics, s, q4 + 2)->Some_0;
    assert(g == sig_paren(s, pos));
    lemma_no_box_at(s, g);
    lemma_args(inner(s, g), 0, true, false);
    assert(inner(s, g).subrange(0, inner(s, g).len() as int) =~= inner(s, g));
    let t = sig_tail_spec(s, g)->Ok_0;
    assert(t.1 =~= s.subrange(g, t.0));
    let w = sig_spec(s, pos)->Ok_0.0;
    assert(sig_spec(s, pos)->Ok_0.1 =~= s.subrange(pos, w));
}

proof fn lemma_item(f: Seq<Tok>)
    requires
        no_box(f),
        item_spec(f) is Ok,
        !item_has_bare_arg(f),
    ensures
        item_spec(f)->Ok_0 == f,
{
    let a = syn_end_spec(Grammar::Attributes, f, 0)->Some_0;
    let v = syn_end_spec(Grammar::Visibility, f, a)->Some_0;
    lemma_sig(f, v);
    let e = sig_spec(f, v)->Ok_0.0;
    assert(item_spec(f)->Ok_0 =~= f);
}

/// Round trip: printing what a function item parses to, parsing that again
/// and printing gives the same tokens, `print(parse(print(parse(f)))) ==
/// print(parse(f))`. Shown for items in which no argument is written as a
/// bare type and no struct pattern field uses `box`: the printed form of
/// those is the input itself, so the second parse reads what the first did,
/// and `ItemFn::parse` relates both trees to those same tokens
/// (`item_parsed`).
pub proof fn round_trip(f: Seq<Tok>)
    requires
        item_spec(f) is Ok,
        no_box(f),
        !item_has_bare_arg(f),
    ensures
        item_spec(f)->Ok_0 == f,
        item_spec(item_spec(f)->Ok_0) == item_spec(f),
{
    lemma_item(f);
}

} // verus!
