use vstd::prelude::*;

verus! {

/// The delimiter of a group of tokens.
#[derive(Clone, Copy, Debug, PartialEq, Eq, Structural)]
pub enum Delimiter {
    Parenthesis,
    Brace,
    Bracket,
}

/// Whether a punctuation character is immediately followed by another one,
/// as the first `:` of `::` is.
#[derive(Clone, Copy, Debug, PartialEq, Eq, Structural)]
pub enum Spacing {
    Alone,
    Joint,
}

/// One token tree: an identifier (keywords included), a punctuation
/// character, a literal as written in the source, or a delimited group.
/// Each `Ident` and `Literal` holds the text of exactly one token, as a lexer
/// writes it: the grammars taken from syn read the tokens as that text.
#[derive(Debug)]
pub enum TokenTree {
    Ident(String),
    Punct(char, Spacing),
    Literal(String),
    Group(Delimiter, Vec<TokenTree>),
}

/// The mathematical value of a token tree.
pub enum Tok {
    Ident(Seq<char>),
    Punct(char, Spacing),
    Literal(Seq<char>),
    Group(Delimiter, Seq<Tok>),
}

/// The value of a sequence of token trees.
pub open spec fn toks_v(s: Seq<TokenTree>) -> Seq<Tok>
    decreases s,
{
    if s.len() == 0 {
        Seq::empty()
    } else {
        let head = match s[0] {
            TokenTree::Ident(n) => Tok::Ident(n@),
            TokenTree::Punct(c, sp) => Tok::Punct(c, sp),
            TokenTree::Literal(l) => Tok::Literal(l@),
            TokenTree::Group(d, v) => Tok::Group(d, toks_v(v@)),
        };
        seq![head] + toks_v(s.subrange(1, s.len() as int))
    }
}

/// The value of one token tree.
pub open spec fn tok_v(t: TokenTree) -> Tok {
    match t {
        TokenTree::Ident(n) => Tok::Ident(n@),
        TokenTree::Punct(c, sp) => Tok::Punct(c, sp),
        TokenTree::Literal(l) => Tok::Literal(l@),
        TokenTree::Group(d, v) => Tok::Group(d, toks_v(v@)),
    }
}

pub proof fn lemma_toks_v(s: Seq<TokenTree>)
    ensures
        toks_v(s).len() == s.len(),
        forall|i: int| 0 <= i < s.len() ==> #[trigger] toks_v(s)[i] == tok_v(s[i]),
    decreases s.len(),
{
    if s.len() > 0 {
        let t = s.subrange(1, s.len() as int);
        lemma_toks_v(t);
        assert forall|i: int| 0 <= i < s.len() implies #[trigger] toks_v(s)[i] == tok_v(s[i]) by {
            if i > 0 {
                assert(toks_v(s)[i] == toks_v(t)[i - 1]);
                assert(t[i - 1] == s[i]);
            }
        }
    }
}

pub proof fn lemma_toks_v_push(s: Seq<TokenTree>, t: TokenTree)
    ensures
        toks_v(s.push(t)) == toks_v(s).push(tok_v(t)),
{
    lemma_toks_v(s);
    lemma_toks_v(s.push(t));
    assert(toks_v(s.push(t)) =~= toks_v(s).push(tok_v(t)));
}

/// The characters that open and close a group.
pub open spec fn open_char(d: Delimiter) -> char {
    match d {
        Delimiter::Parenthesis => '(',
        Delimiter::Brace => '{',
        Delimiter::Bracket => '[',
    }
}

pub open spec fn close_char(d: Delimiter) -> char {
    match d {
        Delimiter::Parenthesis => ')',
        Delimiter::Brace => '}',
        Delimiter::Bracket => ']',
    }
}

/// Source text for a token sequence: each identifier, literal, group and
/// unjoined punctuation character is followed by a space, so that the text
/// reads back as the same token trees.
pub open spec fn render(s: Seq<Tok>) -> Seq<char>
    decreases s,
{
    if s.len() == 0 {
        Seq::empty()
    } else {
        let head = match s[0] {
            Tok::Ident(n) => n.push(' '),
            Tok::Punct(c, Spacing::Joint) => seq![c],
            Tok::Punct(c, Spacing::Alone) => seq![c, ' '],
            Tok::Literal(l) => l.push(' '),
            Tok::Group(d, inner) => seq![open_char(d), ' '] + render(inner) + seq![
                close_char(d),
                ' ',
            ],
        };
        head + render(s.subrange(1, s.len() as int))
    }
}

fn push_chars(out: &mut Vec<char>, s: &Vec<char>)
    ensures
        final(out)@ == old(out)@ + s@,
{
    let mut i: usize = 0;
    while i < s.len()
        invariant
            i <= s@.len(),
            out@ == old(out)@ + s@.subrange(0, i as int),
        decreases s.len() - i,
    {
        out.push(s[i]);
        i = i + 1;
        assert(s@.subrange(0, i as int) =~= s@.subrange(0, i - 1).push(s@[i - 1]));
    }
    assert(s@.subrange(0, s@.len() as int) =~= s@);
}

/// Relies on `str::chars`: the characters of a string, in order.
#[verifier::external_body]
fn chars_of(s: &String) -> (r: Vec<char>)
    ensures
        r@ == s@,
{
    s.chars().collect()
}

/// Appends the source text of `toks[from..]`.
pub fn render_from(toks: &Vec<TokenTree>, from: usize, out: &mut Vec<char>)
    requires
        from <= toks@.len(),
    ensures
        final(out)@ == old(out)@ + render(toks_v(toks@).subrange(from as int, toks@.len() as int)),
    decreases toks@, toks@.len() - from,
{
    proof {
        lemma_toks_v(toks@);
    }
    let ghost s = toks_v(toks@);
    if from == toks.len() {
        assert(s.subrange(from as int, s.len() as int) =~= Seq::<Tok>::empty());
        return;
    }
    let ghost sub = s.subrange(from as int, s.len() as int);
    assert(sub[0] == tok_v(toks@[from as int]));
    assert(sub.subrange(1, sub.len() as int) =~= s.subrange(from + 1, s.len() as int));
    match &toks[from] {
        TokenTree::Ident(n) => {
            let cs = chars_of(n);
            push_chars(out, &cs);
            out.push(' ');
        },
        TokenTree::Punct(c, sp) => {
            out.push(*c);
            if let Spacing::Alone = sp {
                out.push(' ');
            }
        },
        TokenTree::Literal(l) => {
            let cs = chars_of(l);
            push_chars(out, &cs);
            out.push(' ');
        },
        TokenTree::Group(d, inner) => {
            let (o, c) = match d {
                Delimiter::Parenthesis => ('(', ')'),
                Delimiter::Brace => ('{', '}'),
                Delimiter::Bracket => ('[', ']'),
            };
            out.push(o);
            out.push(' ');
            assert(decreases_to!(toks@ => toks@[from as int]));
            proof {
                lemma_toks_v(inner@);
                assert(toks_v(inner@).subrange(0, inner@.len() as int) =~= toks_v(inner@));
            }
            render_from(inner, 0, out);
            out.push(c);
            out.push(' ');
        },
    }
    assert(old(out)@ + render(sub) =~= out@ + render(s.subrange(from + 1, s.len() as int)));
    render_from(toks, from + 1, out);
    assert(out@ =~= old(out)@ + render(sub));
}

/// Whether the string holds exactly the characters of `k`.
pub fn is_word(s: &String, k: &str) -> (r: bool)
    ensures
        r == (s@ == k@),
{
    let t = k.to_owned();
    *s == t
}

/// A copy of a token tree.
pub fn copy_tree(t: &TokenTree) -> (r: TokenTree)
    ensures
        tok_v(r) == tok_v(*t),
    decreases *t,
{
    match t {
        TokenTree::Ident(n) => TokenTree::Ident(n.clone()),
        TokenTree::Punct(c, sp) => TokenTree::Punct(*c, *sp),
        TokenTree::Literal(l) => TokenTree::Literal(l.clone()),
        TokenTree::Group(d, v) => {
            let w = copy_run(v, 0, v.len());
            proof {
                lemma_toks_v(v@);
                assert(toks_v(v@).subrange(0, v@.len() as int) =~= toks_v(v@));
            }
            TokenTree::Group(*d, w)
        },
    }
}

/// A copy of `toks[a..b]`.
pub fn copy_run(toks: &Vec<TokenTree>, a: usize, b: usize) -> (r: Vec<TokenTree>)
    requires
        a <= b <= toks@.len(),
    ensures
        toks_v(r@) == toks_v(toks@).subrange(a as int, b as int),
    decreases toks, 0nat,
{
    let mut r: Vec<TokenTree> = Vec::new();
    let mut i = a;
    proof {
        lemma_toks_v(toks@);
    }
    while i < b
        invariant
            a <= i <= b <= toks@.len(),
            toks_v(toks@).len() == toks@.len(),
            toks_v(r@) == toks_v(toks@).subrange(a as int, i as int),
        decreases b - i,
    {
        assert(decreases_to!(toks => toks@[i as int]));
        let t = copy_tree(&toks[i]);
        proof {
            lemma_toks_v_push(r@, t);
            lemma_toks_v(toks@);
            assert(toks_v(toks@).subrange(a as int, i + 1) =~= toks_v(toks@).subrange(
                a as int,
                i as int,
            ).push(tok_v(toks@[i as int])));
        }
        r.push(t);
        i = i + 1;
    }
    r
}

/// Appends copies of all of `src` to `out`.
pub fn append_copy(out: &mut Vec<TokenTree>, src: &Vec<TokenTree>)
    ensures
        toks_v(final(out)@) == toks_v(old(out)@) + toks_v(src@),
{
    let mut i: usize = 0;
    proof {
        lemma_toks_v(src@);
    }
    while i < src.len()
        invariant
            i <= src@.len(),
            toks_v(src@).len() == src@.len(),
            toks_v(out@) == toks_v(old(out)@) + toks_v(src@).subrange(0, i as int),
        decreases src.len() - i,
    {
        let t = copy_tree(&src[i]);
        proof {
            lemma_toks_v_push(out@, t);
            lemma_toks_v(src@);
            assert(toks_v(src@).subrange(0, i + 1) =~= toks_v(src@).subrange(0, i as int).push(
                tok_v(src@[i as int]),
            ));
        }
        out.push(t);
        i = i + 1;
    }
    assert(toks_v(src@).subrange(0, src@.len() as int) =~= toks_v(src@));
}

/// Whether two token trees are equal.
pub fn tree_eq(a: &TokenTree, b: &TokenTree) -> (r: bool)
    ensures
        r == (tok_v(*a) == tok_v(*b)),
    decreases *a,
{
    match (a, b) {
        (TokenTree::Ident(x), TokenTree::Ident(y)) => *x == *y,
        (TokenTree::Literal(x), TokenTree::Literal(y)) => *x == *y,
        (TokenTree::Punct(c, sp), TokenTree::Punct(d, tp)) => *c == *d && *sp == *tp,
        (TokenTree::Group(d, v), TokenTree::Group(e, w)) => {
            if *d != *e {
                return false;
            }
            tokens_eq(v, w)
        },
        _ => false,
    }
}

/// Whether two token sequences are equal.
pub fn tokens_eq(a: &Vec<TokenTree>, b: &Vec<TokenTree>) -> (r: bool)
    ensures
        r == (toks_v(a@) == toks_v(b@)),
    decreases a@,
{
    proof {
        lemma_toks_v(a@);
        lemma_toks_v(b@);
    }
    if a.len() != b.len() {
        return false;
    }
    let mut i: usize = 0;
    while i < a.len()
        invariant
            i <= a@.len() == b@.len(),
            toks_v(a@).len() == a@.len(),
            toks_v(b@).len() == b@.len(),
            forall|j: int| 0 <= j < i ==> toks_v(a@)[j] == toks_v(b@)[j],
        decreases a.len() - i,
    {
        proof {
            lemma_toks_v(a@);
            lemma_toks_v(b@);
        }
        assert(decreases_to!(a@ => a@[i as int]));
        if !tree_eq(&a[i], &b[i]) {
            assert(toks_v(a@)[i as int] != toks_v(b@)[i as int]);
            return false;
        }
        i = i + 1;
    }
    assert(toks_v(a@) =~= toks_v(b@));
    true
}

} // verus!
