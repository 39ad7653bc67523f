use proc_macro2 as pm;
use syn_mid::{
    Delimiter, ErrorKind, FnArg, ItemFn, Member, Pat, Spacing, SyntaxError, TokenTree,
};

fn convert(ts: pm::TokenStream, out: &mut Vec<TokenTree>) {
    for t in ts {
        match t {
            pm::TokenTree::Ident(i) => out.push(TokenTree::Ident(i.to_string())),
            pm::TokenTree::Literal(l) => out.push(TokenTree::Literal(l.to_string())),
            pm::TokenTree::Punct(p) => {
                let sp = match p.spacing() {
                    pm::Spacing::Joint => Spacing::Joint,
                    pm::Spacing::Alone => Spacing::Alone,
                };
                out.push(TokenTree::Punct(p.as_char(), sp));
            }
            pm::TokenTree::Group(g) => {
                let d = match g.delimiter() {
                    pm::Delimiter::Parenthesis => Delimiter::Parenthesis,
                    pm::Delimiter::Brace => Delimiter::Brace,
                    pm::Delimiter::Bracket => Delimiter::Bracket,
                    pm::Delimiter::None => {
                        convert(g.stream(), out);
                        continue;
                    }
                };
                let mut inner = Vec::new();
                convert(g.stream(), &mut inner);
                out.push(TokenTree::Group(d, inner));
            }
        }
    }
}

fn toks(src: &str) -> Vec<TokenTree> {
    let ts: pm::TokenStream = src.parse().unwrap();
    let mut out = Vec::new();
    convert(ts, &mut out);
    out
}

fn show(v: &[TokenTree]) -> String {
    let mut s = String::new();
    for t in v {
        match t {
            TokenTree::Ident(i) => {
                s.push_str(i);
                s.push(' ');
            }
            TokenTree::Literal(l) => {
                s.push_str(l);
                s.push(' ');
            }
            TokenTree::Punct(c, sp) => {
                s.push(*c);
                if *sp == Spacing::Alone {
                    s.push(' ');
                }
            }
            TokenTree::Group(d, inner) => {
                let (o, c) = match d {
                    Delimiter::Parenthesis => ('(', ')'),
                    Delimiter::Brace => ('{', '}'),
                    Delimiter::Bracket => ('[', ']'),
                };
                s.push(o);
                s.push(' ');
                s.push_str(&show(inner));
                s.push(c);
                s.push(' ');
            }
        }
    }
    s
}

fn pat_of(src: &str) -> (Pat, usize, usize) {
    let t = toks(src);
    let (p, end) = Pat::parse_single(&t, 0).unwrap();
    (p, end, t.len())
}

fn pat_err(src: &str) -> SyntaxError {
    match Pat::parse_single(&toks(src), 0) {
        Ok(_) => panic!("parsed: {}", src),
        Err(e) => e,
    }
}

fn print_pat(p: &Pat) -> String {
    let mut out = Vec::new();
    p.to_tokens(&mut out);
    show(&out)
}

fn item(src: &str) -> ItemFn {
    ItemFn::parse(&toks(src)).unwrap()
}

fn item_err(src: &str) -> SyntaxError {
    match ItemFn::parse(&toks(src)) {
        Ok(_) => panic!("parsed: {}", src),
        Err(e) => e,
    }
}

fn print_item(f: &ItemFn) -> String {
    show(&f.to_token_vec())
}

fn ident_name(p: &Pat) -> String {
    match p {
        Pat::Ident(x) => x.ident.clone(),
        _ => panic!("not a binding"),
    }
}

#[test]
fn struct_pattern_short_fields() {
    let (p, end, len) = pat_of("Point { x, y }");
    assert_eq!(end, len);
    match &p {
        Pat::Struct(s) => {
            assert_eq!(s.fields.len(), 2);
            assert!(s.rest.is_none());
            let names = ["x", "y"];
            for (i, (f, _)) in s.fields.iter().enumerate() {
                assert!(f.colon_token.is_none());
                assert!(matches!(&f.member, Member::Named(n) if n == names[i]));
                assert_eq!(ident_name(&f.pat), names[i]);
            }
        }
        _ => panic!("not a struct pattern"),
    }
    assert_eq!(print_pat(&p), show(&toks("Point { x, y }")));
}

#[test]
fn struct_pattern_fields_with_colons_and_rest() {
    let src = "S { a: (b, _), ref mut c, 0: d, .. }";
    let (p, end, len) = pat_of(src);
    assert_eq!(end, len);
    match &p {
        Pat::Struct(s) => {
            assert_eq!(s.fields.len(), 3);
            assert!(s.fields[0].0.colon_token.is_some());
            assert!(matches!(&*s.fields[0].0.pat, Pat::Tuple(_)));
            assert!(s.fields[1].0.colon_token.is_none());
            match &*s.fields[1].0.pat {
                Pat::Ident(x) => assert!(x.by_ref && x.mutability && x.ident == "c"),
                _ => panic!("not a binding"),
            }
            assert!(matches!(&s.fields[2].0.member, Member::Unnamed(l) if l == "0"));
            assert!(s.rest.is_some());
        }
        _ => panic!("not a struct pattern"),
    }
    assert_eq!(print_pat(&p), show(&toks(src)));
}

#[test]
fn struct_pattern_box_field_is_read_and_dropped() {
    let (p, _, _) = pat_of("S { box x }");
    assert_eq!(print_pat(&p), show(&toks("S { x }")));
}

#[test]
fn struct_pattern_errors() {
    assert_eq!(pat_err("S { .., a }"), SyntaxError { at: 2, kind: ErrorKind::UnexpectedToken });
    assert_eq!(pat_err("S { 0u8: a }"), SyntaxError { at: 0, kind: ErrorKind::ExpectedMember });
    assert_eq!(pat_err("S { 0 }"), SyntaxError { at: 1, kind: ErrorKind::ExpectedPunct(':') });
    assert_eq!(pat_err("S { a b }"), SyntaxError { at: 1, kind: ErrorKind::ExpectedPunct(',') });
}

#[test]
fn struct_pattern_rest_gets_comma_when_printed() {
    let (p, _, _) = pat_of("S { a, .. }");
    let mut p = p;
    if let Pat::Struct(s) = &mut p {
        s.fields[0].1 = None;
    }
    assert_eq!(print_pat(&p), show(&toks("S { a, .. }")));
}

#[test]
fn path_struct_and_tuple_struct_share_a_prefix() {
    let (p, end, len) = pat_of("Color::Red");
    assert_eq!(end, len);
    assert!(matches!(p, Pat::Path(_)));
    let (p, _, _) = pat_of("Color::Red { .. }");
    match &p {
        Pat::Struct(s) => {
            assert!(s.fields.is_empty());
            assert!(s.rest.is_some());
            assert_eq!(s.path.segments.len(), 2);
        }
        _ => panic!("not a struct pattern"),
    }
    let (p, _, _) = pat_of("Color::Red(_)");
    match &p {
        Pat::TupleStruct(s) => {
            assert_eq!(s.elems.len(), 1);
            assert!(matches!(s.elems[0].0, Pat::Wild(_)));
        }
        _ => panic!("not a tuple struct pattern"),
    }
}

#[test]
fn binding_and_path_dispatch() {
    assert!(matches!(pat_of("x").0, Pat::Ident(_)));
    assert!(matches!(pat_of("self").0, Pat::Ident(_)));
    assert!(matches!(pat_of("Self").0, Pat::Path(_)));
    assert!(matches!(pat_of("::a::b").0, Pat::Path(_)));
    assert!(matches!(pat_of("self::a").0, Pat::Path(_)));
    assert!(matches!(pat_of("_").0, Pat::Wild(_)));
    let (p, _, _) = pat_of("ref mut x");
    match &p {
        Pat::Ident(x) => assert!(x.by_ref && x.mutability && x.ident == "x"),
        _ => panic!("not a binding"),
    }
}

#[test]
fn path_with_generic_arguments() {
    let src = "Foo::<u8, Vec<i32>>::Bar(x)";
    let (p, end, len) = pat_of(src);
    assert_eq!(end, len);
    match &p {
        Pat::TupleStruct(s) => {
            assert_eq!(s.path.segments.len(), 2);
            assert_eq!(s.path.segments[0].0.ident, "Foo");
            assert!(!s.path.segments[0].0.arguments.is_empty());
            assert_eq!(s.path.segments[1].0.ident, "Bar");
        }
        _ => panic!("not a tuple struct pattern"),
    }
    assert_eq!(print_pat(&p), show(&toks(src)));
}

#[test]
fn reference_and_tuple_patterns() {
    let src = "&mut (a, &b, _,)";
    let (p, end, len) = pat_of(src);
    assert_eq!(end, len);
    match &p {
        Pat::Reference(r) => {
            assert!(r.mutability);
            match &*r.pat {
                Pat::Tuple(t) => {
                    assert_eq!(t.elems.len(), 3);
                    assert!(t.elems[2].1.is_some());
                }
                _ => panic!("not a tuple"),
            }
        }
        _ => panic!("not a reference"),
    }
    assert_eq!(print_pat(&p), show(&toks(src)));
}

#[test]
fn pattern_stops_where_it_ends() {
    let t = toks("x: u8");
    let (p, end) = Pat::parse_single(&t, 0).unwrap();
    assert_eq!(end, 1);
    assert_eq!(ident_name(&p), "x");
}

#[test]
fn pattern_errors() {
    assert_eq!(pat_err("1"), SyntaxError { at: 0, kind: ErrorKind::ExpectedPattern });
    assert_eq!(pat_err("(a b)"), SyntaxError { at: 1, kind: ErrorKind::ExpectedPunct(',') });
}

#[test]
fn tuple_pattern_with_rest() {
    let (p, end, len) = pat_of("(a, .., z)");
    assert_eq!(end, len);
    match &p {
        Pat::Tuple(t) => {
            assert_eq!(t.elems.len(), 3);
            assert_eq!(ident_name(&t.elems[0].0), "a");
            assert!(matches!(t.elems[1].0, Pat::Rest(_)));
            assert_eq!(ident_name(&t.elems[2].0), "z");
        }
        _ => panic!("not a tuple"),
    }
    assert_eq!(print_pat(&p), show(&toks("(a, .., z)")));
    let mut p = p;
    if let Pat::Tuple(t) = &mut p {
        t.elems[0].1 = None;
    }
    assert_eq!(print_pat(&p), show(&toks("(a, .., z)")));
    let (p, _, _) = pat_of("Some(.., x)");
    assert!(matches!(&p, Pat::TupleStruct(t) if matches!(t.elems[0].0, Pat::Rest(_))));
}

#[test]
fn variadic_after_arguments() {
    let f = item("fn f(x: i32, ...) {}");
    assert_eq!(f.sig.inputs.len(), 1);
    let v = f.sig.variadic.as_ref().unwrap();
    assert!(v.pat.is_none());
    assert!(v.comma.is_none());
    let f = item("fn f(x: i32, y: &str, ...) {}");
    assert_eq!(f.sig.inputs.len(), 2);
    assert!(f.sig.inputs.iter().all(|(a, _)| matches!(a, FnArg::Typed(_))));
    assert!(f.sig.variadic.is_some());
    assert_eq!(
        item_err("fn f(x: i32 ...) {}"),
        SyntaxError { at: 3, kind: ErrorKind::ExpectedPunct(',') }
    );
}

#[test]
fn variadic_forms() {
    let f = item("fn f(...) {}");
    assert!(f.sig.inputs.is_empty());
    assert!(f.sig.variadic.is_some());
    let f = item("fn f(a: u8, rest: ...,) {}");
    let v = f.sig.variadic.as_ref().unwrap();
    assert!(v.pat.is_some());
    assert!(v.comma.is_some());
    assert_eq!(print_item(&f), show(&toks("fn f(a: u8, rest: ...,) {}")));
    assert_eq!(
        item_err("fn f(..., a: u8) {}"),
        SyntaxError { at: 4, kind: ErrorKind::UnexpectedToken }
    );
}

#[test]
fn missing_separators_are_printed() {
    let mut f = item("fn f(a: u8, S { x, y }: S) {}");
    f.sig.inputs[0].1 = None;
    if let FnArg::Typed(t) = &mut f.sig.inputs[1].0 {
        if let Pat::Struct(s) = &mut *t.pat {
            s.fields[0].1 = None;
        }
    }
    assert_eq!(print_item(&f), show(&toks("fn f(a: u8, S { x, y }: S) {}")));
}

#[test]
fn variadic_gets_comma_when_printed() {
    let mut f = item("fn f(x: i32, ...) {}");
    f.sig.inputs[0].1 = None;
    assert_eq!(print_item(&f), show(&toks("fn f(x: i32, ...) {}")));
}

#[test]
fn receiver_must_be_first() {
    assert_eq!(
        item_err("fn f(x: i32, &self) {}"),
        SyntaxError { at: 5, kind: ErrorKind::UnexpectedReceiver }
    );
    assert_eq!(
        item_err("fn f(&self, self) {}"),
        SyntaxError { at: 3, kind: ErrorKind::UnexpectedSecondReceiver }
    );
    assert_eq!(
        item_err("fn f(self, mut self) {}"),
        SyntaxError { at: 3, kind: ErrorKind::UnexpectedSecondReceiver }
    );
}

#[test]
fn receiver_forms() {
    let f = item("fn f(&'a mut self, x: u8) {}");
    match &f.sig.inputs[0].0 {
        FnArg::Receiver(r) => {
            assert!(r.reference.is_some());
            assert!(!r.reference.as_ref().unwrap().1.is_empty());
            assert!(r.mutability);
            assert!(r.colon_token.is_none());
            assert_eq!(show(&r.ty), "& 'a mut Self ");
        }
        _ => panic!("not a receiver"),
    }
    assert_eq!(print_item(&f), show(&toks("fn f(&'a mut self, x: u8) {}")));
    let f = item("fn f(self: Box<Self>) {}");
    match &f.sig.inputs[0].0 {
        FnArg::Receiver(r) => {
            assert!(r.colon_token.is_some());
            assert_eq!(show(&r.ty), show(&toks("Box<Self>")));
        }
        _ => panic!("not a receiver"),
    }
    let f = item("fn f(mut self) {}");
    match &f.sig.inputs[0].0 {
        FnArg::Receiver(r) => {
            assert!(r.mutability && r.reference.is_none());
            assert_eq!(show(&r.ty), show(&toks("Self")));
        }
        _ => panic!("not a receiver"),
    }
    assert_eq!(print_item(&f), show(&toks("fn f(mut self) {}")));
}

#[test]
fn receiver_with_other_type_prints_it() {
    let mut f = item("fn f(self) {}");
    if let FnArg::Receiver(r) = &mut f.sig.inputs[0].0 {
        r.ty = toks("Rc<Self>");
    }
    assert_eq!(print_item(&f), show(&toks("fn f(self: Rc<Self>) {}")));
}

#[test]
fn body_is_kept_verbatim() {
    let f = ItemFn::parse(&toks("fn f() { let = = ; }")).unwrap();
    assert_eq!(show(&f.block.stmts), show(&toks("let = = ;")));
    let body = "match x { 1 => {} _ => (a b c) } #[weird] ! ! ;";
    let f = item(&format!("fn g() {{ {} }}", body));
    assert_eq!(show(&f.block.stmts), show(&toks(body)));
    let printed = f.to_token_vec();
    match printed.last().unwrap() {
        TokenTree::Group(Delimiter::Brace, inner) => assert_eq!(show(inner), show(&toks(body))),
        _ => panic!("no body"),
    }
}

#[test]
fn item_round_trip() {
    let sources = [
        "#[inline] pub(crate) const unsafe fn f<T: Clone>(&self, (a, b): (T, T), S { x, .. }: S) -> Option<T> where T: Copy { body(); }",
        "async fn g<'a>(x: &'a mut [u8], mut y: Vec<Vec<u8>>) {}",
        "pub fn h(_: u8, ref z: u8, Point { x: px, y }: Point) -> ! { loop {} }",
        "unsafe fn v(fmt: *const u8, args: ...) -> i32 { 0 }",
    ];
    for src in sources.iter() {
        let f = item(src);
        let once = f.to_token_vec();
        assert_eq!(show(&once), show(&toks(src)));
        let g = ItemFn::parse(&once).unwrap();
        assert_eq!(show(&g.to_token_vec()), show(&once));
    }
}

#[test]
fn bare_type_argument_reads_as_wildcard() {
    let f = item("fn f(Vec<u8>) {}");
    match &f.sig.inputs[0].0 {
        FnArg::Typed(t) => {
            assert!(matches!(*t.pat, Pat::Wild(_)));
            assert_eq!(show(&t.ty), show(&toks("Vec<u8>")));
        }
        _ => panic!("not typed"),
    }
    let once = f.to_token_vec();
    assert_eq!(show(&once), show(&toks("fn f(_: Vec<u8>) {}")));
    let g = ItemFn::parse(&once).unwrap();
    assert_eq!(show(&g.to_token_vec()), show(&once));
}

#[test]
fn signature_parts() {
    let f = item("pub const async unsafe fn name<T>(t: T) -> T where T: Send {}");
    assert!(f.sig.constness && f.sig.asyncness && f.sig.unsafety);
    assert_eq!(f.sig.ident, "name");
    assert_eq!(show(&f.sig.generics), show(&toks("<T>")));
    assert_eq!(show(&f.sig.output), show(&toks("-> T")));
    assert_eq!(show(&f.sig.where_clause), show(&toks("where T: Send")));
    assert_eq!(show(&f.vis), show(&toks("pub")));
    assert!(f.sig.abi.is_empty());
}

#[test]
fn item_errors() {
    assert_eq!(item_err("f() {}"), SyntaxError { at: 0, kind: ErrorKind::ExpectedFn });
    assert_eq!(item_err("fn () {}"), SyntaxError { at: 1, kind: ErrorKind::ExpectedIdent });
    assert_eq!(item_err("fn r#type {}"), SyntaxError {
        at: 2,
        kind: ErrorKind::ExpectedGroup(Delimiter::Parenthesis)
    });
    assert_eq!(
        item_err("fn f()"),
        SyntaxError { at: 3, kind: ErrorKind::ExpectedGroup(Delimiter::Brace) }
    );
    assert_eq!(item_err("fn f() {} x"), SyntaxError { at: 4, kind: ErrorKind::UnexpectedToken });
    assert_eq!(item_err("fn f(x) {}"), SyntaxError { at: 1, kind: ErrorKind::ExpectedPunct(':') });
    assert_eq!(
        item_err("fn f(x: ) {}"),
        SyntaxError { at: 2, kind: ErrorKind::Invalid(syn_mid::Grammar::Type) }
    );
    assert_eq!(
        item_err("fn f() -> {}"),
        SyntaxError { at: 3, kind: ErrorKind::Invalid(syn_mid::Grammar::ReturnType) }
    );
}

#[test]
fn single_argument() {
    let t = toks("#[a] mut x: u8, y: u8");
    let (arg, end) = FnArg::parse(&t, 0).unwrap();
    assert_eq!(end, 6);
    match &arg {
        FnArg::Typed(pt) => {
            assert_eq!(show(&pt.attrs), show(&toks("#[a]")));
            match &*pt.pat {
                Pat::Ident(x) => assert!(x.mutability && x.ident == "x"),
                _ => panic!("not a binding"),
            }
        }
        _ => panic!("not typed"),
    }
    let t = toks("&self");
    assert!(matches!(FnArg::parse(&t, 0).unwrap().0, FnArg::Receiver(_)));
    let t = toks("x: ...");
    match FnArg::parse(&t, 0) {
        Err(e) => assert_eq!(e, SyntaxError { at: 2, kind: ErrorKind::Invalid(syn_mid::Grammar::Type) }),
        Ok(_) => panic!("a variadic is no argument here"),
    }
}

#[test]
fn receiver_followed_by_a_type_is_a_pattern() {
    let f = item("fn f(&self: &Self) {}");
    match &f.sig.inputs[0].0 {
        FnArg::Typed(t) => {
            assert!(matches!(&*t.pat, Pat::Reference(r) if matches!(&*r.pat, Pat::Ident(x) if x.ident == "self")));
            assert_eq!(show(&t.ty), show(&toks("&Self")));
        }
        _ => panic!("not typed"),
    }
    let t = toks("&self: &Self");
    let (arg, end) = FnArg::parse(&t, 0).unwrap();
    assert_eq!(end, t.len());
    assert!(matches!(arg, FnArg::Typed(_)));
}

#[test]
fn block_and_receiver_on_their_own() {
    let t = toks("{ a b } c");
    let (b, end) = syn_mid::Block::parse(&t, 0).unwrap();
    assert_eq!(end, 1);
    assert_eq!(show(&b.stmts), show(&toks("a b")));
    match syn_mid::Block::parse(&t, 1) {
        Err(e) => assert_eq!(e, SyntaxError { at: 1, kind: ErrorKind::ExpectedGroup(Delimiter::Brace) }),
        Ok(_) => panic!("no block there"),
    }
    let t = toks("&'a mut self");
    let (r, end) = syn_mid::Receiver::parse(&t, 0).unwrap();
    assert_eq!(end, t.len());
    assert!(r.mutability && r.reference.is_some() && r.colon_token.is_none());
    let t = toks("mut self: Box<Self>");
    let (r, end) = syn_mid::Receiver::parse(&t, 0).unwrap();
    assert_eq!(end, t.len());
    assert!(r.mutability && r.colon_token.is_some());
    assert_eq!(show(&r.ty), show(&toks("Box<Self>")));
}
