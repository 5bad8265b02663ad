use cpp_class::emit::push_span;
use cpp_class::items::non_virt::Kind;
use cpp_class::items::virt::{Kind as VirtKind, VirtFn, VirtFnArg, VirtFnArgKind};
use cpp_class::items::Items;
use cpp_class::parse::{Class, Generics, Inheritance};
use cpp_class::scan::Span;
use cpp_class::tokens::{Delim, Spacing, Tok};
use proc_macro2::{Delimiter, TokenStream, TokenTree};

fn flatten(ts: TokenStream, out: &mut Vec<Tok>) {
    for tt in ts {
        match tt {
            TokenTree::Ident(i) => out.push(Tok::Ident(i.to_string().chars().collect())),
            TokenTree::Literal(l) => out.push(Tok::Literal(l.to_string().chars().collect())),
            TokenTree::Punct(p) => out.push(Tok::Punct(
                p.as_char(),
                match p.spacing() {
                    proc_macro2::Spacing::Joint => Spacing::Joint,
                    proc_macro2::Spacing::Alone => Spacing::Alone,
                },
            )),
            TokenTree::Group(g) => {
                let d = match g.delimiter() {
                    Delimiter::Parenthesis => Delim::Paren,
                    Delimiter::Brace => Delim::Brace,
                    Delimiter::Bracket => Delim::Bracket,
                    Delimiter::None => Delim::Invisible,
                };
                out.push(Tok::Open(d));
                flatten(g.stream(), out);
                out.push(Tok::Close(d));
            }
        }
    }
}

fn lex(s: &str) -> Vec<Tok> {
    let mut out = Vec::new();
    flatten(s.parse::<TokenStream>().unwrap(), &mut out);
    out
}

fn show(toks: &[Tok]) -> String {
    let mut s = String::new();
    for t in toks {
        match t {
            Tok::Ident(c) | Tok::Literal(c) => s.extend(c.iter()),
            Tok::Punct(c, _) => s.push(*c),
            Tok::Open(Delim::Paren) => s.push('('),
            Tok::Open(Delim::Brace) => s.push('{'),
            Tok::Open(Delim::Bracket) => s.push('['),
            Tok::Close(Delim::Paren) => s.push(')'),
            Tok::Close(Delim::Brace) => s.push('}'),
            Tok::Close(Delim::Bracket) => s.push(']'),
            Tok::Open(Delim::Invisible) | Tok::Close(Delim::Invisible) => {}
        }
        s.push(' ');
    }
    s
}

fn text(toks: &Vec<Tok>, s: Span) -> String {
    let mut out = Vec::new();
    push_span(&mut out, toks, s);
    show(&out)
}

#[test]
fn items_are_split_by_storage() {
    let toks = lex("pub x: u8; virtual fn f(a: u8); use T as t; virtual use U as u;");
    let items = Items::parse(&toks, 0, toks.len()).ok().unwrap();
    assert_eq!(items.non_virt.len(), 2);
    assert_eq!(items.virt.len(), 2);
    match items.non_virt[0].kind {
        Kind::Field(f) => {
            assert_eq!(text(&toks, f.name), "x ");
            assert_eq!(text(&toks, f.ty), "u8 ");
        }
        _ => panic!("field expected"),
    }
    match items.virt[1].kind {
        VirtKind::Use(u) => assert_eq!(text(&toks, u.what), "U "),
        _ => panic!("use expected"),
    }
}

#[test]
fn field_item_prints_as_read() {
    let toks = lex("#[a] pub(crate) x: Vec<u8>;");
    let items = Items::parse(&toks, 0, toks.len()).ok().unwrap();
    let mut out = Vec::new();
    items.non_virt[0].to_tokens(&toks, &mut out);
    out.push(Tok::Punct(';', Spacing::Alone));
    assert_eq!(show(&out), show(&toks));
}

#[test]
fn use_item_prints_as_phantom_data() {
    let toks = lex("use fn(T) as t;");
    let items = Items::parse(&toks, 0, toks.len()).ok().unwrap();
    let mut out = Vec::new();
    items.non_virt[0].to_tokens(&toks, &mut out);
    assert_eq!(show(&out), show(&lex("t: ::core::marker::PhantomData<fn(T)>")));
}

#[test]
fn virtual_fn_prints_with_a_comma_after_each_parameter() {
    let toks = lex("virtual fn get(#[x] index: usize, ...) -> *const T;");
    let items = Items::parse(&toks, 0, toks.len()).ok().unwrap();
    let mut out = Vec::new();
    match &items.virt[0].kind {
        VirtKind::Fn(f) => {
            assert_eq!(f.inputs.len(), 2);
            assert!(matches!(f.inputs[1].kind, VirtFnArgKind::Variadic(_)));
            f.to_tokens(&toks, &mut out);
        }
        _ => panic!("function expected"),
    }
    assert_eq!(show(&out), show(&lex("fn get(#[x] index: usize, ..., ) -> *const T")));
}

#[test]
fn virtual_fn_reads_back_as_printed() {
    let toks = lex("fn get(#[x] index: Vec<u8>, (a, b): (u8, u8)) -> Option<&T>;");
    let (f, q) = VirtFn::parse(&toks, 0, toks.len()).ok().unwrap();
    assert_eq!(show(&toks[q..]), "; ");
    let mut out = Vec::new();
    f.to_tokens(&toks, &mut out);
    let (g, r) = VirtFn::parse(&out, 0, out.len()).ok().unwrap();
    assert_eq!(r, out.len());
    assert_eq!(g.inputs.len(), 2);
    assert_eq!(text(&out, g.name), text(&toks, f.name));
    assert_eq!(text(&out, g.output), text(&toks, f.output));
    let mut again = Vec::new();
    g.to_tokens(&out, &mut again);
    assert_eq!(show(&again), show(&out));
    assert_eq!(show(&out), show(&lex("fn get(#[x] index: Vec<u8>, (a, b): (u8, u8),) -> Option<&T>")));
}

#[test]
fn generics_list_each_parameter() {
    let toks = lex("<'a, T: Into<(u8, u16)> + 'a, const N: usize = 3,> x");
    let (g, q) = Generics::parse(&toks, 0, toks.len()).ok().unwrap();
    assert_eq!(g.params.len(), 3);
    assert_eq!(text(&toks, g.params[1]), show(&lex("T: Into<(u8, u16)> + 'a")));
    assert_eq!(show(&toks[q..]), "x ");
}

#[test]
fn no_generics() {
    let toks = lex("{ }");
    let (g, q) = Generics::parse(&toks, 0, toks.len()).ok().unwrap();
    assert_eq!(g.params.len(), 0);
    assert_eq!(q, 0);
}

#[test]
fn inheritance_list() {
    let toks = lex(": pub virtual a::B<T>, C, where T: Copy { }");
    let (inh, q) = Inheritance::parse_opt(&toks, 0, toks.len()).ok().unwrap();
    let inh = inh.unwrap();
    assert!(inh.base.is_virtual);
    assert_eq!(text(&toks, inh.base.path), show(&lex("a::B<T>")));
    assert_eq!(String::from_iter(inh.base.field_ident(&toks)), "inherited_a_b");
    assert_eq!(inh.rest.len(), 1);
    assert_eq!(show(&toks[q..]), show(&lex("where T: Copy { }")));
    let field = inh.rest[0].field(&toks, Span { start: 0, end: 0 });
    assert_eq!(show(&field), show(&lex("inherited_c: <C as ::NonVirtual>::This")));
}

#[test]
fn no_inheritance() {
    let toks = lex("{ }");
    let (inh, q) = Inheritance::parse_opt(&toks, 0, toks.len()).ok().unwrap();
    assert!(inh.is_none());
    assert_eq!(q, 0);
}

#[test]
fn class_covers_its_braces() {
    let toks = lex("#[derive(Debug)] pub S<T> where T: Copy { a: T; } rest");
    let (c, q) = Class::parse(&toks, 0, toks.len()).ok().unwrap();
    assert_eq!(text(&toks, c.name), "S ");
    assert_eq!(text(&toks, c.items_brace), show(&lex("{ a: T; }")));
    assert_eq!(c.items.non_virt.len(), 1);
    assert_eq!(show(&toks[q..]), "rest ");
}

#[test]
fn parameter_prints_as_read() {
    let toks = lex("#[x] (a, b): &(u8, u16), ");
    let (arg, q) = VirtFnArg::parse(&toks, 0, toks.len() - 1).ok().unwrap();
    let mut out = Vec::new();
    arg.to_tokens(&toks, &mut out);
    assert_eq!(show(&out), show(&toks[..q]));
    assert_eq!(q, toks.len() - 1);
}
