use cpp_class::error::{Expected, ParseError};
use cpp_class::expand::{ExpandError, Invocation};
use cpp_class::syntax::Syntax;
use cpp_class::tokens::{Delim, Spacing, Tok};
use proc_macro2::{Delimiter, TokenStream, TokenTree};

fn flatten(ts: TokenStream, out: &mut Vec<Tok>) {
    for tt in ts {
        match tt {
            TokenTree::Ident(i) => out.push(Tok::Ident(i.to_string().chars().collect())),
            TokenTree::Literal(l) => out.push(Tok::Literal(l.to_string().chars().collect())),
            TokenTree::Punct(p) => out.push(Tok::Punct(
                p.as_char(),
                match p.spacing() {
                    proc_macro2::Spacing::Joint => Spacing::Joint,
                    proc_macro2::Spacing::Alone => Spacing::Alone,
                },
            )),
            TokenTree::Group(g) => {
                let d = match g.delimiter() {
                    Delimiter::Parenthesis => Delim::Paren,
                    Delimiter::Brace => Delim::Brace,
                    Delimiter::Bracket => Delim::Bracket,
                    Delimiter::None => Delim::Invisible,
                };
                out.push(Tok::Open(d));
                flatten(g.stream(), out);
                out.push(Tok::Close(d));
            }
        }
    }
}

fn lex(s: &str) -> Vec<Tok> {
    let mut out = Vec::new();
    flatten(s.parse::<TokenStream>().unwrap(), &mut out);
    out
}

fn show(toks: &[Tok]) -> String {
    let mut s = String::new();
    for t in toks {
        match t {
            Tok::Ident(c) | Tok::Literal(c) => s.extend(c.iter()),
            Tok::Punct(c, _) => s.push(*c),
            Tok::Open(Delim::Paren) => s.push('('),
            Tok::Open(Delim::Brace) => s.push('{'),
            Tok::Open(Delim::Bracket) => s.push('['),
            Tok::Close(Delim::Paren) => s.push(')'),
            Tok::Close(Delim::Brace) => s.push('}'),
            Tok::Close(Delim::Bracket) => s.push(']'),
            Tok::Open(Delim::Invisible) | Tok::Close(Delim::Invisible) => {}
        }
        s.push(' ');
    }
    s
}

fn norm(s: &str) -> String {
    show(&lex(s))
}

fn expand(src: &str) -> Result<String, String> {
    let inv = Invocation::parse(lex(src)).map_err(|e| format!("{:?}", e))?;
    let out = inv.expand().map_err(|e| format!("{:?}", e))?;
    Ok(show(&out))
}

#[test]
fn non_virtual_class() {
    let got = expand("::cpp_class pub Vec3<T> { pub x: T; pub y: T; pub z: T; }").unwrap();
    let want = norm(
        "#[repr(C)] pub struct Vec3<T> { pub x: T, pub y: T, pub z: T, }
         unsafe impl<T> ::cpp_class::NonVirtual for Vec3<T,> { type This = Self; }",
    );
    assert_eq!(got, want);
}

#[test]
fn non_virtual_class_inherits() {
    let got = expand("::cpp_class pub Vec4<T>: pub Vec3<T> { pub w: T; }").unwrap();
    let want = norm(
        "unsafe impl<T> ::cpp_class::Inherits<Vec3<T>> for Vec4<T,> {}
         #[repr(C)] pub struct Vec4<T> {
             pub inherited_vec3: <Vec3<T> as ::cpp_class::NonVirtual>::This,
             pub w: T,
         }
         unsafe impl<T> ::cpp_class::NonVirtual for Vec4<T,> { type This = Self; }",
    );
    assert_eq!(got, want);
}

#[test]
fn concrete_subclass_without_items() {
    let got = expand("::cpp_class pub Vec3f: pub Vec3<f32> {}").unwrap();
    let want = norm(
        "unsafe impl<> ::cpp_class::Inherits<Vec3<f32>> for Vec3f<> {}
         #[repr(C)] pub struct Vec3f<> {
             pub inherited_vec3: <Vec3<f32> as ::cpp_class::NonVirtual>::This,
         }
         unsafe impl<> ::cpp_class::NonVirtual for Vec3f<> { type This = Self; }",
    );
    assert_eq!(got, want);
}

#[test]
fn virtual_class() {
    let got = expand("::cpp_class pub Index<T> { pub virtual fn get(index: usize) -> *const T; }").unwrap();
    let want = norm(
        "#[repr(C)] pub struct Index<T> {
             pub vtable: ::cpp_class::VTablePtr<IndexVt<T,>>,
             pub data: IndexData,
         }
         unsafe impl<T> ::cpp_class::Virtual for Index<T,> {
             type This = Self; type VTable = IndexVt<T,>; type Data = IndexData;
         }
         #[repr(C)] pub struct IndexVt<T> {
             pub get: ::cpp_class::virtual_fn! { fn(::cpp_class::This<Index<T,>>, index: usize) -> *const T },
         }
         impl<T> Copy for IndexVt<T,> {}
         impl<T> Clone for IndexVt<T,> { fn clone(&self) -> Self { *self } }
         #[repr(C)] pub struct IndexData<> {}",
    );
    assert_eq!(got, want);
}

#[test]
fn virtual_class_with_data() {
    let got = expand(
        "::cpp_class pub Length2<T> { pub virtual fn length() -> usize; pub elements: *mut T; pub length: usize; }",
    )
    .unwrap();
    let want = norm(
        "#[repr(C)] pub struct Length2<T> {
             pub vtable: ::cpp_class::VTablePtr<Length2Vt<T,>>,
             pub data: Length2Data<T,>,
         }
         unsafe impl<T> ::cpp_class::Virtual for Length2<T,> {
             type This = Self; type VTable = Length2Vt<T,>; type Data = Length2Data<T,>;
         }
         #[repr(C)] pub struct Length2Vt<T> {
             pub length: ::cpp_class::virtual_fn! { fn(::cpp_class::This<Length2<T,>>, ) -> usize },
         }
         impl<T> Copy for Length2Vt<T,> {}
         impl<T> Clone for Length2Vt<T,> { fn clone(&self) -> Self { *self } }
         #[repr(C)] pub struct Length2Data<T> { pub elements: *mut T, pub length: usize, }",
    );
    assert_eq!(got, want);
}

#[test]
fn virtual_bases_and_virtual_use() {
    let got = expand(
        "::cpp_class pub List<T>: pub virtual Length, pub virtual Index<T>, pub virtual IndexMut<T> {
             pub virtual use fn(T) as _t;
         }",
    )
    .unwrap();
    let want = norm(
        "unsafe impl<T> ::cpp_class::Inherits<Length> for List<T,> {}
         #[repr(C)] pub struct List<T> {
             pub vtable: ::cpp_class::VTablePtr<ListVt<T,>>,
             pub data: ListData<T,>,
         }
         unsafe impl<T> ::cpp_class::Virtual for List<T,> {
             type This = Self; type VTable = ListVt<T,>; type Data = ListData<T,>;
         }
         #[repr(C)] pub struct ListVt<T> {
             pub inherited_length: <Length as ::cpp_class::Virtual>::VTable,
             pub _t: ::cpp_class::Usage<fn(T)>,
         }
         impl<T> Copy for ListVt<T,> {}
         impl<T> Clone for ListVt<T,> { fn clone(&self) -> Self { *self } }
         #[repr(C)] pub struct ListData<T> {
             pub inherited_length: <Length as ::cpp_class::Virtual>::Data,
             pub inherited_index: <Index<T> as ::cpp_class::Virtual>::This,
             pub inherited_index_mut: <IndexMut<T> as ::cpp_class::Virtual>::This,
         }",
    );
    assert_eq!(got, want);
}

#[test]
fn non_virtual_use_item() {
    let got = expand("::cpp_class Marker<T> { use T as marker; }").unwrap();
    let want = norm(
        "#[repr(C)] struct Marker<T> { marker: ::core::marker::PhantomData<T>, }
         unsafe impl<T> ::cpp_class::NonVirtual for Marker<T,> { type This = Self; }",
    );
    assert_eq!(got, want);
}

#[test]
fn generic_arguments_keep_lifetimes_and_constants() {
    let got = expand("::cpp_class S<'a: 'b, 'b, #[x] T: Clone, const N: usize> where T: 'a { a: &'a [T; N]; }")
        .unwrap();
    let want = norm(
        "#[repr(C)] struct S<'a: 'b, 'b, #[x] T: Clone, const N: usize> where T: 'a { a: &'a [T; N], }
         unsafe impl<'a: 'b, 'b, #[x] T: Clone, const N: usize> ::cpp_class::NonVirtual
             for S<'a: 'b, 'b, #[x] T, const N: usize,> where T: 'a { type This = Self; }",
    );
    assert_eq!(got, want);
}

#[test]
fn field_names_are_snake_case() {
    let got = expand("::cpp_class C: a::FooBar<T>, HTTPServer {}").unwrap();
    assert!(got.contains(&norm("pub inherited_a_foo_bar")) || got.contains("inherited_a_foo_bar"));
    assert!(got.contains("inherited_h_t_t_p_server"));
}

#[test]
fn virtual_base_with_attributes_is_refused() {
    let err = Invocation::parse(lex("::cpp_class A: #[cfg(x)] virtual B { }")).unwrap().expand().unwrap_err();
    assert_eq!(err, ExpandError::BaseAttributes { at: 5 });
}

#[test]
fn missing_semicolon_is_refused() {
    let err = Invocation::parse(lex("::cpp_class A { x: u8 }")).err().unwrap();
    assert_eq!(err, ParseError { at: 8, expected: Expected::Punct(';') });
}

#[test]
fn keyword_name_is_refused() {
    let err = Invocation::parse(lex("::cpp_class pub fn { }")).err().unwrap();
    assert_eq!(err, ParseError { at: 4, expected: Expected::Ident });
}

#[test]
fn bad_item_start_is_refused() {
    let err = Invocation::parse(lex("::cpp_class A { 5; }")).err().unwrap();
    assert_eq!(err, ParseError { at: 5, expected: Expected::ItemStart });
}

#[test]
fn invalid_type_is_refused() {
    let err = Invocation::parse(lex("::cpp_class A { x: + ; }")).err().unwrap();
    assert_eq!(err, ParseError { at: 7, expected: Expected::Syntax(Syntax::Type) });
}

#[test]
fn trailing_tokens_are_refused() {
    let err = Invocation::parse(lex("::cpp_class A { } x")).err().unwrap();
    assert_eq!(err, ParseError { at: 6, expected: Expected::End });
}

#[test]
fn missing_braces_are_refused() {
    let err = Invocation::parse(lex("::cpp_class A ;")).err().unwrap();
    assert_eq!(err, ParseError { at: 4, expected: Expected::Group(Delim::Brace) });
}

#[test]
fn virtual_without_fn_is_refused() {
    let err = Invocation::parse(lex("::cpp_class A { virtual x(); }")).err().unwrap();
    assert_eq!(err, ParseError { at: 6, expected: Expected::Fn });
}

#[test]
fn use_without_as_is_refused() {
    let err = Invocation::parse(lex("::cpp_class A { use T; }")).err().unwrap();
    assert_eq!(err, ParseError { at: 7, expected: Expected::As });
}

#[test]
fn unclosed_generics_are_refused() {
    let err = Invocation::parse(lex("::cpp_class A<T { }")).err().unwrap();
    assert_eq!(err, ParseError { at: 5, expected: Expected::Syntax(Syntax::GenericParam) });
}

#[test]
fn variadic_virtual_function() {
    let got = expand("::cpp_class P { virtual fn printf(fmt: *const u8, ...) -> i32; }").unwrap();
    assert!(got.contains(&norm(
        "printf: ::cpp_class::virtual_fn! { fn(::cpp_class::This<P<>>, fmt: *const u8, ...) -> i32 },"
    )));
}

fn parse_err(src: &str) -> ParseError {
    Invocation::parse(lex(src)).err().unwrap()
}

#[test]
fn virtual_fn_without_parentheses_is_refused() {
    assert_eq!(parse_err("::cpp_class A { virtual fn f; }"), ParseError { at: 8, expected: Expected::Group(Delim::Paren) });
}

#[test]
fn pound_without_brackets_is_refused() {
    assert_eq!(parse_err("::cpp_class A { # x: u8; }"), ParseError { at: 6, expected: Expected::Group(Delim::Bracket) });
}

#[test]
fn malformed_attribute_is_refused() {
    assert_eq!(parse_err("::cpp_class A { #[a b] x: u8; }"), ParseError { at: 5, expected: Expected::Syntax(Syntax::OuterAttrs) });
}

#[test]
fn malformed_path_is_refused() {
    assert_eq!(parse_err("::cpp_class A: 5 { }"), ParseError { at: 5, expected: Expected::Syntax(Syntax::Path) });
}

#[test]
fn malformed_where_clause_is_refused() {
    assert_eq!(parse_err("::cpp_class A where 5 { }"), ParseError { at: 4, expected: Expected::Syntax(Syntax::WhereClause) });
}

#[test]
fn malformed_pattern_is_refused() {
    assert_eq!(parse_err("::cpp_class A { virtual fn f(+: u8); }"), ParseError { at: 9, expected: Expected::Syntax(Syntax::Pat) });
}

#[test]
fn malformed_return_type_is_refused() {
    assert_eq!(parse_err("::cpp_class A { virtual fn f() x; }"), ParseError { at: 10, expected: Expected::Syntax(Syntax::ReturnType) });
}

#[test]
fn malformed_use_target_is_refused() {
    assert_eq!(parse_err("::cpp_class A { use + as x; }"), ParseError { at: 6, expected: Expected::Syntax(Syntax::GenericArgument) });
}

#[test]
fn parameter_type_runs_to_the_next_comma() {
    assert_eq!(parse_err("::cpp_class A { virtual fn f(a: u8 b: u8); }"), ParseError { at: 11, expected: Expected::Syntax(Syntax::Type) });
}

#[test]
fn unclosed_group_is_refused() {
    let toks = vec![
        Tok::Punct(':', Spacing::Joint),
        Tok::Punct(':', Spacing::Alone),
        Tok::Ident("c".chars().collect()),
        Tok::Ident("A".chars().collect()),
        Tok::Open(Delim::Brace),
    ];
    assert_eq!(Invocation::parse(toks).err().unwrap(), ParseError { at: 4, expected: Expected::Closing });
}

#[test]
fn restricted_visibility_is_kept() {
    let got = expand("::cpp_class pub(crate) A { pub(super) x: u8; }").unwrap();
    assert!(got.starts_with(&norm("#[repr(C)] pub(crate) struct A<> { pub(super) x: u8, }")));
}

#[test]
fn parenthesized_group_that_is_no_visibility_is_refused() {
    assert_eq!(parse_err("::cpp_class pub (foo) A { }"), ParseError { at: 4, expected: Expected::Ident });
}

#[test]
fn non_ascii_field_names() {
    let got = expand("::cpp_class C: Ärger, İx {}").unwrap();
    assert!(got.contains("inherited_ärger"));
    assert!(got.contains("inherited_i\u{307}x"));
}

#[test]
fn attributes_on_a_non_virtual_base_are_kept() {
    let got = expand("::cpp_class A: #[cfg(x)] B { }").unwrap();
    assert!(got.contains(&norm("#[cfg(x)] inherited_b: <B as ::cpp_class::NonVirtual>::This,")));
}

#[test]
fn non_virtual_base_of_a_virtual_class_is_embedded_in_the_data() {
    let got = expand("::cpp_class A<T>: pub B, C { virtual fn f(); }").unwrap();
    assert!(got.starts_with(&norm("unsafe impl<T> ::cpp_class::Inherits<B> for A<T,> {}")));
    assert!(got.contains(&norm("pub data: AData<T,>,")));
    assert!(got.contains(&norm("type Data = AData<T,>;")));
    assert!(got.contains(&norm(
        "struct AVt<T> { f: ::cpp_class::virtual_fn! { fn(::cpp_class::This<A<T,>>, ) }, }"
    )));
    assert!(got.contains(&norm(
        "struct AData<T> { pub inherited_b: <B as ::cpp_class::NonVirtual>::This, inherited_c: <C as ::cpp_class::NonVirtual>::This, }"
    )));
}

#[test]
fn attributes_on_a_non_virtual_base_of_a_virtual_class_are_kept() {
    let got = expand("::cpp_class A: #[doc = \"b\"] B { virtual fn f(); }").unwrap();
    assert!(got.contains(&norm(
        "struct AData<> { #[doc = \"b\"] inherited_b: <B as ::cpp_class::NonVirtual>::This, }"
    )));
}

#[test]
fn virtual_base_with_items_is_embedded_first() {
    let got = expand("::cpp_class D: pub virtual B, C { virtual fn g(); x: u8; }").unwrap();
    assert!(got.contains(&norm(
        "struct DVt<> { pub inherited_b: <B as ::cpp_class::Virtual>::VTable, g: ::cpp_class::virtual_fn! { fn(::cpp_class::This<D<>>, ) }, }"
    )));
    assert!(got.contains(&norm(
        "struct DData<> { pub inherited_b: <B as ::cpp_class::Virtual>::Data, inherited_c: <C as ::cpp_class::NonVirtual>::This, x: u8, }"
    )));
}

#[test]
fn dollar_crate_path() {
    let mut toks = lex("pub A { }");
    toks.insert(0, Tok::Ident("$crate".chars().collect()));
    let out = Invocation::parse(toks).unwrap().expand().unwrap();
    assert!(show(&out).contains("$crate : : NonVirtual"));
}

#[test]
fn crate_path_with_generic_arguments() {
    let got = expand("::rt::a<u8>::b A { x: u8; }").unwrap();
    assert!(got.contains(&norm("unsafe impl<> ::rt::a<u8>::b::NonVirtual for A<> { type This = Self; }")));
}

#[test]
fn crate_path_with_turbofish() {
    let got = expand("::rt::a::<u8> A { }").unwrap();
    assert!(got.contains(&norm("unsafe impl<> ::rt::a::<u8>::NonVirtual for A<> { type This = Self; }")));
}

#[test]
fn unclosed_crate_path_arguments_are_refused() {
    assert_eq!(parse_err("::rt::a<u8 A { }"), ParseError { at: 0, expected: Expected::Syntax(Syntax::Path) });
}

#[test]
fn bare_where_prints_nothing() {
    let got = expand("::cpp_class A<T> where { x: T; }").unwrap();
    assert!(!got.contains("where"));
    assert!(got.contains(&norm("struct A<T> { x: T, }")));
    assert!(got.contains(&norm("unsafe impl<T> ::cpp_class::NonVirtual for A<T,> { type This = Self; }")));
}

#[test]
fn where_with_predicates_is_kept() {
    let got = expand("::cpp_class A<T> where T: Copy { x: T; }").unwrap();
    assert!(got.contains(&norm("struct A<T> where T: Copy { x: T, }")));
}

#[test]
fn unclosed_parameter_type_is_refused() {
    assert_eq!(
        parse_err("::cpp_class A { virtual fn f(x: Vec<u8); }"),
        ParseError { at: 11, expected: Expected::Syntax(Syntax::Type) }
    );
}
