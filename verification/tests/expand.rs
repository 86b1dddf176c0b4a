use proc_macro2::{Delimiter as PD, Spacing as PS, TokenStream, TokenTree};
use structs_new::structs::ParseError;
use structs_new::token::{Delimiter, Spacing, Tok};
use structs_new::{struct_new, struct_new2, structs_new2, ExpandError};

fn to_toks(ts: TokenStream) -> Vec<Tok> {
    ts.into_iter()
        .map(|tt| match tt {
            TokenTree::Ident(i) => Tok::Ident(i.to_string()),
            TokenTree::Punct(p) => Tok::Punct(
                p.as_char(),
                if p.spacing() == PS::Joint { Spacing::Joint } else { Spacing::Alone },
            ),
            TokenTree::Literal(l) => Tok::Literal(l.to_string()),
            TokenTree::Group(g) => {
                let d = match g.delimiter() {
                    PD::Parenthesis => Delimiter::Parenthesis,
                    PD::Brace => Delimiter::Brace,
                    PD::Bracket => Delimiter::Bracket,
                    PD::None => Delimiter::Invisible,
                };
                Tok::Group(d, to_toks(g.stream()))
            }
        })
        .collect()
}

fn toks(src: &str) -> Vec<Tok> {
    to_toks(src.parse::<TokenStream>().unwrap())
}

fn text(toks: &[Tok]) -> String {
    let mut out = String::new();
    for (i, t) in toks.iter().enumerate() {
        if i > 0 {
            if let Tok::Punct(_, Spacing::Joint) = &toks[i - 1] {
            } else {
                out.push(' ');
            }
        }
        match t {
            Tok::Ident(s) | Tok::Literal(s) => out.push_str(s),
            Tok::Punct(c, _) => out.push(*c),
            Tok::Group(d, inner) => {
                let (o, c) = match d {
                    Delimiter::Parenthesis => ("(", ")"),
                    Delimiter::Brace => ("{", "}"),
                    Delimiter::Bracket => ("[", "]"),
                    Delimiter::Invisible => ("", ""),
                };
                out.push_str(o);
                out.push(' ');
                out.push_str(&text(inner));
                out.push(' ');
                out.push_str(c);
            }
        }
    }
    out
}

fn same_code(out: &[Tok], expected: &str) {
    let got = syn::parse_str::<syn::File>(&text(out)).expect("the expansion is Rust code");
    let want = syn::parse_str::<syn::File>(expected).unwrap();
    assert_eq!(got, want, "\n got: {}\nwant: {}", text(out), expected);
}

#[test]
fn struct_new_plain_struct() {
    let out = struct_new(toks(
        "#[derive(Debug)] struct A { foo: u8, pub bar: String, abc: u8 = 255, }",
    ))
    .unwrap();
    same_code(
        &out,
        "#[derive(Debug)] struct A { foo: u8, pub bar: String, abc: u8, }
         impl A<> { fn new(foo: u8, bar: String) -> Self { A { foo, bar, abc: 255, } } }",
    );
}

#[test]
fn struct_new_type_parameter() {
    let out = struct_new(toks(
        "#[derive(Debug)] struct B<T> { foo: u8, pub bar: T, abc: u8 = 255, }",
    ))
    .unwrap();
    same_code(
        &out,
        "#[derive(Debug)] struct B<T> { foo: u8, pub bar: T, abc: u8, }
         impl<T> B<T,> { fn new(foo: u8, bar: T) -> Self { B { foo, bar, abc: 255, } } }",
    );
}

#[test]
fn struct_new_lifetimes_and_where_clause() {
    let out = struct_new(toks(
        "struct G<'a, 'b, 'c: 'a + 'b> where 'a: 'b { foo: &'c str, pub bar: &'a str, abc: &'b str = \"\", }",
    ))
    .unwrap();
    same_code(
        &out,
        "struct G<'a, 'b, 'c: 'a + 'b> where 'a: 'b { foo: &'c str, pub bar: &'a str, abc: &'b str, }
         impl<'a, 'b, 'c: 'a + 'b> G<'a, 'b, 'c,> where 'a: 'b {
             fn new(foo: &'c str, bar: &'a str) -> Self { G { foo, bar, abc: \"\", } }
         }",
    );
}

#[test]
fn struct_new_bounds_with_associated_types() {
    let out = struct_new(toks(
        "struct F<I: Iterator> where I::Item: Copy { pub bar: I, abc: u8 = 255, }",
    ))
    .unwrap();
    same_code(
        &out,
        "struct F<I: Iterator> where I::Item: Copy { pub bar: I, abc: u8, }
         impl<I: Iterator> F<I,> where I::Item: Copy { fn new(bar: I) -> Self { F { bar, abc: 255, } } }",
    );
}

#[test]
fn struct_new_const_parameter_is_refused() {
    let r = struct_new(toks("struct C<const N: usize> { a: [u8; N], }"));
    assert_eq!(r.unwrap_err(), ExpandError::ConstGenericParam);
}

#[test]
fn struct_new2_uses_self_and_drops_parameter_defaults() {
    let out = struct_new2(toks(
        "pub struct D<'a, T = u8> { foo: &'a str, pub bar: T, abc: u8 = 255, }",
    ))
    .unwrap();
    same_code(
        &out,
        "pub struct D<'a, T> { foo: &'a str, pub bar: T, abc: u8, }
         impl<'a, T> D<'a, T> { pub fn new(foo: &'a str, bar: T) -> Self { Self { foo: foo, bar: bar, abc: 255 } } }",
    );
}

#[test]
fn struct_new2_const_parameter() {
    let out = struct_new2(toks("struct C<const N: usize> { a: [u8; N], b: u8 = N as u8 }")).unwrap();
    same_code(
        &out,
        "struct C<const N: usize> { a: [u8; N], b: u8, }
         impl<const N: usize> C<N> { fn new(a: [u8; N]) -> Self { Self { a: a, b: N as u8 } } }",
    );
}

#[test]
fn default_expressions_and_types_with_commas() {
    let out = struct_new2(toks(
        "struct M<K, V> { map: std::collections::HashMap<K, V> = Default::default(), f: fn(u8, u8) -> u8, g: u32 = foo::<K, V>(1, 2), }",
    ))
    .unwrap();
    same_code(
        &out,
        "struct M<K, V> { map: std::collections::HashMap<K, V>, f: fn(u8, u8) -> u8, g: u32, }
         impl<K, V> M<K, V> { fn new(f: fn(u8, u8) -> u8) -> Self {
             Self { map: Default::default(), f: f, g: foo::<K, V>(1, 2) } } }",
    );
}

#[test]
fn structs_new2_several_declarations() {
    let out = structs_new2(toks(
        "struct A { x: u8 = 1 }; #[derive(Clone)] pub(crate) struct B<T> where T: Copy { pub y: T, };",
    ))
    .unwrap();
    same_code(
        &out,
        "struct A { x: u8, } impl A { fn new() -> Self { Self { x: 1 } } }
         #[derive(Clone)] pub(crate) struct B<T> where T: Copy { pub y: T, }
         impl<T> B<T> where T: Copy { pub(crate) fn new(y: T) -> Self { Self { y: y } } }",
    );
}

#[test]
fn structs_new2_of_one_declaration_is_struct_new2() {
    let src = "struct H<T, R, F> where F: FnOnce(T) -> R { val: T, fun: F, }";
    assert_eq!(
        text(&structs_new2(toks(src)).unwrap()),
        text(&struct_new2(toks(src)).unwrap())
    );
}

#[test]
fn equal_sign_without_expression_gives_no_default() {
    // The `=` is read and dropped; the field stays a parameter of `new`.
    let out = struct_new2(toks("struct A { x: u8 = }")).unwrap();
    same_code(&out, "struct A { x: u8, } impl A { fn new(x: u8) -> Self { Self { x: x } } }");
}

#[test]
fn expression_without_equal_sign_gives_no_default() {
    let out = struct_new2(toks("struct A { x: u8 255 }")).unwrap();
    same_code(&out, "struct A { x: u8, } impl A { fn new(x: u8) -> Self { Self { x: x } } }");
}

#[test]
fn empty_struct() {
    let out = struct_new(toks("struct E {}")).unwrap();
    same_code(&out, "struct E {} impl E<> { fn new() -> Self { E {} } }");
}

#[test]
fn error_expected_struct() {
    assert_eq!(struct_new2(toks("enum A { x: u8 }")).err(), Some(ParseError::ExpectedStruct));
    assert_eq!(struct_new2(toks("")).err(), Some(ParseError::ExpectedStruct));
}

#[test]
fn error_expected_ident() {
    assert_eq!(struct_new2(toks("struct { x: u8 }")).err(), Some(ParseError::ExpectedIdent));
    assert_eq!(struct_new2(toks("struct A { fn: u8 }")).err(), Some(ParseError::ExpectedIdent));
}

#[test]
fn error_expected_colon() {
    assert_eq!(struct_new2(toks("struct A { x u8 }")).err(), Some(ParseError::ExpectedColon));
}

#[test]
fn error_expected_type() {
    assert_eq!(struct_new2(toks("struct A { x: }")).err(), Some(ParseError::ExpectedType));
    assert_eq!(struct_new2(toks("struct A { x: = 1 }")).err(), Some(ParseError::ExpectedType));
}

#[test]
fn error_expected_comma() {
    assert_eq!(struct_new2(toks("struct A { x: u8 ; y: u8 }")).err(), Some(ParseError::ExpectedComma));
    assert_eq!(struct_new2(toks("struct A<T U> { }")).err(), Some(ParseError::ExpectedComma));
}

#[test]
fn error_expected_braces() {
    assert_eq!(struct_new2(toks("struct A ( u8 )")).err(), Some(ParseError::ExpectedBraces));
    assert_eq!(struct_new2(toks("struct A")).err(), Some(ParseError::ExpectedBraces));
}

#[test]
fn error_expected_generic_param() {
    assert_eq!(struct_new2(toks("struct A<1> { }")).err(), Some(ParseError::ExpectedGenericParam));
}

#[test]
fn where_without_predicates_then_stray_token() {
    // syn reads a lone `where` as a where clause; the `1` after it is no brace group.
    assert_eq!(struct_new2(toks("struct A where 1 { }")).err(), Some(ParseError::ExpectedBraces));
}

#[test]
fn error_expected_semicolon() {
    assert_eq!(structs_new2(toks("struct A { } struct B { }")).err(), Some(ParseError::ExpectedSemicolon));
}

#[test]
fn error_unexpected_token() {
    assert_eq!(struct_new2(toks("struct A { } ;")).err(), Some(ParseError::UnexpectedToken));
    assert_eq!(struct_new(toks("struct A { } struct B { }")).err(), Some(ExpandError::Parse(ParseError::UnexpectedToken)));
}

#[test]
fn error_expected_attributes_and_visibility_are_syn_refusals() {
    // A lone `#` is not an outer attribute; syn still reads the empty text as
    // no attributes, so the parser goes on and finds no `struct`.
    assert_eq!(struct_new2(toks("# struct A { }")).err(), Some(ParseError::ExpectedStruct));
}


#[test]
fn lifetimes_are_printed_first() {
    let out = struct_new2(toks("struct R<T, 'a> { x: &'a T }")).unwrap();
    same_code(
        &out,
        "struct R<'a, T,> { x: &'a T, }
         impl<'a, T,> R<'a, T,> { fn new(x: &'a T) -> Self { Self { x: x } } }",
    );
    let out = struct_new(toks("struct R<T, 'a> { x: &'a T }")).unwrap();
    same_code(
        &out,
        "struct R<'a, T,> { x: &'a T, }
         impl<'a, T,> R<T, 'a,> { fn new(x: &'a T) -> Self { R { x, } } }",
    );
}

#[test]
fn where_without_predicates_is_left_out() {
    let out = struct_new2(toks("struct A where { x: u8 }")).unwrap();
    same_code(&out, "struct A { x: u8, } impl A { fn new(x: u8) -> Self { Self { x: x } } }");
}

#[test]
fn structs_new2_of_all_the_example_declarations() {
    let src = "
        #[derive(Debug)] struct A { foo: u8, pub bar: String, abc: u8 = 255, };
        #[derive(Debug)] struct B<T> { foo: u8, pub bar: T, abc: u8 = 255, };
        #[derive(Debug)] struct C<'a> { foo: &'a str, abc: u8 = 255, };
        #[derive(Debug)] struct D<'a, T> { foo: &'a str, pub bar: T, abc: u8 = 255, };
        #[derive(Debug)] struct E<T> where T: Copy { foo: u8, pub bar: T, abc: u8 = 255, };
        #[derive(Debug)] struct F<I: Iterator> where I::Item: Copy { pub bar: I, abc: u8 = 255, };
        #[derive(Debug)] struct G<'a, 'b, 'c: 'a+'b> { foo: &'c str, pub bar: &'a str, abc: &'b str = \"\", };
        struct H<T, R, F> where F: FnOnce(T) -> R { val: T, fun: F, };
    ";
    let out = structs_new2(toks(src)).unwrap();
    let file = syn::parse_str::<syn::File>(&text(&out)).unwrap();
    assert_eq!(file.items.len(), 16);
    let c = syn::parse_str::<syn::File>(
        "#[derive(Debug)] struct C<'a> { foo: &'a str, abc: u8, }
         impl<'a> C<'a> { fn new(foo: &'a str) -> Self { Self { foo: foo, abc: 255 } } }",
    )
    .unwrap();
    assert_eq!(file.items[4], c.items[0]);
    assert_eq!(file.items[5], c.items[1]);
    let h = syn::parse_str::<syn::File>(
        "struct H<T, R, F> where F: FnOnce(T) -> R { val: T, fun: F, }
         impl<T, R, F> H<T, R, F> where F: FnOnce(T) -> R { fn new(val: T, fun: F) -> Self { Self { val: val, fun: fun } } }",
    )
    .unwrap();
    assert_eq!(file.items[14], h.items[0]);
    assert_eq!(file.items[15], h.items[1]);
}

#[test]
fn trailing_comma_of_the_generic_parameters_is_kept() {
    let out = struct_new2(toks("struct B<'a, T,> { x: &'a T }")).unwrap();
    same_code(
        &out,
        "struct B<'a, T,> { x: &'a T, }
         impl<'a, T,> B<'a, T,> { fn new(x: &'a T) -> Self { Self { x: x } } }",
    );
    let out = struct_new2(toks("struct B<'a, T> { x: &'a T }")).unwrap();
    same_code(
        &out,
        "struct B<'a, T> { x: &'a T, }
         impl<'a, T> B<'a, T> { fn new(x: &'a T) -> Self { Self { x: x } } }",
    );
}

#[test]
fn colon_without_bounds_is_dropped() {
    let out = struct_new2(toks("struct B<'a:, T: = u8, U: Copy> { x: &'a T, y: U }")).unwrap();
    let s = text(&out);
    assert!(s.starts_with("struct B < 'a , T , U : Copy >"), "{}", s);
    same_code(
        &out,
        "struct B<'a, T, U: Copy> { x: &'a T, y: U, }
         impl<'a, T, U: Copy> B<'a, T, U> { fn new(x: &'a T, y: U) -> Self { Self { x: x, y: y } } }",
    );
    let out = struct_new(toks("struct B<'a:, T: = u8> { x: &'a T }")).unwrap();
    same_code(
        &out,
        "struct B<'a, T = u8> { x: &'a T, }
         impl<'a, T = u8> B<'a, T,> { fn new(x: &'a T) -> Self { B { x, } } }",
    );
}

#[test]
fn colon_without_bounds_before_comma_or_angle() {
    // syn stops reading the bounds at `,` or `>`: the parameters are accepted,
    // and printed without the `:`.
    let out = struct_new2(toks("struct B<'a:, T:> { x: &'a T }")).unwrap();
    same_code(
        &out,
        "struct B<'a, T> { x: &'a T, }
         impl<'a, T> B<'a, T> { fn new(x: &'a T) -> Self { Self { x: x } } }",
    );
    assert_eq!(
        struct_new2(toks("struct B<const N:> { }")).err(),
        Some(ParseError::ExpectedGenericParam)
    );
}

#[test]
fn plus_after_the_bounds_before_comma_or_angle() {
    let out = struct_new2(toks("struct S<'b, 'a: 'b +, T: Copy +> { x: &'a T, y: &'b u8 }")).unwrap();
    same_code(
        &out,
        "struct S<'b, 'a: 'b +, T: Copy +> { x: &'a T, y: &'b u8, }
         impl<'b, 'a: 'b +, T: Copy +> S<'b, 'a, T> { fn new(x: &'a T, y: &'b u8) -> Self { Self { x: x, y: y } } }",
    );
    assert_eq!(struct_new2(toks("struct S<T +> { }")).err(), Some(ParseError::ExpectedComma));
}

#[test]
fn comma_is_added_after_the_last_lifetime() {
    // The lifetime written last has no comma; one is put before the type
    // parameters that are printed after it.
    let out = struct_new2(toks("struct R<T, U, 'a> { x: &'a T, y: U }")).unwrap();
    let s = text(&out);
    assert!(s.starts_with("struct R < 'a , T , U , >"), "{}", s);
}

#[test]
fn c_string_literals_are_refused_before_syn_reads_them() {
    // syn 1 does not recognise C-string literals; they are refused, not read.
    assert_eq!(
        struct_new2(toks("struct A { x: &'static CStr = c\"abc\" }")).err(),
        Some(ParseError::ExpectedComma)
    );
    assert_eq!(
        struct_new2(toks("struct A { x: [u8; c\"x\".len()] }")).err(),
        Some(ParseError::ExpectedType)
    );
    // A `c` that ends a string literal is no C-string.
    let out = struct_new2(toks("struct A { x: &'static str = \"c\" }")).unwrap();
    same_code(
        &out,
        "struct A { x: &'static str, } impl A { fn new() -> Self { Self { x: \"c\" } } }",
    );
}

#[test]
fn invisible_group_is_read_as_one_type() {
    // `x: &$t` with `$t` a type `dyn A + B`, as a declarative macro passes it.
    let ty = Tok::Group(Delimiter::Invisible, toks("dyn A + B"));
    let mut fields = toks("x :");
    fields.push(Tok::Punct('&', Spacing::Alone));
    fields.push(ty);
    let mut input = toks("struct S");
    input.push(Tok::Group(Delimiter::Brace, fields));
    let out = struct_new2(input).unwrap();
    let s = text(&out).split_whitespace().collect::<String>();
    assert!(s.starts_with("structS{x:&dynA+B,}"), "{}", s);
    assert!(s.contains("fnnew(x:&dynA+B)->Self"), "{}", s);
}

#[test]
fn plus_before_the_default_of_a_type_parameter() {
    let out = struct_new2(toks("struct S<T: Copy + = u8> { x: T }")).unwrap();
    let s = text(&out).split_whitespace().collect::<String>();
    assert!(s.starts_with("structS<T:Copy+>{x:T,}impl<T:Copy+>S<T>"), "{}", s);
    let out = struct_new(toks("struct S<T: Copy + = u8> { x: T }")).unwrap();
    let s = text(&out).split_whitespace().collect::<String>();
    assert!(s.starts_with("structS<T:Copy+=u8>{x:T,}impl<T:Copy+=u8>S<T,>"), "{}", s);
}
