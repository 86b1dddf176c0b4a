use proc_macro2::{Delimiter as PD, Spacing as PS, TokenStream, TokenTree};
use structs_new::structs::{ident_into_path_with_generics, param_kind_of, NewItemStruct, ParamKind};
use structs_new::structs::NewFields;
use structs_new::structs2;
use structs_new::token::{Delimiter, Spacing, Tok};

fn to_toks(ts: TokenStream) -> Vec<Tok> {
    ts.into_iter()
        .map(|tt| match tt {
            TokenTree::Ident(i) => Tok::Ident(i.to_string()),
            TokenTree::Punct(p) => Tok::Punct(
                p.as_char(),
                if p.spacing() == PS::Joint { Spacing::Joint } else { Spacing::Alone },
            ),
            TokenTree::Literal(l) => Tok::Literal(l.to_string()),
            TokenTree::Group(g) => {
                let d = match g.delimiter() {
                    PD::Parenthesis => Delimiter::Parenthesis,
                    PD::Brace => Delimiter::Brace,
                    PD::Bracket => Delimiter::Bracket,
                    PD::None => Delimiter::Invisible,
                };
                Tok::Group(d, to_toks(g.stream()))
            }
        })
        .collect()
}

fn toks(src: &str) -> Vec<Tok> {
    to_toks(src.parse::<TokenStream>().unwrap())
}

fn text(toks: &[Tok]) -> String {
    let mut out = String::new();
    for (i, t) in toks.iter().enumerate() {
        if i > 0 {
            if let Tok::Punct(_, Spacing::Joint) = &toks[i - 1] {
            } else {
                out.push(' ');
            }
        }
        match t {
            Tok::Ident(s) | Tok::Literal(s) => out.push_str(s),
            Tok::Punct(c, _) => out.push(*c),
            Tok::Group(d, inner) => {
                let (o, c) = match d {
                    Delimiter::Parenthesis => ("(", ")"),
                    Delimiter::Brace => ("{", "}"),
                    Delimiter::Bracket => ("[", "]"),
                    Delimiter::Invisible => ("", ""),
                };
                out.push_str(o);
                out.push(' ');
                out.push_str(&text(inner));
                out.push(' ');
                out.push_str(c);
            }
        }
    }
    out
}

fn one(t: &Tok) -> String {
    text(std::slice::from_ref(t))
}

/// Writes the parsed declaration back, token by token.
fn written_back(m: &NewItemStruct) -> String {
    let mut parts: Vec<String> = Vec::new();
    parts.push(text(&m.attrs));
    parts.push(text(&m.vis));
    parts.push(one(&m.struct_token));
    parts.push(one(&m.ident));
    if let Some(lt) = &m.generics.lt_token {
        parts.push(one(lt));
    }
    for (i, p) in m.generics.params.iter().enumerate() {
        parts.push(text(&p.attrs));
        parts.push(text(&p.body));
        if let Some((eq, d)) = &p.default {
            parts.push(one(eq));
            parts.push(text(d));
        }
        if i < m.generics.commas.len() {
            parts.push(one(&m.generics.commas[i]));
        }
    }
    if let Some(gt) = &m.generics.gt_token {
        parts.push(one(gt));
    }
    if let Some(w) = &m.generics.where_clause {
        parts.push(text(w));
    }
    let mut fields: Vec<String> = Vec::new();
    for (i, f) in m.fields.named.iter().enumerate() {
        fields.push(text(&f.attrs));
        fields.push(text(&f.vis));
        fields.push(one(&f.ident));
        fields.push(one(&f.colon_token));
        fields.push(text(&f.ty));
        if let Some((eq, e)) = &f.init {
            fields.push(one(eq));
            fields.push(text(e));
        }
        fields.push(text(&f.discarded));
        if i < m.fields.commas.len() {
            fields.push(one(&m.fields.commas[i]));
        }
    }
    parts.push(format!("{{ {} }}", squash(&fields.join(" "))));
    squash(&parts.join(" "))
}

/// Writes a declaration read by `parse_multi` back, token by token.
fn written_back2(m: &structs2::NewItemStruct) -> String {
    let input = {
        let mut v: Vec<String> = Vec::new();
        v.push(text(&m.attrs));
        v.push(text(&m.vis));
        v.push(one(&m.struct_token));
        v.push(one(&m.ident));
        v.join(" ")
    };
    let mut parts = vec![squash(&input)];
    if let Some(lt) = &m.generics.lt_token {
        parts.push(one(lt));
        for (i, p) in m.generics.params.iter().enumerate() {
            parts.push(text(&p.body));
            if i < m.generics.commas.len() {
                parts.push(one(&m.generics.commas[i]));
            }
        }
        parts.push(one(m.generics.gt_token.as_ref().unwrap()));
    }
    if let Some(w) = &m.generics.where_clause {
        parts.push(text(w));
    }
    let mut fields: Vec<String> = Vec::new();
    for (i, f) in m.fields.named.iter().enumerate() {
        fields.push(text(&f.vis));
        fields.push(one(&f.ident));
        fields.push(one(&f.colon_token));
        fields.push(text(&f.ty));
        if let Some((eq, e)) = &f.init {
            fields.push(one(eq));
            fields.push(text(e));
        }
        if i < m.fields.commas.len() {
            fields.push(one(&m.fields.commas[i]));
        }
    }
    parts.push(format!("{{{}}}", squash(&fields.join(" "))));
    squash(&parts.join(" "))
}

/// The text without spaces, to compare token sequences whatever their spacing.
fn squash(s: &str) -> String {
    s.chars().filter(|c| !c.is_whitespace()).collect()
}

#[test]
fn parse_keeps_every_token() {
    for src in [
        "#[derive(Debug)] pub struct A<'a, T: Iterator<Item = u8> = std::vec::IntoIter<u8>,> where T: Clone { #[doc = \"x\"] pub(crate) a: &'a str = \"\", b: T, c: u8 255, d: u8 = , }",
        "struct B { }",
        "struct C<const N: usize = 3> { x: [u8; N] = [0; N] }",
    ] {
        let input = toks(src);
        let (m, n) = NewItemStruct::parse(&input, 0, input.len()).unwrap();
        assert_eq!(n, input.len());
        assert_eq!(written_back(&m), squash(&text(&input)));
    }
}

#[test]
fn parse_reads_defaults_and_discarded_tokens() {
    let input = toks("struct A { a: u8 = 1, b: u8 2, c: u8 =, d: Vec<u8> }");
    let (m, _) = NewItemStruct::parse(&input, 0, input.len()).unwrap();
    let f = &m.fields.named;
    assert_eq!(f.len(), 4);
    assert_eq!(text(&f[0].init.as_ref().unwrap().1), "1");
    assert!(f[0].discarded.is_empty());
    assert!(f[1].init.is_none());
    assert_eq!(text(&f[1].discarded), "2");
    assert!(f[2].init.is_none());
    assert_eq!(text(&f[2].discarded), "=");
    assert_eq!(squash(&text(&f[3].ty)), "Vec<u8>");
    assert_eq!(m.fields.commas.len(), 3);
}

#[test]
fn generic_parameters_split_into_body_and_default() {
    let input = toks("struct P<#[a] 'x: 'y, T: Iterator<Item = u8> = Foo<Item = u8>, const N: u8 = 1> { }");
    let (m, _) = NewItemStruct::parse(&input, 0, input.len()).unwrap();
    let ps = &m.generics.params;
    assert_eq!(ps.len(), 3);
    assert_eq!(squash(&text(&ps[0].attrs)), "#[a]");
    assert_eq!(param_kind_of(&ps[0]), ParamKind::Lifetime);
    assert_eq!(squash(&text(&ps[1].body)), "T:Iterator<Item=u8>");
    assert_eq!(squash(&text(&ps[1].default.as_ref().unwrap().1)), "Foo<Item=u8>");
    assert_eq!(param_kind_of(&ps[1]), ParamKind::Type);
    assert_eq!(param_kind_of(&ps[2]), ParamKind::Const);
    assert_eq!(text(&ps[2].default.as_ref().unwrap().1), "1");
}

#[test]
fn path_with_generics_names_each_parameter() {
    let input = toks("struct P<'a, T: Copy = u8, U> { }");
    let (m, _) = NewItemStruct::parse(&input, 0, input.len()).unwrap();
    let ident = Tok::Ident("P".to_string());
    let path = ident_into_path_with_generics(ident, m.generics);
    assert_eq!(squash(&text(&path)), "P<'a,T,U,>");
}

#[test]
fn new_takes_the_fields_without_default_in_order() {
    let input = toks("struct A { a: u8 = 1, b: u16, c: u32 = 3, d: u64, }");
    let (m, _) = NewItemStruct::parse(&input, 0, input.len()).unwrap();
    let (_, item_impl) = m.split();
    let s = squash(&text(&item_impl));
    assert!(s.contains("fnnew(b:u16,d:u64)->Self"), "{}", s);
    assert!(s.contains("A{a:1,b,c:3,d,}"), "{}", s);
}

#[test]
fn expansions_agree() {
    let src = "#[derive(Debug)] pub struct A<'a, T: Copy> where T: Default { pub a: &'a T, b: T = T::default(), }";
    let input = toks(src);
    let (m1, _) = NewItemStruct::parse(&input, 0, input.len()).unwrap();
    let (m2, _) = structs2::NewItemStruct::parse(&input, 0, input.len()).unwrap();
    let (s1, i1) = m1.split();
    let (s2, i2) = m2.split();
    assert_eq!(text(&s1), text(&s2));
    assert_eq!(
        squash(&text(&i1)),
        "impl<'a,T:Copy>A<'a,T,>whereT:Default{pubfnnew(a:&'aT)->Self{A{a,b:T::default(),}}}"
    );
    assert_eq!(
        squash(&text(&i2)),
        "impl<'a,T:Copy>A<'a,T>whereT:Default{pubfnnew(a:&'aT)->Self{Self{a:a,b:T::default()}}}"
    );
}

#[test]
fn self_type_paths_agree() {
    for (src, path2) in [("struct P<'a, T> { }", "P<'a,T>"), ("struct P<'a, T,> { }", "P<'a,T,>")] {
        let input = toks(src);
        let (m1, _) = NewItemStruct::parse(&input, 0, input.len()).unwrap();
        let (m2, _) = structs2::NewItemStruct::parse(&input, 0, input.len()).unwrap();
        let i1 = squash(&text(&m1.split().1));
        let i2 = squash(&text(&m2.split().1));
        assert!(i1.contains(">P<'a,T,>{"), "{}", i1);
        assert!(i2.contains(&format!(">{}{{", path2)), "{}", i2);
    }
}

#[test]
fn field_splits_agree() {
    let inner = toks("a: u8 = 1, pub b: u16");
    let fields = NewFields::parse(&inner).unwrap();
    for f in fields.named.iter() {
        let ((arg1, v1), p1) = f.split();
        let ((arg2, v2), p2) = structs2::split_local(f);
        assert_eq!(arg1.map(|a| text(&a)), arg2.map(|a| text(&a)));
        assert_eq!(text(&p1), text(&p2));
        let (v1, v2) = (squash(&text(&v1)), squash(&text(&v2)));
        if f.init.is_none() {
            assert_eq!(format!("{}:{}", v1, v1), v2);
        } else {
            assert_eq!(v1, v2);
        }
    }
}

#[test]
fn field_values_agree() {
    let input = toks("struct A { a: u8 = 1, b: u16, }");
    let (m1, _) = NewItemStruct::parse(&input, 0, input.len()).unwrap();
    let (m2, _) = structs2::NewItemStruct::parse(&input, 0, input.len()).unwrap();
    assert!(squash(&text(&m1.split().1)).contains("A{a:1,b,}"));
    assert!(squash(&text(&m2.split().1)).contains("Self{a:1,b:b}"));
}

#[test]
fn multi_parse_keeps_every_token() {
    let src = "struct A { x: u8 = 1 }; pub struct B<T> where T: Copy { y: T, }";
    for (input, n, trailing) in [
        (toks(src), 2, false),
        (toks(&format!("{};", src)), 2, true),
        (toks(""), 0, false),
        (toks("struct A { };"), 1, true),
    ] {
        let list = structs2::NewItemStruct::parse_multi(&input).unwrap();
        assert_eq!(list.len(), n);
        assert_eq!(list.is_empty(), n == 0);
        assert_eq!(list.trailing_punct(), trailing);
        assert_eq!(list.semis.len(), if trailing { n } else { n.saturating_sub(1) });
        let mut parts: Vec<String> = Vec::new();
        for (i, m) in list.items.iter().enumerate() {
            parts.push(written_back2(m));
            if i < list.semis.len() {
                parts.push(one(&list.semis[i]));
            }
        }
        assert_eq!(parts.join(""), squash(&text(&input)));
    }
}

#[test]
fn multi_parse_errors() {
    let input = toks("struct A { } struct B { }");
    assert_eq!(
        structs2::NewItemStruct::parse_multi(&input).err(),
        Some(structs_new::structs::ParseError::ExpectedSemicolon)
    );
    let input = toks(";");
    assert!(structs2::NewItemStruct::parse_multi(&input).is_err());
}

#[test]
fn same_struct_without_generics() {
    let src = "#[derive(Debug)] pub struct A { pub a: u8 = 1, b: String, }";
    let input = toks(src);
    let (m1, _) = NewItemStruct::parse(&input, 0, input.len()).unwrap();
    let (m2, _) = structs2::NewItemStruct::parse(&input, 0, input.len()).unwrap();
    let s1 = text(&m1.split().0);
    let s2 = text(&m2.split().0);
    assert_eq!(s1, s2);
    assert_eq!(squash(&s1), "#[derive(Debug)]pubstructA{puba:u8,b:String,}");
}

#[test]
fn struct_keeps_attributes_and_visibility() {
    let input = toks("#[derive(Debug)] #[repr(C)] pub(crate) struct A<T> { #[doc = \"f\"] pub x: T = Default::default() }");
    let (m, _) = structs2::NewItemStruct::parse(&input, 0, input.len()).unwrap();
    let (item_struct, item_impl) = m.split();
    let s = squash(&text(&item_struct));
    assert!(s.starts_with("#[derive(Debug)]#[repr(C)]pub(crate)structA<T>"), "{}", s);
    assert!(s.contains("#[doc=\"f\"]pubx:T,"), "{}", s);
    assert!(squash(&text(&item_impl)).contains("pub(crate)fnnew()->Self"));
}
