//! The same syntax as `structs`, expanded with `Self`: the impl block names the
//! struct's type with the names of its generic parameters, the generic
//! parameters lose their defaults, and `new` builds `Self { .. }`. Several
//! declarations, separated by `;`, can be expanded at once.
use vstd::prelude::*;
pub use crate::structs::{NewFields, NewLocal};
use crate::expand::{
    ParamPrint, alone, fields_decl, fn_arg, fn_args, local_decl, new_fn_tokens, new_fn_tokens_of,
    no_default, printed_generics, printed_generics_of, struct_tokens, struct_tokens_of,
    where_tokens, where_tokens_of,
};
use crate::structs::{
    Generics, GenericsV, ItemV, LocalV, ParseError, is_punct, item_parse,
    lemma_generics_parse_bounds, lemma_where_parse_bounds, punct_is,
};
use crate::syntax::{SynKind, lemma_longest};
use crate::token::{
    Delimiter, Tok, TokV, clone_tok, extend_toks, group, lemma_view_seq, push_tok, punct, toks_view,
    word,
};

verus! {

/// A struct declaration whose fields may carry default values.
#[derive(Debug)]
pub struct NewItemStruct {
    pub attrs: Vec<Tok>,
    pub vis: Vec<Tok>,
    pub struct_token: Tok,
    pub ident: Tok,
    pub generics: Generics,
    pub fields: NewFields,
}

impl View for NewItemStruct {
    type V = ItemV;

    open spec fn view(&self) -> ItemV {
        ItemV {
            attrs: toks_view(self.attrs),
            vis: toks_view(self.vis),
            struct_token: self.struct_token.view(),
            ident: self.ident.view(),
            generics: self.generics.view(),
            fields: self.fields.view(),
        }
    }
}

/// Declarations separated by `;`: the declarations, and the `;` that follows
/// each of them, where one does; only the last may have none.
#[derive(Debug)]
pub struct ItemList {
    pub items: Vec<NewItemStruct>,
    pub semis: Vec<Tok>,
}

impl View for ItemList {
    type V = ItemListV;

    open spec fn view(&self) -> ItemListV {
        ItemListV {
            items: self.items@.map_values(|m: NewItemStruct| m.view()),
            semis: toks_view(self.semis),
        }
    }
}

impl ItemList {
    /// The number of declarations.
    pub fn len(&self) -> (r: usize)
        ensures
            r == self.view().items.len(),
    {
        self.items.len()
    }

    /// Whether there is no declaration.
    pub fn is_empty(&self) -> (r: bool)
        ensures
            r == (self.view().items.len() == 0),
    {
        self.items.len() == 0
    }

    /// Whether the list ends with a `;`: there is a declaration, and the last one
    /// is followed by a `;`.
    pub fn trailing_punct(&self) -> (r: bool)
        ensures
            r == (self.view().items.len() > 0 && self.view().semis.len()
                == self.view().items.len()),
    {
        proof {
            lemma_view_seq(self.semis@);
        }
        self.items.len() > 0 && self.semis.len() == self.items.len()
    }
}

/// The generic parameters of an impl: `<params>` without defaults, lifetimes
/// first; nothing when there are no parameters.
pub open spec fn impl_generics(g: GenericsV) -> Seq<TokV> {
    printed_generics(g, ParamPrint::Plain)
}

/// The generic arguments of the struct's type: `<names>`, lifetimes first;
/// nothing when there are no parameters.
pub open spec fn ty_generics(g: GenericsV) -> Seq<TokV> {
    printed_generics(g, ParamPrint::Name)
}

/// One field of the struct literal in `new`: `ident: expr` with the default, or
/// `ident: ident` with the parameter of the same name.
pub open spec fn value_explicit(f: LocalV) -> Seq<TokV> {
    seq![f.ident, alone(':')] + match f.init {
        Some((_, e)) => e,
        None => seq![f.ident],
    }
}

/// The fields of the struct literal, separated by commas.
pub open spec fn values_explicit(fs: Seq<LocalV>) -> Seq<TokV>
    decreases fs.len(),
{
    if fs.len() == 0 {
        Seq::empty()
    } else if fs.len() == 1 {
        value_explicit(fs[0])
    } else {
        values_explicit(fs.drop_last()) + seq![alone(',')] + value_explicit(fs.last())
    }
}

/// The generated struct: generic parameters without their defaults.
pub open spec fn struct_item(m: ItemV) -> Seq<TokV> {
    struct_tokens(m, impl_generics(m.generics))
}

/// `impl<params> Name<names> where .. { vis fn new(args) -> Self { Self { values } } }`
pub open spec fn impl_item(m: ItemV) -> Seq<TokV> {
    seq![TokV::Ident("impl"@)] + impl_generics(m.generics) + seq![m.ident] + ty_generics(m.generics)
        + where_tokens(m.generics) + seq![
        TokV::Group(
            Delimiter::Brace,
            new_fn_tokens(
                m.vis,
                fn_args(m.fields.named),
                TokV::Ident("Self"@),
                values_explicit(m.fields.named),
            ),
        ),
    ]
}

/// The value of a list of declarations: the declarations, and the `;` that
/// follows each of them, where one does.
pub struct ItemListV {
    pub items: Seq<ItemV>,
    pub semis: Seq<TokV>,
}

/// Declarations from `toks[pos..]` on, after those already read: declarations
/// separated by `;`, with an optional `;` at the end.
pub open spec fn items_parse_from(toks: Seq<TokV>, pos: int, read: ItemListV) -> Result<
    ItemListV,
    ParseError,
>
    decreases toks.len() - pos,
{
    if pos < 0 || pos >= toks.len() {
        Ok(read)
    } else {
        match item_parse(toks, pos, toks.len() as int) {
            Err(e) => Err(e),
            Ok((m, q)) => {
                proof {
                    lemma_item_parse_bounds(toks, pos, toks.len() as int);
                }
                if q >= toks.len() {
                    Ok(ItemListV { items: read.items.push(m), semis: read.semis })
                } else if is_punct(toks[q], ';') {
                    items_parse_from(
                        toks,
                        q + 1,
                        ItemListV { items: read.items.push(m), semis: read.semis.push(toks[q]) },
                    )
                } else {
                    Err(ParseError::ExpectedSemicolon)
                }
            },
        }
    }
}

/// All declarations of the tokens.
pub open spec fn items_parse(toks: Seq<TokV>) -> Result<ItemListV, ParseError> {
    items_parse_from(toks, 0, ItemListV { items: Seq::empty(), semis: Seq::empty() })
}

/// A declaration that parses ends after where it starts, within the tokens.
pub proof fn lemma_item_parse_bounds(toks: Seq<TokV>, pos: int, end: int)
    requires
        0 <= pos <= end,
    ensures
        item_parse(toks, pos, end) matches Ok((_, n)) ==> pos < n <= end,
{
    lemma_longest(SynKind::OuterAttrs, toks, pos, pos, end);
    let a = crate::syntax::longest(SynKind::OuterAttrs, toks, pos, pos, end);
    if a >= pos {
        lemma_longest(SynKind::Visibility, toks, a, a, end);
        let v = crate::syntax::longest(SynKind::Visibility, toks, a, a, end);
        if v >= a && v + 1 < end {
            lemma_generics_parse_bounds(toks, v + 2, end);
            match crate::structs::generics_parse(toks, v + 2, end) {
                Ok((_, q)) => {
                    lemma_where_parse_bounds(toks, q, end);
                },
                Err(_) => {},
            }
        }
    }
}

/// Splits a field into the parameter of `new` (for a field without a default),
/// the field of the struct literal in `new` (`ident: default` or `ident: ident`),
/// and the field of the generated struct, followed by a comma.
pub fn split_local(f: &NewLocal) -> (r: ((Option<Vec<Tok>>, Vec<Tok>), Vec<Tok>))
    ensures
        r.0.0 is Some <==> no_default(f.view()),
        r.0.0 matches Some(a) ==> toks_view(a) == fn_arg(f.view()),
        toks_view(r.0.1) == value_explicit(f.view()),
        toks_view(r.1) == local_decl(f.view()),
{
    let ghost fv = f.view();
    let fnarg = if f.init.is_none() {
        let mut a: Vec<Tok> = Vec::new();
        proof {
            lemma_view_seq(a@);
        }
        push_tok(&mut a, clone_tok(&f.ident));
        push_tok(&mut a, punct(':'));
        extend_toks(&mut a, &f.ty);
        proof {
            assert(toks_view(a) =~= fn_arg(fv));
        }
        Some(a)
    } else {
        None
    };
    let mut value: Vec<Tok> = Vec::new();
    proof {
        lemma_view_seq(value@);
    }
    push_tok(&mut value, clone_tok(&f.ident));
    push_tok(&mut value, punct(':'));
    match &f.init {
        Some((_, e)) => extend_toks(&mut value, e),
        None => push_tok(&mut value, clone_tok(&f.ident)),
    }
    let mut field: Vec<Tok> = Vec::new();
    proof {
        lemma_view_seq(field@);
        assert(toks_view(value) =~= value_explicit(fv));
    }
    extend_toks(&mut field, &f.attrs);
    extend_toks(&mut field, &f.vis);
    push_tok(&mut field, clone_tok(&f.ident));
    push_tok(&mut field, punct(':'));
    extend_toks(&mut field, &f.ty);
    push_tok(&mut field, punct(','));
    proof {
        assert(toks_view(field) =~= local_decl(fv));
    }
    ((fnarg, value), field)
}

impl NewItemStruct {
    /// Reads one struct declaration from `toks[pos..end]`, by the same grammar
    /// as `structs::NewItemStruct::parse`.
    pub fn parse(toks: &Vec<Tok>, pos: usize, end: usize) -> (r: Result<
        (NewItemStruct, usize),
        ParseError,
    >)
        requires
            pos <= end <= toks.len(),
        ensures
            match r {
                Ok((m, n)) => item_parse(toks_view(*toks), pos as int, end as int) == Ok::<
                    (ItemV, int),
                    ParseError,
                >((m.view(), n as int)),
                Err(e) => item_parse(toks_view(*toks), pos as int, end as int) == Err::<
                    (ItemV, int),
                    ParseError,
                >(e),
            },
    {
        match crate::structs::NewItemStruct::parse(toks, pos, end) {
            Ok((m, n)) => Ok(
                (
                    NewItemStruct {
                        attrs: m.attrs,
                        vis: m.vis,
                        struct_token: m.struct_token,
                        ident: m.ident,
                        generics: m.generics,
                        fields: m.fields,
                    },
                    n,
                ),
            ),
            Err(e) => Err(e),
        }
    }

    /// Splits the declaration into the struct, without the defaults and with
    /// generic parameters without their defaults, and the `impl` block with the
    /// `new` constructor: `new` takes the fields without a default as
    /// parameters, in order, and builds `Self` from them and from the defaults
    /// of the others.
    pub fn split(self) -> (r: (Vec<Tok>, Vec<Tok>))
        ensures
            toks_view(r.0) == struct_item(self.view()),
            toks_view(r.1) == impl_item(self.view()),
    {
        let ghost m = self.view();
        let ghost vs = m.fields.named;
        let mut fnargs: Vec<Tok> = Vec::new();
        let mut field_values: Vec<Tok> = Vec::new();
        let mut named: Vec<Tok> = Vec::new();
        proof {
            lemma_view_seq(fnargs@);
            assert(vs.take(0) =~= Seq::<LocalV>::empty());
        }
        let mut i: usize = 0;
        while i < self.fields.named.len()
            invariant
                i <= self.fields.named.len(),
                m == self.view(),
                vs == m.fields.named,
                vs == self.fields.named@.map_values(|f: NewLocal| f.view()),
                toks_view(fnargs) == fn_args(vs.take(i as int)),
                toks_view(field_values) == values_explicit(vs.take(i as int)),
                toks_view(named) == fields_decl(vs.take(i as int)),
            decreases self.fields.named.len() - i,
        {
            let ((fnarg, value), field) = split_local(&self.fields.named[i]);
            proof {
                assert(vs.take(i + 1).drop_last() =~= vs.take(i as int));
                assert(vs.take(i + 1).last() == self.fields.named@[i as int].view());
                if i == 0 {
                    assert(vs.take(1)[0] == self.fields.named@[0].view());
                }
                lemma_view_seq(fnargs@);
            }
            match fnarg {
                Some(a) => {
                    if fnargs.len() > 0 {
                        push_tok(&mut fnargs, punct(','));
                    }
                    extend_toks(&mut fnargs, &a);
                },
                None => {},
            }
            if i > 0 {
                push_tok(&mut field_values, punct(','));
            }
            extend_toks(&mut field_values, &value);
            extend_toks(&mut named, &field);
            proof {
                assert(toks_view(fnargs) =~= fn_args(vs.take(i + 1)));
                assert(toks_view(field_values) =~= values_explicit(vs.take(i + 1)));
                assert(toks_view(named) =~= fields_decl(vs.take(i + 1)));
            }
            i += 1;
        }
        proof {
            assert(vs.take(self.fields.named.len() as int) =~= vs);
        }
        let gen = printed_generics_of(&self.generics, ParamPrint::Plain);
        let item_struct = struct_tokens_of(
            &self.attrs,
            &self.vis,
            &self.ident,
            gen,
            &self.generics,
            named,
        );
        let mut out: Vec<Tok> = Vec::new();
        proof {
            lemma_view_seq(out@);
        }
        push_tok(&mut out, word("impl"));
        let gen2 = printed_generics_of(&self.generics, ParamPrint::Plain);
        extend_toks(&mut out, &gen2);
        push_tok(&mut out, clone_tok(&self.ident));
        let tyg = printed_generics_of(&self.generics, ParamPrint::Name);
        extend_toks(&mut out, &tyg);
        let w = where_tokens_of(&self.generics);
        extend_toks(&mut out, &w);
        let new_fn = new_fn_tokens_of(&self.vis, fnargs, word("Self"), field_values);
        push_tok(&mut out, group(Delimiter::Brace, new_fn));
        proof {
            assert(toks_view(out) =~= impl_item(m));
        }
        (item_struct, out)
    }

    /// Reads declarations separated by `;`, with an optional `;` at the end,
    /// from all of `toks`.
    pub fn parse_multi(toks: &Vec<Tok>) -> (r: Result<ItemList, ParseError>)
        ensures
            match r {
                Ok(l) => items_parse(toks_view(*toks)) == Ok::<ItemListV, ParseError>(l.view()),
                Err(e) => items_parse(toks_view(*toks)) == Err::<ItemListV, ParseError>(e),
            },
    {
        let ghost s = toks_view(*toks);
        proof {
            lemma_view_seq(toks@);
        }
        let len = toks.len();
        let mut l = ItemList { items: Vec::new(), semis: Vec::new() };
        let mut pos: usize = 0;
        proof {
            lemma_view_seq(l.semis@);
            assert(l.view().items =~= Seq::<ItemV>::empty());
            assert(l.view().semis =~= Seq::<TokV>::empty());
        }
        loop
            invariant
                pos <= len == toks.len(),
                s == toks_view(*toks),
                s.len() == len,
                forall|i: int| 0 <= i < toks@.len() ==> #[trigger] s[i] == toks@[i].view(),
                items_parse(s) == items_parse_from(s, pos as int, l.view()),
            decreases len - pos,
        {
            if pos >= len {
                return Ok(l);
            }
            let (m, q) = match NewItemStruct::parse(toks, pos, len) {
                Ok(x) => x,
                Err(e) => return Err(e),
            };
            proof {
                lemma_item_parse_bounds(s, pos as int, len as int);
            }
            let ghost before = l.view();
            let ghost mv = m.view();
            l.items.push(m);
            proof {
                assert(l.view().items =~= before.items.push(mv));
            }
            if q >= len {
                return Ok(l);
            }
            if punct_is(&toks[q], ';') {
                push_tok(&mut l.semis, clone_tok(&toks[q]));
                proof {
                    assert(l.view().items =~= before.items.push(mv));
                    assert(l.view().semis =~= before.semis.push(s[q as int]));
                }
                pos = q + 1;
            } else {
                return Err(ParseError::ExpectedSemicolon);
            }
        }
    }
}

} // verus!
