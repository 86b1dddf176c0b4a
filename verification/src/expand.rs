//! The pieces of the generated code that both expansions share: the struct
//! declaration without the defaults, and the parameters of `new`.
use vstd::prelude::*;
use crate::structs::{
    GenericParam, Generics, GenericsV, ItemV, LocalV, ParamKind, ParamV, is_punct, param_kind,
    param_kind_of, param_name, param_name_of, punct_is,
};
use crate::token::{
    Delimiter, Spacing, Tok, TokV, clone_range, clone_tok, extend_toks, group, lemma_view_seq,
    push_tok, punct, toks_view, word,
};

verus! {

/// A punctuation character not joint with what follows.
pub open spec fn alone(c: char) -> TokV {
    TokV::Punct(c, Spacing::Alone)
}

/// `->`
pub open spec fn arrow() -> Seq<TokV> {
    seq![TokV::Punct('-', Spacing::Joint), alone('>')]
}

/// The where clause as written; nothing when there is none or when it is the
/// word `where` alone, with no predicate.
pub open spec fn where_tokens(g: GenericsV) -> Seq<TokV> {
    match g.where_clause {
        Some(w) => if w.len() <= 1 {
            Seq::empty()
        } else {
            w
        },
        None => Seq::empty(),
    }
}

/// The `= default` of a generic parameter, or nothing.
pub open spec fn default_tokens(d: Option<(TokV, Seq<TokV>)>) -> Seq<TokV> {
    match d {
        Some((eq, t)) => seq![eq] + t,
        None => Seq::empty(),
    }
}

/// A generic parameter as written, with its attributes and its default.
pub open spec fn param_tokens(p: ParamV) -> Seq<TokV> {
    p.attrs + p.body + default_tokens(p.default)
}

/// The body of a generic parameter as printed: a lifetime or a type parameter
/// written with a `:` and no bound after it is printed without the `:`.
pub open spec fn printed_body(p: ParamV) -> Seq<TokV> {
    let n: int = if param_kind(p) == ParamKind::Lifetime {
        2
    } else {
        1
    };
    if param_kind(p) != ParamKind::Const && p.body.len() == n + 1 && is_punct(p.body[n], ':') {
        p.body.subrange(0, n)
    } else {
        p.body
    }
}

/// How a generic parameter is printed: whole, without its default, or by its
/// name alone.
#[derive(Clone, Copy, Debug, PartialEq, Eq, Structural)]
pub enum ParamPrint {
    Full,
    Plain,
    Name,
}

/// A generic parameter, printed the given way.
pub open spec fn print_param(p: ParamV, k: ParamPrint) -> Seq<TokV> {
    match k {
        ParamPrint::Full => p.attrs + printed_body(p) + default_tokens(p.default),
        ParamPrint::Plain => p.attrs + printed_body(p),
        ParamPrint::Name => param_name(p),
    }
}

/// A lifetime parameter.
pub open spec fn is_lifetime(p: ParamV) -> bool {
    param_kind(p) == ParamKind::Lifetime
}

/// The `i`-th parameter is followed by a comma in the input.
pub open spec fn has_comma(g: GenericsV, i: int) -> bool {
    i < g.commas.len()
}

/// The comma after the `i`-th parameter, where the input has one.
pub open spec fn comma_after(g: GenericsV, i: int) -> Seq<TokV> {
    if has_comma(g, i) {
        seq![alone(',')]
    } else {
        Seq::empty()
    }
}

/// The lifetime parameters among the first `n`, in order, each printed and
/// followed by its comma where it has one.
pub open spec fn lifetimes_part(g: GenericsV, n: int, k: ParamPrint) -> Seq<TokV>
    decreases n,
{
    if n <= 0 {
        Seq::empty()
    } else if is_lifetime(g.params[n - 1]) {
        lifetimes_part(g, n - 1, k) + print_param(g.params[n - 1], k) + comma_after(g, n - 1)
    } else {
        lifetimes_part(g, n - 1, k)
    }
}

/// The other parameters among the first `n`, in order, each printed and
/// followed by its comma where it has one.
pub open spec fn others_part(g: GenericsV, n: int, k: ParamPrint) -> Seq<TokV>
    decreases n,
{
    if n <= 0 {
        Seq::empty()
    } else if !is_lifetime(g.params[n - 1]) {
        others_part(g, n - 1, k) + print_param(g.params[n - 1], k) + comma_after(g, n - 1)
    } else {
        others_part(g, n - 1, k)
    }
}

/// The lifetimes among the first `n` parameters end with a comma: there is no
/// lifetime among them, or the last one has its comma.
pub open spec fn lifetimes_end_with_comma(g: GenericsV, n: int) -> bool
    decreases n,
{
    if n <= 0 {
        true
    } else if is_lifetime(g.params[n - 1]) {
        has_comma(g, n - 1)
    } else {
        lifetimes_end_with_comma(g, n - 1)
    }
}

/// Among the first `n` parameters there is one that is not a lifetime.
pub open spec fn has_other(g: GenericsV, n: int) -> bool
    decreases n,
{
    if n <= 0 {
        false
    } else {
        !is_lifetime(g.params[n - 1]) || has_other(g, n - 1)
    }
}

/// Without other parameters among the first `n`, there is nothing of them to print.
pub proof fn lemma_no_others(g: GenericsV, n: int, k: ParamPrint)
    ensures
        !has_other(g, n) ==> others_part(g, n, k) == Seq::<TokV>::empty(),
    decreases n,
{
    if n > 0 {
        lemma_no_others(g, n - 1, k);
    }
}

/// The comma put between the lifetimes and the other parameters where the last
/// lifetime has none.
pub open spec fn joining_comma(g: GenericsV) -> Seq<TokV> {
    let n = g.params.len() as int;
    if has_other(g, n) && !lifetimes_end_with_comma(g, n) {
        seq![alone(',')]
    } else {
        Seq::empty()
    }
}

/// Generic parameters as printed in generated code: `<`, the lifetimes, then the
/// other parameters, each group in its own order and each parameter followed by
/// its comma where the input has one, a comma added between the two groups where
/// needed, and `>`; nothing when there are no parameters.
pub open spec fn printed_generics(g: GenericsV, k: ParamPrint) -> Seq<TokV> {
    let n = g.params.len() as int;
    if n == 0 {
        Seq::empty()
    } else {
        seq![alone('<')] + lifetimes_part(g, n, k) + joining_comma(g) + others_part(g, n, k)
            + seq![alone('>')]
    }
}

/// A field of the generated struct: the declared field without its default,
/// followed by a comma.
pub open spec fn local_decl(f: LocalV) -> Seq<TokV> {
    f.attrs + f.vis + seq![f.ident, alone(':')] + f.ty + seq![alone(',')]
}

/// All fields of the generated struct.
pub open spec fn fields_decl(fs: Seq<LocalV>) -> Seq<TokV>
    decreases fs.len(),
{
    if fs.len() == 0 {
        Seq::empty()
    } else {
        fields_decl(fs.drop_last()) + local_decl(fs.last())
    }
}

/// A field without a default value becomes a parameter of `new`.
pub open spec fn no_default(f: LocalV) -> bool {
    f.init is None
}

/// The parameter of `new` for a field: `ident: ty`.
pub open spec fn fn_arg(f: LocalV) -> Seq<TokV> {
    seq![f.ident, alone(':')] + f.ty
}

/// The parameters of `new`: one per field without a default, in field order,
/// separated by commas.
pub open spec fn fn_args(fs: Seq<LocalV>) -> Seq<TokV>
    decreases fs.len(),
{
    if fs.len() == 0 {
        Seq::empty()
    } else {
        let prev = fn_args(fs.drop_last());
        let f = fs.last();
        if !no_default(f) {
            prev
        } else if prev.len() == 0 {
            fn_arg(f)
        } else {
            prev + seq![alone(',')] + fn_arg(f)
        }
    }
}

/// The generated struct declaration, with the given generic parameters.
pub open spec fn struct_tokens(m: ItemV, gen: Seq<TokV>) -> Seq<TokV> {
    m.attrs + m.vis + seq![TokV::Ident("struct"@), m.ident] + gen + where_tokens(m.generics) + seq![
        TokV::Group(Delimiter::Brace, fields_decl(m.fields.named)),
    ]
}

/// The generated `new` function: `vis fn new(args) -> Self { ctor { values } }`.
pub open spec fn new_fn_tokens(
    vis: Seq<TokV>,
    args: Seq<TokV>,
    ctor: TokV,
    values: Seq<TokV>,
) -> Seq<TokV> {
    vis + seq![
        TokV::Ident("fn"@),
        TokV::Ident("new"@),
        TokV::Group(Delimiter::Parenthesis, args),
    ] + arrow() + seq![
        TokV::Ident("Self"@),
        TokV::Group(Delimiter::Brace, seq![ctor, TokV::Group(Delimiter::Brace, values)]),
    ]
}

// ---------------------------------------------------------------------------
// Building the tokens
// ---------------------------------------------------------------------------
/// Appends `->`.
pub fn push_arrow(out: &mut Vec<Tok>)
    ensures
        toks_view(*final(out)) == toks_view(*old(out)) + arrow(),
{
    let ghost o = toks_view(*out);
    push_tok(out, Tok::Punct('-', Spacing::Joint));
    push_tok(out, punct('>'));
    proof {
        assert(toks_view(*out) =~= o + arrow());
    }
}

/// The where clause as written.
pub fn where_tokens_of(g: &Generics) -> (r: Vec<Tok>)
    ensures
        toks_view(r) == where_tokens(g.view()),
{
    let mut out: Vec<Tok> = Vec::new();
    proof {
        lemma_view_seq(out@);
    }
    match &g.where_clause {
        Some(w) => {
            proof {
                lemma_view_seq(w@);
            }
            if w.len() > 1 {
                extend_toks(&mut out, w)
            }
        },
        None => {},
    }
    proof {
        assert(toks_view(out) =~= where_tokens(g.view()));
    }
    out
}

/// The body of a generic parameter as printed.
fn printed_body_of(p: &GenericParam) -> (r: Vec<Tok>)
    ensures
        toks_view(r) == printed_body(p.view()),
{
    proof {
        lemma_view_seq(p.body@);
    }
    let k = param_kind_of(p);
    let n: usize = if k == ParamKind::Lifetime {
        2
    } else {
        1
    };
    if k != ParamKind::Const && p.body.len() == n + 1 && punct_is(&p.body[n], ':') {
        clone_range(&p.body, 0, n)
    } else {
        clone_range(&p.body, 0, p.body.len())
    }
}

/// Appends a generic parameter, printed the given way.
fn push_param(out: &mut Vec<Tok>, p: &GenericParam, k: ParamPrint)
    ensures
        toks_view(*final(out)) == toks_view(*old(out)) + print_param(p.view(), k),
{
    let ghost o = toks_view(*out);
    match k {
        ParamPrint::Name => {
            let name = param_name_of(p);
            extend_toks(out, &name);
        },
        _ => {
            extend_toks(out, &p.attrs);
            let body = printed_body_of(p);
            extend_toks(out, &body);
            if k == ParamPrint::Full {
                match &p.default {
                    Some((eq, d)) => {
                        push_tok(out, clone_tok(eq));
                        extend_toks(out, d);
                    },
                    None => {},
                }
            }
        },
    }
    proof {
        assert(toks_view(*out) =~= o + print_param(p.view(), k));
    }
}

/// The generic parameters as printed in generated code.
pub fn printed_generics_of(g: &Generics, k: ParamPrint) -> (r: Vec<Tok>)
    ensures
        toks_view(r) == printed_generics(g.view(), k),
{
    let ghost gv = g.view();
    let mut out: Vec<Tok> = Vec::new();
    proof {
        lemma_view_seq(out@);
    }
    let n = g.params.len();
    if n == 0 {
        return out;
    }
    push_tok(&mut out, punct('<'));
    let ghost start = toks_view(out);
    proof {
        lemma_view_seq(g.commas@);
    }
    let mut trailing = true;
    let mut i: usize = 0;
    while i < n
        invariant
            i <= n == g.params.len(),
            gv == g.view(),
            gv.commas.len() == g.commas.len(),
            trailing == lifetimes_end_with_comma(gv, i as int),
            toks_view(out) == start + lifetimes_part(gv, i as int, k),
        decreases n - i,
    {
        proof {
            assert(gv.params[i as int] == g.params@[i as int].view());
        }
        if param_kind_of(&g.params[i]) == ParamKind::Lifetime {
            push_param(&mut out, &g.params[i], k);
            if i < g.commas.len() {
                push_tok(&mut out, punct(','));
                trailing = true;
            } else {
                trailing = false;
            }
        }
        proof {
            assert(toks_view(out) =~= start + lifetimes_part(gv, i + 1, k));
        }
        i += 1;
    }
    let ghost t0 = trailing;
    let ghost mid = toks_view(out);
    let mut j: usize = 0;
    proof {
        assert(mid =~= mid + Seq::<TokV>::empty() + others_part(gv, 0, k));
    }
    while j < n
        invariant
            j <= n == g.params.len(),
            gv == g.view(),
            gv.commas.len() == g.commas.len(),
            t0 == lifetimes_end_with_comma(gv, n as int),
            trailing == (t0 || has_other(gv, j as int)),
            toks_view(out) == mid + (if has_other(gv, j as int) && !t0 {
                seq![alone(',')]
            } else {
                Seq::<TokV>::empty()
            }) + others_part(gv, j as int, k),
        decreases n - j,
    {
        proof {
            assert(gv.params[j as int] == g.params@[j as int].view());
        }
        let ghost sep = if has_other(gv, j as int) && !t0 {
            seq![alone(',')]
        } else {
            Seq::<TokV>::empty()
        };
        let ghost sep2 = if has_other(gv, j + 1) && !t0 {
            seq![alone(',')]
        } else {
            Seq::<TokV>::empty()
        };
        if param_kind_of(&g.params[j]) != ParamKind::Lifetime {
            proof {
                assert(has_other(gv, j + 1));
                lemma_no_others(gv, j as int, k);
                assert(others_part(gv, j + 1, k) == others_part(gv, j as int, k) + print_param(
                    gv.params[j as int],
                    k,
                ) + comma_after(gv, j as int));
            }
            if !trailing {
                push_tok(&mut out, punct(','));
                trailing = true;
            }
            push_param(&mut out, &g.params[j], k);
            if j < g.commas.len() {
                push_tok(&mut out, punct(','));
            }
        }
        proof {
            assert(toks_view(out) =~= mid + sep2 + others_part(gv, j + 1, k));
        }
        j += 1;
    }
    push_tok(&mut out, punct('>'));
    proof {
        assert(toks_view(out) =~= printed_generics(gv, k));
    }
    out
}

/// The generated struct declaration, with the given generic parameters and
/// field declarations.
pub fn struct_tokens_of(
    attrs: &Vec<Tok>,
    vis: &Vec<Tok>,
    ident: &Tok,
    gen: Vec<Tok>,
    g: &Generics,
    fields: Vec<Tok>,
) -> (r: Vec<Tok>)
    ensures
        forall|m: ItemV|
            m.attrs == toks_view(*attrs) && m.vis == toks_view(*vis) && m.ident == ident.view()
                && m.generics == g.view() && fields_decl(m.fields.named) == toks_view(fields)
                ==> toks_view(r) == struct_tokens(m, toks_view(gen)),
{
    let ghost fv = toks_view(fields);
    let mut out: Vec<Tok> = Vec::new();
    proof {
        lemma_view_seq(out@);
    }
    extend_toks(&mut out, attrs);
    extend_toks(&mut out, vis);
    push_tok(&mut out, word("struct"));
    push_tok(&mut out, clone_tok(ident));
    extend_toks(&mut out, &gen);
    let w = where_tokens_of(g);
    extend_toks(&mut out, &w);
    push_tok(&mut out, group(Delimiter::Brace, fields));
    proof {
        assert forall|m: ItemV|
            m.attrs == toks_view(*attrs) && m.vis == toks_view(*vis) && m.ident == ident.view()
                && m.generics == g.view() && fields_decl(m.fields.named) == fv implies toks_view(out)
            == struct_tokens(m, toks_view(gen)) by {
            assert(toks_view(out) =~= struct_tokens(m, toks_view(gen)));
        }
    }
    out
}

/// The generated `new` function.
pub fn new_fn_tokens_of(vis: &Vec<Tok>, args: Vec<Tok>, ctor: Tok, values: Vec<Tok>) -> (r: Vec<
    Tok,
>)
    ensures
        toks_view(r) == new_fn_tokens(
            toks_view(*vis),
            toks_view(args),
            ctor.view(),
            toks_view(values),
        ),
{
    let ghost av = toks_view(args);
    let mut out: Vec<Tok> = Vec::new();
    proof {
        lemma_view_seq(out@);
    }
    extend_toks(&mut out, vis);
    push_tok(&mut out, word("fn"));
    push_tok(&mut out, word("new"));
    push_tok(&mut out, group(Delimiter::Parenthesis, args));
    push_arrow(&mut out);
    push_tok(&mut out, word("Self"));
    let mut body: Vec<Tok> = Vec::new();
    proof {
        lemma_view_seq(body@);
    }
    let ghost cv = ctor.view();
    push_tok(&mut body, ctor);
    push_tok(&mut body, group(Delimiter::Brace, values));
    push_tok(&mut out, group(Delimiter::Brace, body));
    proof {
        assert(toks_view(body) =~= seq![cv, TokV::Group(Delimiter::Brace, toks_view(values))]);
        assert(toks_view(out) =~= new_fn_tokens(toks_view(*vis), av, cv, toks_view(values)));
    }
    out
}

} // verus!
