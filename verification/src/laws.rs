//! What holds of the library as a whole: the parsers keep every token of their
//! input, the constructor takes exactly the fields without a default, and the
//! two expansions generate the same struct and equivalent constructors.
use vstd::prelude::*;
use crate::expand::{
    ParamPrint, alone, comma_after, fn_arg, fn_args, has_other, is_lifetime, joining_comma,
    lemma_no_others, lifetimes_end_with_comma, lifetimes_part, new_fn_tokens, no_default,
    others_part, param_tokens, print_param, printed_generics, where_tokens, fields_decl,
    local_decl,
};
use crate::structs::{
    GenericsV, ItemV, LocalV, ParamV, ParseError, fields_parse, fields_parse_from, generics_parse,
    is_punct, item_parse, item_parse_all, lemma_default_eq, lemma_local_parse_bounds,
    lemma_param_parse_bounds, local_parse, param_parse, params_parse_from, where_parse,
};
use crate::structs::{path_args, path_with_generics, value_shorthand, values_shorthand};
use crate::structs2::{
    ItemListV, impl_generics, items_parse, items_parse_from, ty_generics, value_explicit,
    values_explicit,
};
use crate::syntax::{SynKind, accepts_range, lemma_longest, longest};
use crate::token::{Delimiter, TokV};

verus! {

/// The token of an optional token, or nothing.
pub open spec fn opt_toks(t: Option<TokV>) -> Seq<TokV> {
    match t {
        Some(t) => seq![t],
        None => Seq::empty(),
    }
}

/// Generic parameters as written, each followed by its comma when it has one.
pub open spec fn params_tokens(ps: Seq<ParamV>, cs: Seq<TokV>) -> Seq<TokV>
    decreases ps.len(),
{
    if ps.len() == 0 {
        Seq::empty()
    } else {
        params_tokens(ps.drop_last(), cs) + param_tokens(ps.last()) + (if ps.len() - 1 < cs.len() {
            seq![cs[ps.len() - 1]]
        } else {
            Seq::empty()
        })
    }
}

/// The generic parameters `<...>` as written (without the where clause).
pub open spec fn generics_tokens(g: GenericsV) -> Seq<TokV> {
    opt_toks(g.lt_token) + params_tokens(g.params, g.commas) + opt_toks(g.gt_token)
}

/// The where clause as written, or nothing.
pub open spec fn where_source(g: GenericsV) -> Seq<TokV> {
    match g.where_clause {
        Some(w) => w,
        None => Seq::empty(),
    }
}

/// A field as written: everything the parser read for it.
pub open spec fn local_source(f: LocalV) -> Seq<TokV> {
    f.attrs + f.vis + seq![f.ident, f.colon_token] + f.ty + match f.init {
        Some((eq, e)) => seq![eq] + e,
        None => Seq::empty(),
    } + f.discarded
}

/// Fields as written, each followed by its comma when it has one.
pub open spec fn locals_source(fs: Seq<LocalV>, cs: Seq<TokV>) -> Seq<TokV>
    decreases fs.len(),
{
    if fs.len() == 0 {
        Seq::empty()
    } else {
        locals_source(fs.drop_last(), cs) + local_source(fs.last()) + (if fs.len() - 1 < cs.len() {
            seq![cs[fs.len() - 1]]
        } else {
            Seq::empty()
        })
    }
}

/// A struct declaration as written.
pub open spec fn item_source(m: ItemV) -> Seq<TokV> {
    m.attrs + m.vis + seq![m.struct_token, m.ident] + generics_tokens(m.generics) + where_source(
        m.generics,
    ) + seq![TokV::Group(Delimiter::Brace, locals_source(m.fields.named, m.fields.commas))]
}

proof fn lemma_local_source(toks: Seq<TokV>, pos: int)
    requires
        0 <= pos <= toks.len(),
    ensures
        local_parse(toks, pos) matches Ok((f, n)) ==> local_source(f) == toks.subrange(pos, n),
{
    let end = toks.len() as int;
    lemma_local_parse_bounds(toks, pos);
    lemma_longest(SynKind::OuterAttrs, toks, pos, pos, end);
    let a = longest(SynKind::OuterAttrs, toks, pos, pos, end);
    if a >= pos {
        lemma_longest(SynKind::Visibility, toks, a, a, end);
        let v = longest(SynKind::Visibility, toks, a, a, end);
        if v >= a && v + 1 < end {
            lemma_longest(SynKind::Type, toks, v + 2, v + 3, end);
            let t = longest(SynKind::Type, toks, v + 2, v + 3, end);
            let eq = t < end && is_punct(toks[t], '=');
            let p = if eq {
                t + 1
            } else {
                t
            };
            lemma_longest(SynKind::Expr, toks, p, p + 1, end);
            if let Ok((f, n)) = local_parse(toks, pos) {
                assert(local_source(f) =~= toks.subrange(pos, n));
            }
        }
    }
}

proof fn lemma_locals_source_from(
    toks: Seq<TokV>,
    pos: int,
    named: Seq<LocalV>,
    commas: Seq<TokV>,
)
    requires
        0 <= pos <= toks.len(),
        commas.len() == named.len(),
        locals_source(named, commas) == toks.subrange(0, pos),
    ensures
        fields_parse_from(toks, pos, named, commas) matches Ok(fs) ==> locals_source(
            fs.named,
            fs.commas,
        ) == toks,
    decreases toks.len() - pos,
{
    if pos >= toks.len() {
        assert(toks.subrange(0, pos) =~= toks);
    } else {
        lemma_local_parse_bounds(toks, pos);
        lemma_local_source(toks, pos);
        if let Ok((f, q)) = local_parse(toks, pos) {
            let named2 = named.push(f);
            assert(named2.drop_last() =~= named);
            if q >= toks.len() {
                assert(locals_source(named2, commas) =~= toks.subrange(0, pos) + toks.subrange(
                    pos,
                    q,
                ));
                assert(toks.subrange(0, q) =~= toks);
                assert(toks.subrange(0, pos) + toks.subrange(pos, q) =~= toks);
            } else if is_punct(toks[q], ',') {
                let commas2 = commas.push(toks[q]);
                assert(locals_source(named, commas2) == locals_source(named, commas)) by {
                    lemma_locals_source_prefix(named, commas, commas2);
                }
                assert(locals_source(named2, commas2) =~= toks.subrange(0, q + 1));
                lemma_locals_source_from(toks, q + 1, named2, commas2);
            }
        }
    }
}

/// Only the first `fs.len()` commas matter.
proof fn lemma_locals_source_prefix(fs: Seq<LocalV>, cs: Seq<TokV>, cs2: Seq<TokV>)
    requires
        cs.len() >= fs.len(),
        cs2.len() >= fs.len(),
        forall|i: int| 0 <= i < fs.len() ==> cs[i] == cs2[i],
    ensures
        locals_source(fs, cs) == locals_source(fs, cs2),
    decreases fs.len(),
{
    if fs.len() > 0 {
        lemma_locals_source_prefix(fs.drop_last(), cs, cs2);
    }
}

/// The fields read from a brace group are, as written, the whole group.
pub proof fn lemma_fields_source(toks: Seq<TokV>)
    ensures
        fields_parse(toks) matches Ok(fs) ==> locals_source(fs.named, fs.commas) == toks,
{
    assert(locals_source(Seq::empty(), Seq::empty()) =~= toks.subrange(0, 0));
    lemma_locals_source_from(toks, 0, Seq::empty(), Seq::empty());
}

proof fn lemma_param_source(toks: Seq<TokV>, pos: int, end: int)
    requires
        0 <= pos <= end <= toks.len(),
    ensures
        param_parse(toks, pos, end) matches Ok((p, n)) ==> param_tokens(p) == toks.subrange(pos, n),
{
    reveal(param_parse);
    lemma_longest(SynKind::GenericParam, toks, pos, pos + 1, end);
    let q0 = longest(SynKind::GenericParam, toks, pos, pos + 1, end);
    if q0 >= pos + 1 {
        lemma_longest(SynKind::OuterAttrs, toks, pos, pos, q0);
        let la = longest(SynKind::OuterAttrs, toks, pos, pos, q0);
        let a = if la >= pos {
            la
        } else {
            pos
        };
        lemma_default_eq(toks, pos, a, q0);
        if let Ok((p, n)) = param_parse(toks, pos, end) {
            assert(param_tokens(p) =~= toks.subrange(pos, n));
        }
    }
}

/// Only the first `ps.len()` commas matter.
proof fn lemma_params_tokens_prefix(ps: Seq<ParamV>, cs: Seq<TokV>, cs2: Seq<TokV>)
    requires
        cs.len() >= ps.len(),
        cs2.len() >= ps.len(),
        forall|i: int| 0 <= i < ps.len() ==> cs[i] == cs2[i],
    ensures
        params_tokens(ps, cs) == params_tokens(ps, cs2),
    decreases ps.len(),
{
    if ps.len() > 0 {
        lemma_params_tokens_prefix(ps.drop_last(), cs, cs2);
    }
}

proof fn lemma_params_source_from(
    toks: Seq<TokV>,
    start: int,
    pos: int,
    end: int,
    ps: Seq<ParamV>,
    cs: Seq<TokV>,
)
    requires
        0 <= start <= pos <= end <= toks.len(),
        cs.len() == ps.len(),
        params_tokens(ps, cs) == toks.subrange(start, pos),
    ensures
        params_parse_from(toks, pos, end, ps, cs) matches Ok((ps2, cs2, g)) ==> params_tokens(
            ps2,
            cs2,
        ) == toks.subrange(start, g),
    decreases end - pos,
{
    if !(pos < end && is_punct(toks[pos], '>')) {
        lemma_param_parse_bounds(toks, pos, end);
        lemma_param_source(toks, pos, end);
        if let Ok((p, q)) = param_parse(toks, pos, end) {
            let ps2 = ps.push(p);
            assert(ps2.drop_last() =~= ps);
            if q < end && is_punct(toks[q], '>') {
                assert(params_tokens(ps2, cs) =~= toks.subrange(start, q));
            } else if q < end && is_punct(toks[q], ',') {
                let cs2 = cs.push(toks[q]);
                lemma_params_tokens_prefix(ps, cs, cs2);
                assert(params_tokens(ps2, cs2) =~= toks.subrange(start, q + 1));
                lemma_params_source_from(toks, start, q + 1, end, ps2, cs2);
            }
        }
    }
}

proof fn lemma_generics_source(toks: Seq<TokV>, pos: int, end: int)
    requires
        0 <= pos <= end <= toks.len(),
    ensures
        generics_parse(toks, pos, end) matches Ok((g, n)) ==> generics_tokens(g) == toks.subrange(
            pos,
            n,
        ),
{
    if pos < end && is_punct(toks[pos], '<') {
        assert(params_tokens(Seq::empty(), Seq::empty()) =~= toks.subrange(pos + 1, pos + 1));
        lemma_params_source_from(toks, pos + 1, pos + 1, end, Seq::empty(), Seq::empty());
        crate::structs::lemma_params_parse_bounds(toks, pos + 1, end, Seq::empty(), Seq::empty());
        if let Ok((g, n)) = generics_parse(toks, pos, end) {
            assert(generics_tokens(g) =~= toks.subrange(pos, n));
        }
    } else {
        if let Ok((g, n)) = generics_parse(toks, pos, end) {
            assert(generics_tokens(g) =~= toks.subrange(pos, n));
        }
    }
}

/// Adjacent ranges join.
proof fn lemma_join_ranges(toks: Seq<TokV>, a: int, b: int, c: int)
    requires
        0 <= a <= b <= c <= toks.len(),
    ensures
        toks.subrange(a, b) + toks.subrange(b, c) == toks.subrange(a, c),
{
    assert(toks.subrange(a, b) + toks.subrange(b, c) =~= toks.subrange(a, c));
}

proof fn lemma_item_source(toks: Seq<TokV>, pos: int, end: int)
    requires
        0 <= pos <= end <= toks.len(),
    ensures
        item_parse(toks, pos, end) matches Ok((m, n)) ==> item_source(m) == toks.subrange(pos, n),
{
    lemma_longest(SynKind::OuterAttrs, toks, pos, pos, end);
    let a = longest(SynKind::OuterAttrs, toks, pos, pos, end);
    if a >= pos {
        lemma_longest(SynKind::Visibility, toks, a, a, end);
        let v = longest(SynKind::Visibility, toks, a, a, end);
        if v >= a && v + 1 < end {
            lemma_item_source_rest(toks, pos, end, a, v);
        }
    }
}

proof fn lemma_item_source_rest(toks: Seq<TokV>, pos: int, end: int, a: int, v: int)
    requires
        0 <= pos <= a <= v,
        v + 1 < end <= toks.len(),
        a == longest(SynKind::OuterAttrs, toks, pos, pos, end),
        v == longest(SynKind::Visibility, toks, a, a, end),
    ensures
        item_parse(toks, pos, end) matches Ok((m, n)) ==> item_source(m) == toks.subrange(pos, n),
{
    lemma_generics_source(toks, v + 2, end);
    crate::structs::lemma_generics_parse_bounds(toks, v + 2, end);
    if let Ok((g, q)) = generics_parse(toks, v + 2, end) {
        crate::structs::lemma_where_parse_bounds(toks, q, end);
        lemma_longest(SynKind::WhereClause, toks, q, q + 1, end);
        if let Ok((w, r)) = where_parse(toks, q, end) {
            if r < end {
                if let TokV::Group(Delimiter::Brace, inner) = toks[r] {
                    lemma_fields_source(inner);
                    if let Ok((m, n)) = item_parse(toks, pos, end) {
                        assert(m.attrs == toks.subrange(pos, a));
                        assert(m.vis == toks.subrange(a, v));
                        assert(seq![m.struct_token, m.ident] =~= toks.subrange(v, v + 2));
                        assert(generics_tokens(m.generics) == toks.subrange(v + 2, q));
                        assert(where_source(m.generics) =~= toks.subrange(q, r));
                        assert(seq![
                            TokV::Group(
                                Delimiter::Brace,
                                locals_source(m.fields.named, m.fields.commas),
                            ),
                        ] =~= toks.subrange(r, r + 1));
                        lemma_join_ranges(toks, pos, a, v);
                        lemma_join_ranges(toks, pos, v, v + 2);
                        lemma_join_ranges(toks, pos, v + 2, q);
                        lemma_join_ranges(toks, pos, q, r);
                        lemma_join_ranges(toks, pos, r, r + 1);
                    }
                }
            }
        }
    }
}

/// Law: a struct declaration that parses is, written back, exactly its input:
/// the parser keeps every token, attributes and visibilities included.
pub proof fn law_parse_keeps_every_token(toks: Seq<TokV>)
    ensures
        item_parse_all(toks) matches Ok(m) ==> item_source(m) == toks,
{
    lemma_item_source(toks, 0, toks.len() as int);
    assert(toks.subrange(0, toks.len() as int) =~= toks);
}

/// Declarations as written, each followed by its `;` when it has one.
pub open spec fn items_source(ms: Seq<ItemV>, semis: Seq<TokV>) -> Seq<TokV>
    decreases ms.len(),
{
    if ms.len() == 0 {
        Seq::empty()
    } else {
        items_source(ms.drop_last(), semis) + item_source(ms.last()) + (if ms.len() - 1
            < semis.len() {
            seq![semis[ms.len() - 1]]
        } else {
            Seq::empty()
        })
    }
}

/// Only the first `ms.len()` separators matter.
proof fn lemma_items_source_prefix(ms: Seq<ItemV>, cs: Seq<TokV>, cs2: Seq<TokV>)
    requires
        cs.len() >= ms.len(),
        cs2.len() >= ms.len(),
        forall|i: int| 0 <= i < ms.len() ==> cs[i] == cs2[i],
    ensures
        items_source(ms, cs) == items_source(ms, cs2),
    decreases ms.len(),
{
    if ms.len() > 0 {
        lemma_items_source_prefix(ms.drop_last(), cs, cs2);
    }
}

proof fn lemma_items_source_from(toks: Seq<TokV>, pos: int, read: ItemListV)
    requires
        0 <= pos <= toks.len(),
        read.semis.len() == read.items.len(),
        forall|i: int| 0 <= i < read.semis.len() ==> is_punct(#[trigger] read.semis[i], ';'),
        items_source(read.items, read.semis) == toks.subrange(0, pos),
    ensures
        items_parse_from(toks, pos, read) matches Ok(l) ==> {
            &&& items_source(l.items, l.semis) == toks
            &&& (l.semis.len() == l.items.len() || l.semis.len() + 1 == l.items.len())
            &&& forall|i: int| 0 <= i < l.semis.len() ==> is_punct(#[trigger] l.semis[i], ';')
        },
    decreases toks.len() - pos,
{
    if pos >= toks.len() {
        assert(toks.subrange(0, pos) =~= toks);
    } else {
        let end = toks.len() as int;
        crate::structs2::lemma_item_parse_bounds(toks, pos, end);
        lemma_item_source(toks, pos, end);
        if let Ok((m, q)) = item_parse(toks, pos, end) {
            let items2 = read.items.push(m);
            assert(items2.drop_last() =~= read.items);
            if q >= toks.len() {
                assert(items_source(items2, read.semis) =~= toks.subrange(0, pos)
                    + toks.subrange(pos, q));
                assert(toks.subrange(0, pos) + toks.subrange(pos, q) =~= toks);
            } else if is_punct(toks[q], ';') {
                let semis2 = read.semis.push(toks[q]);
                lemma_items_source_prefix(read.items, read.semis, semis2);
                assert(items_source(items2, semis2) =~= toks.subrange(0, q + 1));
                lemma_items_source_from(toks, q + 1, ItemListV { items: items2, semis: semis2 });
            }
        }
    }
}

/// Law: declarations read by `parse_multi` are, written back each followed by its
/// `;`, exactly the input; every declaration but possibly the last has its `;`,
/// and the list ends with a `;` exactly when the input does.
pub proof fn law_multi_parse_keeps_every_token(toks: Seq<TokV>)
    ensures
        items_parse(toks) matches Ok(l) ==> {
            &&& items_source(l.items, l.semis) == toks
            &&& (l.semis.len() == l.items.len() || l.semis.len() + 1 == l.items.len())
            &&& (l.items.len() > 0 && l.semis.len() == l.items.len()) == (toks.len() > 0
                && is_punct(toks.last(), ';'))
        },
{
    let empty = ItemListV { items: Seq::empty(), semis: Seq::empty() };
    assert(items_source(empty.items, empty.semis) =~= toks.subrange(0, 0));
    lemma_items_source_from(toks, 0, empty);
    if let Ok(l) = items_parse(toks) {
        let n = l.items.len();
        if n > 0 {
            let prev = items_source(l.items.drop_last(), l.semis);
            let last = item_source(l.items.last());
            if l.semis.len() == n {
                assert(toks == prev + last + seq![l.semis[n - 1]]);
                assert(toks.last() == l.semis[n - 1]);
            } else {
                assert(toks == prev + last);
                assert(last.last() is Group);
                assert(toks.last() == last.last());
            }
        }
    }
}

/// Pieces of tokens, separated by commas.
pub open spec fn join_comma(items: Seq<Seq<TokV>>) -> Seq<TokV>
    decreases items.len(),
{
    if items.len() == 0 {
        Seq::empty()
    } else if items.len() == 1 {
        items[0]
    } else {
        join_comma(items.drop_last()) + seq![alone(',')] + items.last()
    }
}

/// Law: the parameters of `new` are `ident: ty` for exactly the fields without a
/// default, in the order of the fields, separated by commas.
pub proof fn law_new_takes_the_fields_without_default(fs: Seq<LocalV>)
    ensures
        fn_args(fs) == join_comma(
            fs.filter(|f: LocalV| f.init is None).map_values(|f: LocalV| fn_arg(f)),
        ),
    decreases fs.len(),
{
    reveal_with_fuel(Seq::filter, 1);
    if fs.len() > 0 {
        law_new_takes_the_fields_without_default(fs.drop_last());
        let pred = |f: LocalV| f.init is None;
        let prev = fs.drop_last().filter(pred).map_values(|f: LocalV| fn_arg(f));
        assert(fs.filter(pred) == (if pred(fs.last()) {
            fs.drop_last().filter(pred).push(fs.last())
        } else {
            fs.drop_last().filter(pred)
        }));
        if no_default(fs.last()) {
            let now = fs.filter(pred).map_values(|f: LocalV| fn_arg(f));
            assert(now =~= prev.push(fn_arg(fs.last())));
            assert(now.drop_last() =~= prev);
            if prev.len() == 0 {
                assert(fn_args(fs.drop_last()).len() == 0);
            } else {
                assert(fn_args(fs.drop_last()) == join_comma(prev));
                lemma_join_comma_nonempty(prev);
            }
        } else {
            assert(fs.filter(pred).map_values(|f: LocalV| fn_arg(f)) =~= prev);
        }
    }
}

/// Joining at least one piece that is not empty gives a nonempty sequence.
proof fn lemma_join_comma_nonempty(items: Seq<Seq<TokV>>)
    requires
        items.len() > 0,
        forall|i: int| 0 <= i < items.len() ==> #[trigger] items[i].len() > 0,
    ensures
        join_comma(items).len() > 0,
    decreases items.len(),
{
}

/// Law: a single declaration expands under `structs_new2` exactly as under
/// `struct_new2`.
pub proof fn law_single_declaration_expands_alike(toks: Seq<TokV>)
    ensures
        item_parse_all(toks) matches Ok(m) ==> crate::structs2::items_parse(toks) == Ok::<
            crate::structs2::ItemListV,
            ParseError,
        >(crate::structs2::ItemListV { items: seq![m], semis: Seq::empty() })
            && crate::expansions2(seq![m]) == crate::expansion2(m),
{
    if let Ok(m) = item_parse_all(toks) {
        crate::structs2::lemma_item_parse_bounds(toks, 0, toks.len() as int);
        assert(Seq::<ItemV>::empty().push(m) =~= seq![m]);
        assert(crate::structs2::items_parse(toks) == Ok::<crate::structs2::ItemListV, ParseError>(
            crate::structs2::ItemListV { items: seq![m], semis: Seq::empty() },
        ));
        assert(seq![m].drop_last() =~= Seq::<ItemV>::empty());
        assert(crate::expansions2(Seq::<ItemV>::empty()) == Seq::<TokV>::empty());
        assert(crate::expansions2(seq![m]) == crate::expansions2(Seq::<ItemV>::empty())
            + crate::expansion2(m));
        assert(crate::expansions2(seq![m]) =~= crate::expansion2(m));
    }
}

/// Law: each field of the generated struct keeps the attributes, the
/// visibility, the name and the type of the declared field, token for token;
/// only the `:` is new, and what followed the type is gone.
pub proof fn law_field_keeps_its_declaration(f: LocalV)
    ensures
        ({
            let k = (f.attrs.len() + f.vis.len()) as int;
            crate::expand::local_decl(f) == local_source(f).take(k + 1) + seq![alone(':')]
                + local_source(f).subrange(k + 2, k + 2 + f.ty.len()) + seq![alone(',')]
        }),
{
    let k = (f.attrs.len() + f.vis.len()) as int;
    assert(local_source(f).take(k + 1) =~= f.attrs + f.vis + seq![f.ident]);
    assert(local_source(f).subrange(k + 2, k + 2 + f.ty.len()) =~= f.ty);
    assert(crate::expand::local_decl(f) =~= local_source(f).take(k + 1) + seq![alone(':')]
        + local_source(f).subrange(k + 2, k + 2 + f.ty.len()) + seq![alone(',')]);
}

/// Law: the generated struct starts with the attributes, the visibility, the
/// word `struct` and the name of the input, token for token.
pub proof fn law_struct_keeps_attributes_and_visibility(toks: Seq<TokV>)
    ensures
        item_parse_all(toks) matches Ok(m) ==> {
            let k = (m.attrs.len() + m.vis.len()) as int;
            &&& crate::structs::struct_item(m).take(k + 2) == toks.take(k + 2)
            &&& crate::structs2::struct_item(m).take(k + 2) == toks.take(k + 2)
        },
{
    law_parse_keeps_every_token(toks);
    if let Ok(m) = item_parse_all(toks) {
        let k = (m.attrs.len() + m.vis.len()) as int;
        let end = toks.len() as int;
        let a = longest(SynKind::OuterAttrs, toks, 0, 0, end);
        let v = longest(SynKind::Visibility, toks, a, a, end);
        assert(m.struct_token == toks[v]);
        assert(m.struct_token == TokV::Ident("struct"@));
        assert(crate::structs::struct_item(m).take(k + 2) =~= m.attrs + m.vis + seq![
            m.struct_token,
            m.ident,
        ]);
        assert(crate::structs2::struct_item(m).take(k + 2) =~= m.attrs + m.vis + seq![
            m.struct_token,
            m.ident,
        ]);
        assert(item_source(m).take(k + 2) =~= m.attrs + m.vis + seq![m.struct_token, m.ident]);
    }
}

/// Law: the two ways of writing a field of the struct literal in `new` agree:
/// `struct_new2` writes `ident: ident` where `struct_new` writes the shorthand
/// `ident`, and both write `ident: default` for a field with a default.
pub proof fn law_field_values_agree(f: LocalV)
    ensures
        value_explicit(f) == value_shorthand(f) + (if f.init is None {
            seq![alone(':'), f.ident]
        } else {
            Seq::empty()
        }),
{
    assert(value_explicit(f) =~= value_shorthand(f) + (if f.init is None {
        seq![alone(':'), f.ident]
    } else {
        Seq::empty()
    }));
}

/// Law: both struct literals in `new` list the fields in the order of the
/// declaration, separated by commas; `struct_new` ends the list with a comma.
pub proof fn law_struct_literals_agree(fs: Seq<LocalV>)
    ensures
        values_explicit(fs) == join_comma(fs.map_values(|f: LocalV| value_explicit(f))),
        values_shorthand(fs) == (if fs.len() == 0 {
            Seq::<TokV>::empty()
        } else {
            join_comma(fs.map_values(|f: LocalV| value_shorthand(f))) + seq![alone(',')]
        }),
    decreases fs.len(),
{
    if fs.len() > 0 {
        law_struct_literals_agree(fs.drop_last());
        let ex = fs.map_values(|f: LocalV| value_explicit(f));
        let sh = fs.map_values(|f: LocalV| value_shorthand(f));
        assert(ex.drop_last() =~= fs.drop_last().map_values(|f: LocalV| value_explicit(f)));
        assert(sh.drop_last() =~= fs.drop_last().map_values(|f: LocalV| value_shorthand(f)));
        assert(values_shorthand(fs) =~= join_comma(sh) + seq![alone(',')]);
    }
}

/// Lifetime parameters come before all the others.
pub open spec fn lifetimes_first(ps: Seq<ParamV>) -> bool {
    forall|i: int, j: int|
        0 <= i < j < ps.len() && #[trigger] is_lifetime(ps[j]) ==> #[trigger] is_lifetime(ps[i])
}

/// Each generic parameter but the last is followed by a comma; the last may be.
pub open spec fn commas_fit(g: GenericsV) -> bool {
    g.commas.len() == g.params.len() || g.commas.len() + 1 == g.params.len()
}

proof fn lemma_params_commas_from(
    toks: Seq<TokV>,
    pos: int,
    end: int,
    ps: Seq<ParamV>,
    cs: Seq<TokV>,
)
    requires
        cs.len() == ps.len(),
    ensures
        params_parse_from(toks, pos, end, ps, cs) matches Ok((ps2, cs2, _)) ==> (cs2.len()
            == ps2.len() || cs2.len() + 1 == ps2.len()),
    decreases end - pos,
{
    if 0 <= pos <= end && !(pos < end && is_punct(toks[pos], '>')) {
        lemma_param_parse_bounds(toks, pos, end);
        if let Ok((p, q)) = param_parse(toks, pos, end) {
            if !(q < end && is_punct(toks[q], '>')) && q < end && is_punct(toks[q], ',') {
                lemma_params_commas_from(toks, q + 1, end, ps.push(p), cs.push(toks[q]));
            }
        }
    }
}

/// A parsed declaration has a comma after each generic parameter but the last.
pub proof fn lemma_parsed_commas_fit(toks: Seq<TokV>)
    ensures
        item_parse_all(toks) matches Ok(m) ==> commas_fit(m.generics),
{
    let end = toks.len() as int;
    let a = longest(SynKind::OuterAttrs, toks, 0, 0, end);
    let v = longest(SynKind::Visibility, toks, a, a, end);
    let pos = v + 2;
    if pos < end && is_punct(toks[pos], '<') {
        lemma_params_commas_from(toks, pos + 1, end, Seq::empty(), Seq::empty());
    }
}

/// Printing the first `m` parameters adds the `m`-th to what the first `m - 1`
/// gave, where lifetimes come first.
proof fn lemma_print_step(g: GenericsV, m: int, k: ParamPrint)
    requires
        lifetimes_first(g.params),
        1 <= m <= g.params.len(),
    ensures
        lifetimes_part(g, m, k) + others_part(g, m, k) == lifetimes_part(g, m - 1, k)
            + others_part(g, m - 1, k) + print_param(g.params[m - 1], k) + comma_after(g, m - 1),
{
    if is_lifetime(g.params[m - 1]) {
        lemma_all_lifetimes(g, m - 1);
        lemma_no_others(g, m - 1, k);
        assert(others_part(g, m - 1, k) == Seq::<TokV>::empty());
        assert(lifetimes_part(g, m, k) + others_part(g, m, k) =~= lifetimes_part(g, m - 1, k)
            + others_part(g, m - 1, k) + print_param(g.params[m - 1], k) + comma_after(g, m - 1));
    } else {
        assert(lifetimes_part(g, m, k) + others_part(g, m, k) =~= lifetimes_part(g, m - 1, k)
            + others_part(g, m - 1, k) + print_param(g.params[m - 1], k) + comma_after(g, m - 1));
    }
}

/// Before a lifetime, where lifetimes come first, there are only lifetimes.
proof fn lemma_all_lifetimes(g: GenericsV, m: int)
    requires
        lifetimes_first(g.params),
        0 <= m < g.params.len(),
        is_lifetime(g.params[m]),
    ensures
        !has_other(g, m),
    decreases m,
{
    if m > 0 {
        assert(is_lifetime(g.params[m - 1]));
        lemma_all_lifetimes(g, m - 1);
    }
}

/// Where lifetimes come first and every parameter has its comma, the names of
/// the first `m` parameters, each followed by its comma, are the generic
/// arguments of the struct's own type.
proof fn lemma_names_are_path_args(g: GenericsV, m: int)
    requires
        lifetimes_first(g.params),
        0 <= m <= g.params.len(),
        m <= g.commas.len(),
    ensures
        lifetimes_part(g, m, ParamPrint::Name) + others_part(g, m, ParamPrint::Name) == path_args(
            g.params.take(m),
        ),
    decreases m,
{
    if m == 0 {
        assert(g.params.take(0) =~= Seq::<ParamV>::empty());
    } else {
        lemma_names_are_path_args(g, m - 1);
        lemma_print_step(g, m, ParamPrint::Name);
        assert(g.params.take(m).drop_last() =~= g.params.take(m - 1));
    }
}

/// Where lifetimes come first and are followed by another parameter, each
/// lifetime has its comma, so no comma is added after them.
proof fn lemma_no_joining_comma(g: GenericsV)
    requires
        lifetimes_first(g.params),
        commas_fit(g),
    ensures
        joining_comma(g) == Seq::<TokV>::empty(),
{
    let n = g.params.len() as int;
    if n > 0 {
        if is_lifetime(g.params[n - 1]) {
            lemma_all_lifetimes(g, n - 1);
        } else {
            lemma_lifetimes_end_with_comma(g, n);
        }
    }
}

proof fn lemma_lifetimes_end_with_comma(g: GenericsV, m: int)
    requires
        lifetimes_first(g.params),
        commas_fit(g),
        0 <= m <= g.params.len(),
        g.params.len() > 0,
        !is_lifetime(g.params[g.params.len() - 1]),
    ensures
        lifetimes_end_with_comma(g, m),
    decreases m,
{
    if m > 0 {
        lemma_lifetimes_end_with_comma(g, m - 1);
    }
}

/// Law: the struct's type in the impl block is the same path in both
/// expansions, where lifetimes come first: `struct_new` writes the name and
/// `<`, each parameter's name followed by a comma, and `>`; `struct_new2`
/// writes the name and its type generics, which keep the comma before `>` only
/// where the input has one, and are nothing when there are no parameters.
pub proof fn law_self_type_paths_agree(ident: TokV, g: GenericsV)
    requires
        lifetimes_first(g.params),
        commas_fit(g),
    ensures
        ({
            let p = path_with_generics(ident, g.params);
            seq![ident] + ty_generics(g) == if g.params.len() == 0 {
                p.take(1)
            } else if g.commas.len() == g.params.len() {
                p
            } else {
                p.take(p.len() - 2) + seq![alone('>')]
            }
        }),
{
    let n = g.params.len() as int;
    let ps = g.params;
    let p = path_with_generics(ident, ps);
    let k = ParamPrint::Name;
    if n == 0 {
        assert(seq![ident] + ty_generics(g) =~= p.take(1));
    } else {
        lemma_no_joining_comma(g);
        lemma_names_are_path_args(g, n - 1);
        lemma_print_step(g, n, k);
        assert(ps.take(n).drop_last() =~= ps.take(n - 1));
        assert(ps.take(n) =~= ps);
        let body = lifetimes_part(g, n, k) + others_part(g, n, k);
        assert(ty_generics(g) =~= seq![alone('<')] + body + seq![alone('>')]);
        assert(path_args(ps) == path_args(ps.take(n - 1)) + crate::structs::param_name(ps[n - 1])
            + seq![alone(',')]);
        if g.commas.len() == n {
            assert(seq![ident] + ty_generics(g) =~= p);
        } else {
            assert(seq![ident] + ty_generics(g) =~= p.take(p.len() - 2) + seq![alone('>')]);
        }
    }
}

/// No generic parameter has a default.
pub open spec fn no_param_defaults(ps: Seq<ParamV>) -> bool {
    forall|i: int| 0 <= i < ps.len() ==> (#[trigger] ps[i]).default is None
}

proof fn lemma_full_is_plain_upto(g: GenericsV, m: int)
    requires
        no_param_defaults(g.params),
        m <= g.params.len(),
    ensures
        lifetimes_part(g, m, ParamPrint::Full) == lifetimes_part(g, m, ParamPrint::Plain),
        others_part(g, m, ParamPrint::Full) == others_part(g, m, ParamPrint::Plain),
    decreases m,
{
    if m > 0 {
        lemma_full_is_plain_upto(g, m - 1);
        let p = g.params[m - 1];
        assert(p.default is None);
        assert(print_param(p, ParamPrint::Full) =~= print_param(p, ParamPrint::Plain));
    }
}

/// Without defaults, generic parameters print the same whole or without their
/// defaults.
pub proof fn lemma_full_generics_are_plain(g: GenericsV)
    requires
        no_param_defaults(g.params),
    ensures
        printed_generics(g, ParamPrint::Full) == printed_generics(g, ParamPrint::Plain),
{
    lemma_full_is_plain_upto(g, g.params.len() as int);
}

/// Law: for a declaration whose generic parameters have no defaults and list the
/// lifetimes first, `struct_new` and `struct_new2` generate the same struct and
/// the same impl block up to the body's spelling: the same `impl<..>`, the same
/// where clause, and one `new` with the same visibility, parameters and
/// `-> Self`; the struct's type is the same path, with the comma before `>`
/// kept by `struct_new2` only where the input has it; and the struct literals
/// list the same fields in the same order, `Name { f, g: e, }` against
/// `Self { f: f, g: e }`.
pub proof fn law_expansions_agree(toks: Seq<TokV>)
    ensures
        item_parse_all(toks) matches Ok(m) ==> (lifetimes_first(m.generics.params)
            && no_param_defaults(m.generics.params) ==> {
            let g = m.generics;
            let fs = m.fields.named;
            let head = seq![TokV::Ident("impl"@)] + impl_generics(g);
            let w = where_tokens(g);
            let args = fn_args(fs);
            let p = path_with_generics(m.ident, g.params);
            &&& crate::structs::struct_item(m) == crate::structs2::struct_item(m)
            &&& crate::structs::impl_tokens(m) == head + p + w + seq![
                TokV::Group(
                    Delimiter::Brace,
                    new_fn_tokens(m.vis, args, m.ident, values_shorthand(fs)),
                ),
            ]
            &&& crate::structs2::impl_item(m) == head + seq![m.ident] + ty_generics(g) + w + seq![
                TokV::Group(
                    Delimiter::Brace,
                    new_fn_tokens(m.vis, args, TokV::Ident("Self"@), values_explicit(fs)),
                ),
            ]
            &&& seq![m.ident] + ty_generics(g) == if g.params.len() == 0 {
                p.take(1)
            } else if g.commas.len() == g.params.len() {
                p
            } else {
                p.take(p.len() - 2) + seq![alone('>')]
            }
            &&& values_explicit(fs) == join_comma(fs.map_values(|f: LocalV| value_explicit(f)))
            &&& values_shorthand(fs) == (if fs.len() == 0 {
                Seq::<TokV>::empty()
            } else {
                join_comma(fs.map_values(|f: LocalV| value_shorthand(f))) + seq![alone(',')]
            })
            &&& forall|i: int|
                0 <= i < fs.len() ==> value_explicit(#[trigger] fs[i]) == value_shorthand(fs[i]) + (
                if fs[i].init is None {
                    seq![alone(':'), fs[i].ident]
                } else {
                    Seq::empty()
                })
        }),
{
    if let Ok(m) = item_parse_all(toks) {
        let g = m.generics;
        if lifetimes_first(g.params) && no_param_defaults(g.params) {
            lemma_parsed_commas_fit(toks);
            lemma_full_generics_are_plain(g);
            law_self_type_paths_agree(m.ident, g);
            law_struct_literals_agree(m.fields.named);
            assert forall|i: int| 0 <= i < m.fields.named.len() implies value_explicit(
                #[trigger] m.fields.named[i],
            ) == value_shorthand(m.fields.named[i]) + (if m.fields.named[i].init is None {
                seq![alone(':'), m.fields.named[i].ident]
            } else {
                Seq::empty()
            }) by {
                law_field_values_agree(m.fields.named[i]);
            }
            let head = seq![TokV::Ident("impl"@)] + impl_generics(g);
            assert(crate::structs::impl_tokens(m) =~= head + path_with_generics(m.ident, g.params)
                + where_tokens(g) + seq![
                TokV::Group(
                    Delimiter::Brace,
                    new_fn_tokens(m.vis, fn_args(m.fields.named), m.ident, values_shorthand(m.fields.named)),
                ),
            ]);
            assert(crate::structs2::impl_item(m) =~= head + seq![m.ident] + ty_generics(g)
                + where_tokens(g) + seq![
                TokV::Group(
                    Delimiter::Brace,
                    new_fn_tokens(
                        m.vis,
                        fn_args(m.fields.named),
                        TokV::Ident("Self"@),
                        values_explicit(m.fields.named),
                    ),
                ),
            ]);
        }
    }
}

/// Where the type of the field read at `pos` ends: after its attributes, its
/// visibility, its name, the `:` and the type.
pub open spec fn type_end(f: LocalV, pos: int) -> int {
    pos + f.attrs.len() + f.vis.len() + 2 + f.ty.len()
}

/// Law: what a field gives `new`, told by the tokens of its declaration. A field
/// whose type is followed by `=` and then by tokens that syn reads as an
/// expression has a default: the tokens written after the `=`, up to the end of
/// the field. Both struct literals give a field with a default the field's name,
/// `:` and those tokens; a field without one is a parameter of `new`, its name,
/// `:` and its type as written, with none of its attributes or its visibility.
pub proof fn law_field_gives_new_what_is_written(toks: Seq<TokV>, pos: int)
    requires
        0 <= pos <= toks.len(),
    ensures
        local_parse(toks, pos) matches Ok((f, n)) ==> {
            let t = type_end(f, pos);
            let name = toks[pos + f.attrs.len() + f.vis.len()];
            &&& f.ident == name
            &&& (t < toks.len() && is_punct(toks[t], '=') && (exists|k: int|
                t + 1 < k <= toks.len() && #[trigger] accepts_range(SynKind::Expr, toks, t + 1, k)))
                ==> f.init == Some((toks[t], toks.subrange(t + 1, n)))
            &&& (f.init matches Some((eq, e)) ==> {
                &&& is_punct(eq, '=') && eq == toks[t]
                &&& e == toks.subrange(t + 1, n) && e.len() > 0
                &&& accepts_range(SynKind::Expr, toks, t + 1, n)
                &&& value_shorthand(f) == seq![name, alone(':')] + toks.subrange(t + 1, n)
                &&& value_explicit(f) == seq![name, alone(':')] + toks.subrange(t + 1, n)
            })
            &&& (f.init is None ==> {
                &&& value_shorthand(f) == seq![name]
                &&& value_explicit(f) == seq![name, alone(':'), name]
                &&& fn_arg(f) == seq![name, alone(':')] + toks.subrange(t - f.ty.len(), t)
            })
        },
{
    let end = toks.len() as int;
    lemma_local_parse_bounds(toks, pos);
    lemma_longest(SynKind::OuterAttrs, toks, pos, pos, end);
    let a = longest(SynKind::OuterAttrs, toks, pos, pos, end);
    if a >= pos {
        lemma_longest(SynKind::Visibility, toks, a, a, end);
        let v = longest(SynKind::Visibility, toks, a, a, end);
        if v >= a && v + 1 < end {
            lemma_longest(SynKind::Type, toks, v + 2, v + 3, end);
            let t = longest(SynKind::Type, toks, v + 2, v + 3, end);
            let eq = t < end && is_punct(toks[t], '=');
            let p = if eq {
                t + 1
            } else {
                t
            };
            lemma_longest(SynKind::Expr, toks, p, p + 1, end);
            if let Ok((f, n)) = local_parse(toks, pos) {
                assert(f.attrs.len() == a - pos);
                assert(f.vis.len() == v - a);
                assert(f.ty.len() == t - (v + 2));
                assert(type_end(f, pos) == t);
                assert(toks.subrange(t - f.ty.len(), t) == f.ty);
                if let Some((_, e)) = f.init {
                    assert(value_explicit(f) =~= seq![f.ident, alone(':')] + e);
                }
            }
        }
    }
}

/// The where clause as generated: as written when it has a predicate (more than
/// the word `where`), otherwise nothing.
pub open spec fn where_kept(g: GenericsV) -> Seq<TokV> {
    if where_source(g).len() > 1 {
        where_source(g)
    } else {
        Seq::<TokV>::empty()
    }
}

/// Where the where clause stands in each generated item.
proof fn lemma_where_positions(m: ItemV)
    ensures
        ({
            let g = m.generics;
            let w = where_kept(g);
            let full = printed_generics(g, ParamPrint::Full);
            let k1: int = (m.attrs.len() + m.vis.len() + 2 + full.len()) as int;
            let k2: int = (m.attrs.len() + m.vis.len() + 2 + impl_generics(g).len()) as int;
            let k3: int = (1 + full.len() + path_with_generics(m.ident, g.params).len()) as int;
            let k4: int = (2 + impl_generics(g).len() + ty_generics(g).len()) as int;
            &&& crate::structs::struct_item(m).len() == k1 + w.len() + 1
            &&& crate::structs::struct_item(m).subrange(k1, k1 + w.len()) == w
            &&& crate::structs2::struct_item(m).len() == k2 + w.len() + 1
            &&& crate::structs2::struct_item(m).subrange(k2, k2 + w.len()) == w
            &&& crate::structs::impl_tokens(m).len() == k3 + w.len() + 1
            &&& crate::structs::impl_tokens(m).subrange(k3, k3 + w.len()) == w
            &&& crate::structs2::impl_item(m).len() == k4 + w.len() + 1
            &&& crate::structs2::impl_item(m).subrange(k4, k4 + w.len()) == w
        }),
{
    let g = m.generics;
    let w = where_kept(g);
    assert(where_tokens(g) == w);
    let full = printed_generics(g, ParamPrint::Full);
    let k1: int = (m.attrs.len() + m.vis.len() + 2 + full.len()) as int;
    let k2: int = (m.attrs.len() + m.vis.len() + 2 + impl_generics(g).len()) as int;
    let k3: int = (1 + full.len() + path_with_generics(m.ident, g.params).len()) as int;
    let k4: int = (2 + impl_generics(g).len() + ty_generics(g).len()) as int;
    assert(crate::structs::struct_item(m).subrange(k1, k1 + w.len()) =~= w);
    assert(crate::structs2::struct_item(m).subrange(k2, k2 + w.len()) =~= w);
    assert(crate::structs::impl_tokens(m).subrange(k3, k3 + w.len()) =~= w);
    assert(crate::structs2::impl_item(m).subrange(k4, k4 + w.len()) =~= w);
}

/// Law: the generated structs and impl blocks keep the where clause as written,
/// token for token, right before the braces, whenever it has a predicate (more
/// than the word `where`); without one, nothing stands there.
pub proof fn law_where_clause_is_kept(toks: Seq<TokV>)
    ensures
        item_parse_all(toks) matches Ok(m) ==> {
            let g = m.generics;
            let w = where_kept(g);
            let full = printed_generics(g, ParamPrint::Full);
            let k1: int = (m.attrs.len() + m.vis.len() + 2 + full.len()) as int;
            let k2: int = (m.attrs.len() + m.vis.len() + 2 + impl_generics(g).len()) as int;
            let k3: int = (1 + full.len() + path_with_generics(m.ident, g.params).len()) as int;
            let k4: int = (2 + impl_generics(g).len() + ty_generics(g).len()) as int;
            &&& where_source(g).len() > 0 ==> where_source(g)[0] == TokV::Ident("where"@)
            &&& crate::structs::struct_item(m).len() == k1 + w.len() + 1
            &&& crate::structs::struct_item(m).subrange(k1, k1 + w.len()) == w
            &&& crate::structs2::struct_item(m).len() == k2 + w.len() + 1
            &&& crate::structs2::struct_item(m).subrange(k2, k2 + w.len()) == w
            &&& crate::structs::impl_tokens(m).len() == k3 + w.len() + 1
            &&& crate::structs::impl_tokens(m).subrange(k3, k3 + w.len()) == w
            &&& crate::structs2::impl_item(m).len() == k4 + w.len() + 1
            &&& crate::structs2::impl_item(m).subrange(k4, k4 + w.len()) == w
        },
{
    law_parse_keeps_every_token(toks);
    if let Ok(m) = item_parse_all(toks) {
        lemma_where_positions(m);
        lemma_where_word(toks);
    }
}

proof fn lemma_where_word(toks: Seq<TokV>)
    ensures
        item_parse_all(toks) matches Ok(m) ==> (where_source(m.generics).len() > 0
            ==> where_source(m.generics)[0] == TokV::Ident("where"@)),
{
    let end = toks.len() as int;
    lemma_longest(SynKind::OuterAttrs, toks, 0, 0, end);
    let a = longest(SynKind::OuterAttrs, toks, 0, 0, end);
    if a >= 0 {
        lemma_longest(SynKind::Visibility, toks, a, a, end);
        let v = longest(SynKind::Visibility, toks, a, a, end);
        if v >= a && v + 2 <= end {
            crate::structs::lemma_generics_parse_bounds(toks, v + 2, end);
            if let Ok((g, q)) = generics_parse(toks, v + 2, end) {
                crate::structs::lemma_where_parse_bounds(toks, q, end);
                lemma_longest(SynKind::WhereClause, toks, q, q + 1, end);
            }
        }
    }
}

/// The parameter is written as its name and a `:` with no bound after it.
pub open spec fn bare_colon(p: ParamV) -> bool {
    let name = crate::structs::param_name(p);
    &&& crate::structs::param_kind(p) != crate::structs::ParamKind::Const
    &&& p.body.len() == name.len() + 1
    &&& p.body.take(name.len() as int) == name
    &&& is_punct(p.body.last(), ':')
}

/// Law: a generic parameter is printed as written, bounds included, in the struct
/// and the impl of both expansions: with its attributes and its body; whole, with
/// its default, where the default is kept. The one change is that a name written
/// with a `:` and no bound loses the `:`.
pub proof fn law_generic_parameter_printed_as_written(p: ParamV)
    ensures
        print_param(p, ParamPrint::Plain) == p.attrs + (if bare_colon(p) {
            crate::structs::param_name(p)
        } else {
            p.body
        }),
        print_param(p, ParamPrint::Full) == print_param(p, ParamPrint::Plain) + match p.default {
            Some((eq, d)) => seq![eq] + d,
            None => Seq::empty(),
        },
{
    let name = crate::structs::param_name(p);
    let n: int = if crate::structs::param_kind(p) == crate::structs::ParamKind::Lifetime {
        2
    } else {
        1
    };
    if crate::structs::param_kind(p) != crate::structs::ParamKind::Const && p.body.len() == n + 1 {
        assert(name =~= p.body.subrange(0, n));
        assert(p.body.take(name.len() as int) =~= name);
        assert(p.body.last() == p.body[n]);
    }
    if bare_colon(p) {
        assert(p.body.len() == n + 1);
    }
    assert(print_param(p, ParamPrint::Full) =~= print_param(p, ParamPrint::Plain) + match p.default {
        Some((eq, d)) => seq![eq] + d,
        None => Seq::empty(),
    });
}

/// Law: the impl block of each expansion holds one function, `new`, with the
/// visibility of the declaration as written, the parameters of the fields without
/// a default, `-> Self`, and a body that builds the struct: `Name { .. }`, with
/// the name of the input, in `struct_new`, and `Self { .. }` in `struct_new2`.
pub proof fn law_new_is_declared_as_written(toks: Seq<TokV>)
    ensures
        item_parse_all(toks) matches Ok(m) ==> {
            let k = m.attrs.len() as int;
            let vis = toks.subrange(k, k + m.vis.len());
            let name = toks[k + m.vis.len() + 1];
            let fs = m.fields.named;
            let head = vis + seq![
                TokV::Ident("fn"@),
                TokV::Ident("new"@),
                TokV::Group(Delimiter::Parenthesis, fn_args(fs)),
                TokV::Punct('-', crate::token::Spacing::Joint),
                alone('>'),
                TokV::Ident("Self"@),
            ];
            &&& crate::structs::impl_tokens(m)[0] == TokV::Ident("impl"@)
            &&& crate::structs2::impl_item(m)[0] == TokV::Ident("impl"@)
            &&& crate::structs::impl_tokens(m).last() == TokV::Group(
                Delimiter::Brace,
                head + seq![
                    TokV::Group(
                        Delimiter::Brace,
                        seq![name, TokV::Group(Delimiter::Brace, values_shorthand(fs))],
                    ),
                ],
            )
            &&& crate::structs2::impl_item(m).last() == TokV::Group(
                Delimiter::Brace,
                head + seq![
                    TokV::Group(
                        Delimiter::Brace,
                        seq![
                            TokV::Ident("Self"@),
                            TokV::Group(Delimiter::Brace, values_explicit(fs)),
                        ],
                    ),
                ],
            )
        },
{
    law_parse_keeps_every_token(toks);
    if let Ok(m) = item_parse_all(toks) {
        let k = m.attrs.len() as int;
        assert(item_source(m).subrange(k, k + m.vis.len()) =~= m.vis);
        assert(item_source(m)[k + m.vis.len() + 1] == m.ident);
        lemma_new_fn_shape(m);
    }
}

/// The `new` function of each expansion, piece by piece.
proof fn lemma_new_fn_shape(m: ItemV)
    ensures
        ({
            let fs = m.fields.named;
            let head = m.vis + seq![
                TokV::Ident("fn"@),
                TokV::Ident("new"@),
                TokV::Group(Delimiter::Parenthesis, fn_args(fs)),
                TokV::Punct('-', crate::token::Spacing::Joint),
                alone('>'),
                TokV::Ident("Self"@),
            ];
            &&& crate::structs::impl_tokens(m)[0] == TokV::Ident("impl"@)
            &&& crate::structs2::impl_item(m)[0] == TokV::Ident("impl"@)
            &&& crate::structs::impl_tokens(m).last() == TokV::Group(
                Delimiter::Brace,
                head + seq![
                    TokV::Group(
                        Delimiter::Brace,
                        seq![m.ident, TokV::Group(Delimiter::Brace, values_shorthand(fs))],
                    ),
                ],
            )
            &&& crate::structs2::impl_item(m).last() == TokV::Group(
                Delimiter::Brace,
                head + seq![
                    TokV::Group(
                        Delimiter::Brace,
                        seq![
                            TokV::Ident("Self"@),
                            TokV::Group(Delimiter::Brace, values_explicit(fs)),
                        ],
                    ),
                ],
            )
        }),
{
    let fs = m.fields.named;
    let head = m.vis + seq![
        TokV::Ident("fn"@),
        TokV::Ident("new"@),
        TokV::Group(Delimiter::Parenthesis, fn_args(fs)),
        TokV::Punct('-', crate::token::Spacing::Joint),
        alone('>'),
        TokV::Ident("Self"@),
    ];
    assert(new_fn_tokens(m.vis, fn_args(fs), m.ident, values_shorthand(fs)) =~= head + seq![
        TokV::Group(
            Delimiter::Brace,
            seq![m.ident, TokV::Group(Delimiter::Brace, values_shorthand(fs))],
        ),
    ]);
    assert(new_fn_tokens(m.vis, fn_args(fs), TokV::Ident("Self"@), values_explicit(fs))
        =~= head + seq![
        TokV::Group(
            Delimiter::Brace,
            seq![TokV::Ident("Self"@), TokV::Group(Delimiter::Brace, values_explicit(fs))],
        ),
    ]);
}

proof fn lemma_fields_decl_append(a: Seq<LocalV>, b: Seq<LocalV>)
    ensures
        fields_decl(a + b) == fields_decl(a) + fields_decl(b),
    decreases b.len(),
{
    if b.len() == 0 {
        assert(a + b =~= a);
        assert(fields_decl(b) =~= Seq::<TokV>::empty());
        assert(fields_decl(a) + fields_decl(b) =~= fields_decl(a));
    } else {
        lemma_fields_decl_append(a, b.drop_last());
        assert((a + b).drop_last() =~= a + b.drop_last());
        assert((a + b).last() == b.last());
        assert(fields_decl(a + b) =~= fields_decl(a) + fields_decl(b));
    }
}

/// Law: each generated struct holds, in braces, the declaration of every field
/// of the input, each once, in the order of the input: the declarations of the
/// fields before a field, then its own, then those of the fields after it.
pub proof fn law_struct_fields_in_order(toks: Seq<TokV>)
    ensures
        item_parse_all(toks) matches Ok(m) ==> {
            let fs = m.fields.named;
            &&& crate::structs::struct_item(m).last() == TokV::Group(
                Delimiter::Brace,
                fields_decl(fs),
            )
            &&& crate::structs2::struct_item(m).last() == TokV::Group(
                Delimiter::Brace,
                fields_decl(fs),
            )
            &&& forall|i: int|
                0 <= i < fs.len() ==> fields_decl(fs) == fields_decl(fs.take(i)) + local_decl(
                    #[trigger] fs[i],
                ) + fields_decl(fs.skip(i + 1))
        },
{
    if let Ok(m) = item_parse_all(toks) {
        let fs = m.fields.named;
        assert forall|i: int| 0 <= i < fs.len() implies fields_decl(fs) == fields_decl(fs.take(i))
            + local_decl(#[trigger] fs[i]) + fields_decl(fs.skip(i + 1)) by {
            assert(fs =~= fs.take(i + 1) + fs.skip(i + 1));
            lemma_fields_decl_append(fs.take(i + 1), fs.skip(i + 1));
            assert(fs.take(i + 1).drop_last() =~= fs.take(i));
            assert(fs.take(i + 1).last() == fs[i]);
        }
    }
}

/// A generic parameter as the expansions print it: its attributes and its body,
/// where a name written with a `:` and no bound loses the `:`; then, where
/// `with_default`, its `= default` as written.
pub open spec fn param_as_written(p: ParamV, with_default: bool) -> Seq<TokV> {
    p.attrs + (if bare_colon(p) {
        crate::structs::param_name(p)
    } else {
        p.body
    }) + (if with_default {
        match p.default {
            Some((eq, d)) => seq![eq] + d,
            None => Seq::empty(),
        }
    } else {
        Seq::empty()
    })
}

/// The first `m` generic parameters as the expansions print them, each followed
/// by a comma where the input has one after it.
pub open spec fn params_as_written(g: GenericsV, m: int, with_default: bool) -> Seq<TokV>
    decreases m,
{
    if m <= 0 {
        Seq::empty()
    } else {
        params_as_written(g, m - 1, with_default) + param_as_written(g.params[m - 1], with_default)
            + (if m - 1 < g.commas.len() {
            seq![alone(',')]
        } else {
            Seq::empty()
        })
    }
}

proof fn lemma_params_as_written(g: GenericsV, m: int, k: ParamPrint)
    requires
        lifetimes_first(g.params),
        0 <= m <= g.params.len(),
        k == ParamPrint::Full || k == ParamPrint::Plain,
    ensures
        lifetimes_part(g, m, k) + others_part(g, m, k) == params_as_written(
            g,
            m,
            k == ParamPrint::Full,
        ),
    decreases m,
{
    if m == 0 {
        assert(lifetimes_part(g, 0, k) + others_part(g, 0, k) =~= Seq::<TokV>::empty());
    } else {
        lemma_params_as_written(g, m - 1, k);
        lemma_print_step(g, m, k);
        let p = g.params[m - 1];
        law_generic_parameter_printed_as_written(p);
        assert(print_param(p, k) =~= param_as_written(p, k == ParamPrint::Full));
        assert(comma_after(g, m - 1) =~= (if m - 1 < g.commas.len() {
            seq![alone(',')]
        } else {
            Seq::empty()
        }));
    }
}

/// Law: where lifetimes come first, the generic parameters of the generated code
/// are those of the input, in order, each printed as written (bounds included)
/// and followed by its comma where the input has one, between `<` and `>`; the
/// impl generics of `struct_new2` (and its struct's) leave the defaults out, the
/// generics of `struct_new` keep them. Without parameters nothing is printed.
pub proof fn law_generics_printed_as_written(g: GenericsV)
    requires
        lifetimes_first(g.params),
        commas_fit(g),
    ensures
        impl_generics(g) == (if g.params.len() == 0 {
            Seq::<TokV>::empty()
        } else {
            seq![alone('<')] + params_as_written(g, g.params.len() as int, false) + seq![
                alone('>'),
            ]
        }),
        printed_generics(g, ParamPrint::Full) == (if g.params.len() == 0 {
            Seq::<TokV>::empty()
        } else {
            seq![alone('<')] + params_as_written(g, g.params.len() as int, true) + seq![
                alone('>'),
            ]
        }),
{
    let n = g.params.len() as int;
    if n > 0 {
        lemma_no_joining_comma(g);
        lemma_params_as_written(g, n, ParamPrint::Plain);
        lemma_params_as_written(g, n, ParamPrint::Full);
        assert(impl_generics(g) =~= seq![alone('<')] + params_as_written(g, n, false) + seq![
            alone('>'),
        ]);
        assert(printed_generics(g, ParamPrint::Full) =~= seq![alone('<')] + params_as_written(
            g,
            n,
            true,
        ) + seq![alone('>')]);
    }
}

} // verus!
