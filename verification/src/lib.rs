//! Generates a struct and its `new` constructor from a struct declaration whose
//! fields may carry default values: `name: Type = expr`. The constructor takes
//! the fields without a default as parameters, in order, and fills the others
//! with their defaults. The input and the output are token trees.
use vstd::prelude::*;

pub mod expand;
pub mod laws;
pub mod structs;
pub mod structs2;
pub mod syntax;
mod text;
pub mod token;

use crate::structs::{
    GenericParam, ItemV, ParamKind, ParseError, item_parse_all, no_const_params, param_kind_of,
};
use crate::structs2::{ItemListV, items_parse};
use crate::token::{Tok, TokV, extend_toks, lemma_view_seq, toks_view};

verus! {

/// Why a macro input was not expanded.
#[derive(Clone, Copy, Debug, PartialEq, Eq, Structural)]
pub enum ExpandError {
    /// The input is not a struct declaration of this syntax.
    Parse(ParseError),
    /// `struct_new` names the struct's type with the generic parameters as
    /// arguments and has no argument for a const parameter.
    ConstGenericParam,
}

/// Whether no generic parameter is a const parameter.
fn has_no_const_param(params: &Vec<GenericParam>) -> (r: bool)
    ensures
        r == no_const_params(params@.map_values(|p: GenericParam| p.view())),
{
    let ghost ps = params@.map_values(|p: GenericParam| p.view());
    let mut i: usize = 0;
    while i < params.len()
        invariant
            i <= params.len(),
            ps == params@.map_values(|p: GenericParam| p.view()),
            forall|j: int|
                0 <= j < i ==> crate::structs::param_kind(#[trigger] ps[j]) != ParamKind::Const,
        decreases params.len() - i,
    {
        if param_kind_of(&params[i]) == ParamKind::Const {
            assert(crate::structs::param_kind(ps[i as int]) == ParamKind::Const);
            return false;
        }
        i += 1;
    }
    true
}

/// The expansion of `struct_new`: the struct, then the impl block with `new`.
pub open spec fn expansion(m: ItemV) -> Seq<TokV> {
    structs::struct_item(m) + structs::impl_tokens(m)
}

/// The expansion of `struct_new2` for one declaration.
pub open spec fn expansion2(m: ItemV) -> Seq<TokV> {
    structs2::struct_item(m) + structs2::impl_item(m)
}

/// The expansions of `structs_new2`, one declaration after the other.
pub open spec fn expansions2(ms: Seq<ItemV>) -> Seq<TokV>
    decreases ms.len(),
{
    if ms.len() == 0 {
        Seq::empty()
    } else {
        expansions2(ms.drop_last()) + expansion2(ms.last())
    }
}

/// Expands one struct declaration that takes up the whole input into the struct
/// and an impl block, `impl<..> Name<..> { fn new(..) -> Self { Name { .. } } }`.
pub fn struct_new(input: Vec<Tok>) -> (r: Result<Vec<Tok>, ExpandError>)
    ensures
        match r {
            Ok(out) => match item_parse_all(toks_view(input)) {
                Ok(m) => no_const_params(m.generics.params) && toks_view(out) == expansion(m),
                Err(_) => false,
            },
            Err(ExpandError::Parse(e)) => item_parse_all(toks_view(input)) == Err::<
                ItemV,
                ParseError,
            >(e),
            Err(ExpandError::ConstGenericParam) => match item_parse_all(toks_view(input)) {
                Ok(m) => !no_const_params(m.generics.params),
                Err(_) => false,
            },
        },
{
    proof {
        lemma_view_seq(input@);
    }
    let (m, n) = match structs::NewItemStruct::parse(&input, 0, input.len()) {
        Ok(x) => x,
        Err(e) => return Err(ExpandError::Parse(e)),
    };
    if n != input.len() {
        return Err(ExpandError::Parse(ParseError::UnexpectedToken));
    }
    if !has_no_const_param(&m.generics.params) {
        return Err(ExpandError::ConstGenericParam);
    }
    let (mut item_struct, item_impl) = m.split();
    extend_toks(&mut item_struct, &item_impl);
    Ok(item_struct)
}

/// Expands one struct declaration that takes up the whole input into the struct
/// and an impl block, `impl<..> Name<..> { fn new(..) -> Self { Self { .. } } }`.
pub fn struct_new2(input: Vec<Tok>) -> (r: Result<Vec<Tok>, ParseError>)
    ensures
        match r {
            Ok(out) => match item_parse_all(toks_view(input)) {
                Ok(m) => toks_view(out) == expansion2(m),
                Err(_) => false,
            },
            Err(e) => item_parse_all(toks_view(input)) == Err::<ItemV, ParseError>(e),
        },
{
    proof {
        lemma_view_seq(input@);
    }
    let (m, n) = match structs2::NewItemStruct::parse(&input, 0, input.len()) {
        Ok(x) => x,
        Err(e) => return Err(e),
    };
    if n != input.len() {
        return Err(ParseError::UnexpectedToken);
    }
    let (mut item_struct, item_impl) = m.split();
    extend_toks(&mut item_struct, &item_impl);
    Ok(item_struct)
}

/// Expands struct declarations separated by `;`, each as `struct_new2` does,
/// one after the other.
pub fn structs_new2(input: Vec<Tok>) -> (r: Result<Vec<Tok>, ParseError>)
    ensures
        match r {
            Ok(out) => match items_parse(toks_view(input)) {
                Ok(l) => toks_view(out) == expansions2(l.items),
                Err(_) => false,
            },
            Err(e) => items_parse(toks_view(input)) == Err::<ItemListV, ParseError>(e),
        },
{
    let new_structs = match structs2::NewItemStruct::parse_multi(&input) {
        Ok(l) => l.items,
        Err(e) => return Err(e),
    };
    let ghost ms = new_structs@.map_values(|m: structs2::NewItemStruct| m.view());
    let mut out: Vec<Tok> = Vec::new();
    proof {
        lemma_view_seq(out@);
        assert(ms.take(0) =~= Seq::<ItemV>::empty());
    }
    let mut rest = new_structs;
    let ghost n = ms.len();
    proof {
        assert(rest@.map_values(|m: structs2::NewItemStruct| m.view()) =~= ms.subrange(0, n as int));
    }
    while rest.len() > 0
        invariant
            0 <= n - rest@.len() <= n,
            ms.len() == n,
            rest@.map_values(|m: structs2::NewItemStruct| m.view()) == ms.subrange(
                n - rest@.len(),
                n as int,
            ),
            toks_view(out) == expansions2(ms.take(n - rest@.len())),
        decreases rest.len(),
    {
        let ghost i = n - rest@.len();
        let ghost old_rest = rest@;
        let m = rest.remove(0);
        proof {
            assert(m.view() == old_rest.map_values(|m: structs2::NewItemStruct| m.view())[0]);
            assert(m.view() == ms[i]);
            assert(rest@ =~= old_rest.subrange(1, old_rest.len() as int));
            assert forall|j: int| 0 <= j < rest@.len() implies rest@[j].view() == ms[i + 1 + j] by {
                assert(old_rest.map_values(|m: structs2::NewItemStruct| m.view())[j + 1]
                    == ms.subrange(i, n as int)[j + 1]);
            }
            assert(rest@.map_values(|m: structs2::NewItemStruct| m.view()) =~= ms.subrange(
                n - rest@.len(),
                n as int,
            ));
            assert(ms.take(i + 1).drop_last() =~= ms.take(i));
        }
        let (item_struct, item_impl) = m.split();
        extend_toks(&mut out, &item_struct);
        extend_toks(&mut out, &item_impl);
        proof {
            assert(toks_view(out) =~= expansions2(ms.take(i + 1)));
        }
    }
    proof {
        assert(ms.take(n as int) =~= ms);
    }
    Ok(out)
}

} // verus!
