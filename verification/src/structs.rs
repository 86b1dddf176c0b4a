//! A struct whose fields may carry a default value (`name: Type = expr`), its
//! grammar, and the expansion that builds the struct and its `new` constructor
//! from syntax trees written out token by token.
use vstd::prelude::*;
use crate::expand::{
    ParamPrint, alone, fields_decl, fn_arg, fn_args, local_decl, new_fn_tokens, new_fn_tokens_of,
    no_default, printed_generics, printed_generics_of, struct_tokens, struct_tokens_of,
    where_tokens, where_tokens_of,
};
use crate::syntax::{SynKind, accepts_at, accepts_range, lemma_longest, longest, longest_prefix};
use crate::text::str_eq;
use crate::token::{
    Delimiter, Tok, TokV, clone_range, clone_tok, extend_toks, group, lemma_view_seq, push_tok,
    punct, toks_view, view_seq, word,
};

verus! {

// ---------------------------------------------------------------------------
// The model
// ---------------------------------------------------------------------------
/// Why a token sequence is not a struct declaration of this library's syntax.
#[derive(Clone, Copy, Debug, PartialEq, Eq, Structural)]
pub enum ParseError {
    /// syn accepts no run of tokens here, not even none, as outer attributes.
    ExpectedAttributes,
    /// syn accepts no run of tokens here, not even none, as a visibility.
    ExpectedVisibility,
    /// The word `struct` is missing.
    ExpectedStruct,
    /// The token is not one that syn reads as an identifier.
    ExpectedIdent,
    /// The `:` after a field's name is missing.
    ExpectedColon,
    /// No run of tokens after the `:` is a type.
    ExpectedType,
    /// A field or a generic parameter is not followed by `,` or the end.
    ExpectedComma,
    /// The braced fields are missing.
    ExpectedBraces,
    /// No run of tokens is a generic parameter where one is due.
    ExpectedGenericParam,
    /// No run of tokens from the word `where` is a where clause.
    ExpectedWhereClause,
    /// A declaration is not followed by `;` or the end.
    ExpectedSemicolon,
    /// Tokens follow the declaration.
    UnexpectedToken,
}

/// The value of one field declaration `attrs vis ident: ty = init`.
pub struct LocalV {
    pub attrs: Seq<TokV>,
    pub vis: Seq<TokV>,
    pub ident: TokV,
    pub colon_token: TokV,
    pub ty: Seq<TokV>,
    pub init: Option<(TokV, Seq<TokV>)>,
    pub discarded: Seq<TokV>,
}

/// The value of the braced list of fields.
pub struct FieldsV {
    pub named: Seq<LocalV>,
    pub commas: Seq<TokV>,
}

/// The value of one generic parameter: its attributes, the parameter itself, and
/// its default (`= ...`) when it has one.
pub struct ParamV {
    pub attrs: Seq<TokV>,
    pub body: Seq<TokV>,
    pub default: Option<(TokV, Seq<TokV>)>,
}

/// The value of the generic parameters and the where clause.
pub struct GenericsV {
    pub lt_token: Option<TokV>,
    pub params: Seq<ParamV>,
    pub commas: Seq<TokV>,
    pub gt_token: Option<TokV>,
    pub where_clause: Option<Seq<TokV>>,
}

/// The value of a whole struct declaration.
pub struct ItemV {
    pub attrs: Seq<TokV>,
    pub vis: Seq<TokV>,
    pub struct_token: TokV,
    pub ident: TokV,
    pub generics: GenericsV,
    pub fields: FieldsV,
}

/// One field: `attrs vis ident: ty`, optionally followed by `= expr`.
/// `init` holds the `=` token and the default expression. `discarded` holds the
/// tokens that the parser takes after the type but that form no default: an `=`
/// with no expression after it, or an expression with no `=` before it.
#[derive(Debug)]
pub struct NewLocal {
    pub attrs: Vec<Tok>,
    pub vis: Vec<Tok>,
    pub ident: Tok,
    pub colon_token: Tok,
    pub ty: Vec<Tok>,
    pub init: Option<(Tok, Vec<Tok>)>,
    pub discarded: Vec<Tok>,
}

/// The fields between the braces, with the commas that separate them.
#[derive(Debug)]
pub struct NewFields {
    pub named: Vec<NewLocal>,
    pub commas: Vec<Tok>,
}

/// One generic parameter.
#[derive(Debug)]
pub struct GenericParam {
    pub attrs: Vec<Tok>,
    pub body: Vec<Tok>,
    pub default: Option<(Tok, Vec<Tok>)>,
}

/// The generic parameters `<...>` and the where clause of a struct.
#[derive(Debug)]
pub struct Generics {
    pub lt_token: Option<Tok>,
    pub params: Vec<GenericParam>,
    pub commas: Vec<Tok>,
    pub gt_token: Option<Tok>,
    pub where_clause: Option<Vec<Tok>>,
}

/// A struct declaration whose fields may carry default values.
#[derive(Debug)]
pub struct NewItemStruct {
    pub attrs: Vec<Tok>,
    pub vis: Vec<Tok>,
    pub struct_token: Tok,
    pub ident: Tok,
    pub generics: Generics,
    pub fields: NewFields,
}

/// The value of an optional token.
pub open spec fn opt_tok_view(t: Option<Tok>) -> Option<TokV> {
    match t {
        Some(t) => Some(t.view()),
        None => None,
    }
}

/// The value of an optional token with the tokens after it.
pub open spec fn opt_pair_view(p: Option<(Tok, Vec<Tok>)>) -> Option<(TokV, Seq<TokV>)> {
    match p {
        Some((t, v)) => Some((t.view(), toks_view(v))),
        None => None,
    }
}

impl View for NewLocal {
    type V = LocalV;

    open spec fn view(&self) -> LocalV {
        LocalV {
            attrs: toks_view(self.attrs),
            vis: toks_view(self.vis),
            ident: self.ident.view(),
            colon_token: self.colon_token.view(),
            ty: toks_view(self.ty),
            init: opt_pair_view(self.init),
            discarded: toks_view(self.discarded),
        }
    }
}

impl View for NewFields {
    type V = FieldsV;

    open spec fn view(&self) -> FieldsV {
        FieldsV {
            named: self.named@.map_values(|f: NewLocal| f.view()),
            commas: toks_view(self.commas),
        }
    }
}

impl View for GenericParam {
    type V = ParamV;

    open spec fn view(&self) -> ParamV {
        ParamV {
            attrs: toks_view(self.attrs),
            body: toks_view(self.body),
            default: opt_pair_view(self.default),
        }
    }
}

impl View for Generics {
    type V = GenericsV;

    open spec fn view(&self) -> GenericsV {
        GenericsV {
            lt_token: opt_tok_view(self.lt_token),
            params: self.params@.map_values(|p: GenericParam| p.view()),
            commas: toks_view(self.commas),
            gt_token: opt_tok_view(self.gt_token),
            where_clause: match self.where_clause {
                Some(w) => Some(toks_view(w)),
                None => None,
            },
        }
    }
}

impl View for NewItemStruct {
    type V = ItemV;

    open spec fn view(&self) -> ItemV {
        ItemV {
            attrs: toks_view(self.attrs),
            vis: toks_view(self.vis),
            struct_token: self.struct_token.view(),
            ident: self.ident.view(),
            generics: self.generics.view(),
            fields: self.fields.view(),
        }
    }
}

// ---------------------------------------------------------------------------
// The grammar
// ---------------------------------------------------------------------------
/// A punctuation token with the given character, of either spacing.
pub open spec fn is_punct(t: TokV, c: char) -> bool {
    t matches TokV::Punct(d, _) && d == c
}

/// An identifier token with the given text.
pub open spec fn is_word(t: TokV, w: Seq<char>) -> bool {
    t matches TokV::Ident(s) && s == w
}

/// One field, read from `toks[pos..]`: outer attributes, a visibility, an
/// identifier, `:`, the longest run that syn reads as a type, then an optional `=`
/// and the longest run after it that syn reads as an expression. The field has a
/// default only when both the `=` and the expression are there.
pub open spec fn local_parse(toks: Seq<TokV>, pos: int) -> Result<(LocalV, int), ParseError> {
    let end = toks.len() as int;
    let a = longest(SynKind::OuterAttrs, toks, pos, pos, end);
    let v = longest(SynKind::Visibility, toks, a, a, end);
    if a < pos {
        Err(ParseError::ExpectedAttributes)
    } else if v < a {
        Err(ParseError::ExpectedVisibility)
    } else if !(v < end && accepts_range(SynKind::Ident, toks, v, v + 1)) {
        Err(ParseError::ExpectedIdent)
    } else if !(v + 1 < end && is_punct(toks[v + 1], ':')) {
        Err(ParseError::ExpectedColon)
    } else {
        let t = longest(SynKind::Type, toks, v + 2, v + 3, end);
        if t < v + 3 {
            Err(ParseError::ExpectedType)
        } else {
            let eq = t < end && is_punct(toks[t], '=');
            let p = if eq {
                t + 1
            } else {
                t
            };
            let e = longest(SynKind::Expr, toks, p, p + 1, end);
            let has_expr = e >= p + 1;
            let next = if has_expr {
                e
            } else {
                p
            };
            let f = LocalV {
                attrs: toks.subrange(pos, a),
                vis: toks.subrange(a, v),
                ident: toks[v],
                colon_token: toks[v + 1],
                ty: toks.subrange(v + 2, t),
                init: if eq && has_expr {
                    Some((toks[t], toks.subrange(p, e)))
                } else {
                    None
                },
                discarded: if eq && has_expr {
                    Seq::empty()
                } else {
                    toks.subrange(t, next)
                },
            };
            Ok((f, next))
        }
    }
}

/// A field that parses starts at `pos` and ends within the tokens, at least three
/// tokens further.
pub proof fn lemma_local_parse_bounds(toks: Seq<TokV>, pos: int)
    requires
        0 <= pos <= toks.len(),
    ensures
        local_parse(toks, pos) matches Ok((_, n)) ==> pos + 3 <= n <= toks.len(),
{
    let end = toks.len() as int;
    lemma_longest(SynKind::OuterAttrs, toks, pos, pos, end);
    let a = longest(SynKind::OuterAttrs, toks, pos, pos, end);
    if a >= pos {
        lemma_longest(SynKind::Visibility, toks, a, a, end);
        let v = longest(SynKind::Visibility, toks, a, a, end);
        if v >= a && v + 1 < end {
            lemma_longest(SynKind::Type, toks, v + 2, v + 3, end);
            let t = longest(SynKind::Type, toks, v + 2, v + 3, end);
            let eq = t < end && is_punct(toks[t], '=');
            let p = if eq {
                t + 1
            } else {
                t
            };
            lemma_longest(SynKind::Expr, toks, p, p + 1, end);
        }
    }
}

/// The fields from `toks[pos..]` on, after the fields `named` and the commas
/// `commas` already read: fields separated by commas, with an optional comma
/// at the end.
pub open spec fn fields_parse_from(
    toks: Seq<TokV>,
    pos: int,
    named: Seq<LocalV>,
    commas: Seq<TokV>,
) -> Result<FieldsV, ParseError>
    decreases toks.len() - pos,
{
    if pos < 0 || pos >= toks.len() {
        Ok(FieldsV { named, commas })
    } else {
        match local_parse(toks, pos) {
            Err(e) => Err(e),
            Ok((f, q)) => {
                proof {
                    lemma_local_parse_bounds(toks, pos);
                }
                if q >= toks.len() {
                    Ok(FieldsV { named: named.push(f), commas })
                } else if is_punct(toks[q], ',') {
                    fields_parse_from(toks, q + 1, named.push(f), commas.push(toks[q]))
                } else {
                    Err(ParseError::ExpectedComma)
                }
            },
        }
    }
}

/// The fields inside the braces.
pub open spec fn fields_parse(toks: Seq<TokV>) -> Result<FieldsV, ParseError> {
    fields_parse_from(toks, 0, Seq::empty(), Seq::empty())
}

/// The `=` at `j` starts the default of the generic parameter at `pos`: syn reads
/// the tokens from `pos` up to it as a generic parameter, or up to the `:` or `+`
/// just before it, since syn stops reading the bounds at an `=` though it does not
/// read a `:` or `+` with no bound after it at the end of the text.
pub open spec fn default_at(toks: Seq<TokV>, pos: int, j: int) -> bool {
    &&& is_punct(toks[j], '=')
    &&& (accepts_range(SynKind::GenericParam, toks, pos, j) || (j >= pos + 2 && (is_punct(
        toks[j - 1],
        ':',
    ) || is_punct(toks[j - 1], '+')) && accepts_range(SynKind::GenericParam, toks, pos, j - 1)))
}

/// The first `=` at or after `j`, before `q`, that starts the default of the
/// generic parameter at `pos` (`default_at`); `q` when there is none.
pub open spec fn default_eq(toks: Seq<TokV>, pos: int, j: int, q: int) -> int
    decreases q - j,
{
    if j >= q {
        q
    } else if default_at(toks, pos, j) {
        j
    } else {
        default_eq(toks, pos, j + 1, q)
    }
}

pub proof fn lemma_default_eq(toks: Seq<TokV>, pos: int, j: int, q: int)
    requires
        j <= q,
    ensures
        j <= default_eq(toks, pos, j, q) <= q,
        default_eq(toks, pos, j, q) < q ==> is_punct(toks[default_eq(toks, pos, j, q)], '='),
    decreases q - j,
{
    if j < q && !default_at(toks, pos, j) {
        lemma_default_eq(toks, pos, j + 1, q);
    }
}

/// Where a lifetime or a type parameter without a default ends, whose run that
/// syn accepts is `toks[a..q]` after its attributes: syn reads it without what
/// follows, so it stops before a `:` after the bare name or a `+` after the
/// bounds, which then have no bound after them; in the declaration syn stops
/// reading the bounds at a `,` or a `>`, so such a `:` or `+` before one of them
/// belongs to the parameter.
pub open spec fn param_end(toks: Seq<TokV>, a: int, q: int, end: int) -> int {
    let lifetime = a < q && is_punct(toks[a], '\'');
    let n: int = if lifetime {
        2
    } else {
        1
    };
    let named = lifetime || (a < q && !is_word(toks[a], "const"@));
    let bare = named && q == a + n;
    let bounded = named && q > a + n + 1 && is_punct(toks[a + n], ':');
    let closes = q + 1 < end && (is_punct(toks[q + 1], ',') || is_punct(toks[q + 1], '>'));
    if closes && ((bare && is_punct(toks[q], ':')) || (bounded && is_punct(toks[q], '+'))) {
        q + 1
    } else {
        q
    }
}

/// One generic parameter, read from `toks[pos..end]`: the longest run that syn
/// reads as a generic parameter; within it, its outer attributes, and its
/// default after the first `=` that starts it (`default_at`); without a default,
/// the parameter takes a `:` or `+` that follows the run before a `,` or `>`
/// (see `param_end`).
#[verifier::opaque]
pub open spec fn param_parse(toks: Seq<TokV>, pos: int, end: int) -> Result<
    (ParamV, int),
    ParseError,
> {
    let q0 = longest(SynKind::GenericParam, toks, pos, pos + 1, end);
    if q0 < pos + 1 {
        Err(ParseError::ExpectedGenericParam)
    } else {
        let la = longest(SynKind::OuterAttrs, toks, pos, pos, q0);
        let a = if la >= pos {
            la
        } else {
            pos
        };
        let d0 = default_eq(toks, pos, a, q0);
        let q = if d0 < q0 {
            q0
        } else {
            param_end(toks, a, q0, end)
        };
        let d = if d0 < q0 {
            d0
        } else {
            q
        };
        Ok(
            (
                ParamV {
                    attrs: toks.subrange(pos, a),
                    body: toks.subrange(a, d),
                    default: if d < q {
                        Some((toks[d], toks.subrange(d + 1, q)))
                    } else {
                        None
                    },
                },
                q,
            ),
        )
    }
}

pub proof fn lemma_param_parse_bounds(toks: Seq<TokV>, pos: int, end: int)
    requires
        0 <= pos <= end,
    ensures
        param_parse(toks, pos, end) matches Ok((_, n)) ==> pos + 1 <= n <= end,
{
    reveal(param_parse);
    lemma_longest(SynKind::GenericParam, toks, pos, pos + 1, end);
    let q0 = longest(SynKind::GenericParam, toks, pos, pos + 1, end);
    lemma_longest(SynKind::OuterAttrs, toks, pos, pos, q0);
}

/// The generic parameters from `toks[pos..end]` on, up to the closing `>`:
/// parameters separated by commas, with an optional comma at the end. The result
/// holds the parameters, the commas, and the position of the `>`.
pub open spec fn params_parse_from(
    toks: Seq<TokV>,
    pos: int,
    end: int,
    params: Seq<ParamV>,
    commas: Seq<TokV>,
) -> Result<(Seq<ParamV>, Seq<TokV>, int), ParseError>
    decreases end - pos,
{
    if pos < 0 || pos > end {
        Err(ParseError::ExpectedGenericParam)
    } else if pos < end && is_punct(toks[pos], '>') {
        Ok((params, commas, pos))
    } else {
        match param_parse(toks, pos, end) {
            Err(e) => Err(e),
            Ok((p, q)) => {
                proof {
                    lemma_param_parse_bounds(toks, pos, end);
                }
                if q < end && is_punct(toks[q], '>') {
                    Ok((params.push(p), commas, q))
                } else if q < end && is_punct(toks[q], ',') {
                    params_parse_from(toks, q + 1, end, params.push(p), commas.push(toks[q]))
                } else {
                    Err(ParseError::ExpectedComma)
                }
            },
        }
    }
}

/// The generic parameters after the struct's name, if a `<` follows it.
pub open spec fn generics_parse(toks: Seq<TokV>, pos: int, end: int) -> Result<
    (GenericsV, int),
    ParseError,
> {
    if pos < end && is_punct(toks[pos], '<') {
        match params_parse_from(toks, pos + 1, end, Seq::empty(), Seq::empty()) {
            Err(e) => Err(e),
            Ok((ps, cs, g)) => Ok(
                (
                    GenericsV {
                        lt_token: Some(toks[pos]),
                        params: ps,
                        commas: cs,
                        gt_token: Some(toks[g]),
                        where_clause: None,
                    },
                    g + 1,
                ),
            ),
        }
    } else {
        Ok(
            (
                GenericsV {
                    lt_token: None,
                    params: Seq::empty(),
                    commas: Seq::empty(),
                    gt_token: None,
                    where_clause: None,
                },
                pos,
            ),
        )
    }
}

/// The where clause, if the word `where` comes next: the longest run from it that
/// syn reads as a where clause.
pub open spec fn where_parse(toks: Seq<TokV>, pos: int, end: int) -> Result<
    (Option<Seq<TokV>>, int),
    ParseError,
> {
    if pos < end && is_word(toks[pos], "where"@) {
        let w = longest(SynKind::WhereClause, toks, pos, pos + 1, end);
        if w < pos + 1 {
            Err(ParseError::ExpectedWhereClause)
        } else {
            Ok((Some(toks.subrange(pos, w)), w))
        }
    } else {
        Ok((None, pos))
    }
}

/// A struct declaration read from `toks[pos..end]`: outer attributes, a
/// visibility, `struct`, a name, generic parameters, a where clause, and the
/// braced fields.
pub open spec fn item_parse(toks: Seq<TokV>, pos: int, end: int) -> Result<
    (ItemV, int),
    ParseError,
> {
    let a = longest(SynKind::OuterAttrs, toks, pos, pos, end);
    let v = longest(SynKind::Visibility, toks, a, a, end);
    if a < pos {
        Err(ParseError::ExpectedAttributes)
    } else if v < a {
        Err(ParseError::ExpectedVisibility)
    } else if !(v < end && is_word(toks[v], "struct"@)) {
        Err(ParseError::ExpectedStruct)
    } else if !(v + 1 < end && accepts_range(SynKind::Ident, toks, v + 1, v + 2)) {
        Err(ParseError::ExpectedIdent)
    } else {
        match generics_parse(toks, v + 2, end) {
            Err(e) => Err(e),
            Ok((g, q)) => match where_parse(toks, q, end) {
                Err(e) => Err(e),
                Ok((w, r)) => if r < end {
                    match toks[r] {
                        TokV::Group(Delimiter::Brace, inner) => match fields_parse(inner) {
                            Err(e) => Err(e),
                            Ok(fs) => Ok(
                                (
                                    ItemV {
                                        attrs: toks.subrange(pos, a),
                                        vis: toks.subrange(a, v),
                                        struct_token: toks[v],
                                        ident: toks[v + 1],
                                        generics: GenericsV { where_clause: w, ..g },
                                        fields: fs,
                                    },
                                    r + 1,
                                ),
                            ),
                        },
                        _ => Err(ParseError::ExpectedBraces),
                    }
                } else {
                    Err(ParseError::ExpectedBraces)
                },
            },
        }
    }
}

/// A struct declaration that takes up all of the tokens.
pub open spec fn item_parse_all(toks: Seq<TokV>) -> Result<ItemV, ParseError> {
    match item_parse(toks, 0, toks.len() as int) {
        Err(e) => Err(e),
        Ok((m, n)) => if n == toks.len() {
            Ok(m)
        } else {
            Err(ParseError::UnexpectedToken)
        },
    }
}

pub proof fn lemma_params_parse_bounds(
    toks: Seq<TokV>,
    pos: int,
    end: int,
    params: Seq<ParamV>,
    commas: Seq<TokV>,
)
    ensures
        params_parse_from(toks, pos, end, params, commas) matches Ok((_, _, g)) ==> pos <= g
            < end && is_punct(toks[g], '>'),
    decreases end - pos,
{
    if 0 <= pos <= end && !(pos < end && is_punct(toks[pos], '>')) {
        lemma_param_parse_bounds(toks, pos, end);
        match param_parse(toks, pos, end) {
            Ok((p, q)) => {
                if !(q < end && is_punct(toks[q], '>')) && q < end && is_punct(toks[q], ',') {
                    lemma_params_parse_bounds(
                        toks,
                        q + 1,
                        end,
                        params.push(p),
                        commas.push(toks[q]),
                    );
                }
            },
            Err(_) => {},
        }
    }
}

pub proof fn lemma_generics_parse_bounds(toks: Seq<TokV>, pos: int, end: int)
    requires
        0 <= pos <= end,
    ensures
        generics_parse(toks, pos, end) matches Ok((_, n)) ==> pos <= n <= end,
{
    if pos < end && is_punct(toks[pos], '<') {
        lemma_params_parse_bounds(toks, pos + 1, end, Seq::empty(), Seq::empty());
    }
}

pub proof fn lemma_where_parse_bounds(toks: Seq<TokV>, pos: int, end: int)
    requires
        0 <= pos <= end,
    ensures
        where_parse(toks, pos, end) matches Ok((_, n)) ==> pos <= n <= end,
{
    lemma_longest(SynKind::WhereClause, toks, pos, pos + 1, end);
}

// ---------------------------------------------------------------------------
// The parser
// ---------------------------------------------------------------------------
/// Whether a token is the punctuation character `c`.
pub fn punct_is(t: &Tok, c: char) -> (r: bool)
    ensures
        r == is_punct(t.view(), c),
{
    match t {
        Tok::Punct(d, _) => *d == c,
        _ => false,
    }
}

/// Whether a token is the identifier `w`.
pub fn word_is(t: &Tok, w: &str) -> (r: bool)
    ensures
        r == is_word(t.view(), w@),
{
    match t {
        Tok::Ident(s) => str_eq(s.as_str(), w),
        _ => false,
    }
}

proof fn lemma_empty_view()
    ensures
        view_seq(Seq::<Tok>::empty()) == Seq::<TokV>::empty(),
{
}

impl NewLocal {
    /// Reads one field from `toks[pos..]`.
    pub fn parse(toks: &Vec<Tok>, pos: usize) -> (r: Result<(NewLocal, usize), ParseError>)
        requires
            pos <= toks.len(),
        ensures
            match r {
                Ok((f, n)) => local_parse(toks_view(*toks), pos as int) == Ok::<
                    (LocalV, int),
                    ParseError,
                >((f.view(), n as int)),
                Err(e) => local_parse(toks_view(*toks), pos as int) == Err::<
                    (LocalV, int),
                    ParseError,
                >(e),
            },
    {
        let ghost s = toks_view(*toks);
        proof {
            lemma_view_seq(toks@);
        }
        let end = toks.len();
        let a = match longest_prefix(SynKind::OuterAttrs, toks, pos, pos, end) {
            Some(a) => a,
            None => return Err(ParseError::ExpectedAttributes),
        };
        let v = match longest_prefix(SynKind::Visibility, toks, a, a, end) {
            Some(v) => v,
            None => return Err(ParseError::ExpectedVisibility),
        };
        if !(v < end && accepts_at(SynKind::Ident, toks, v, v + 1)) {
            return Err(ParseError::ExpectedIdent);
        }
        if !(v + 1 < end && punct_is(&toks[v + 1], ':')) {
            return Err(ParseError::ExpectedColon);
        }
        if v + 2 == end {
            return Err(ParseError::ExpectedType);
        }
        let t = match longest_prefix(SynKind::Type, toks, v + 2, v + 3, end) {
            Some(t) => t,
            None => return Err(ParseError::ExpectedType),
        };
        let eq = t < end && punct_is(&toks[t], '=');
        let p = if eq {
            t + 1
        } else {
            t
        };
        let e_opt = if p < end {
            longest_prefix(SynKind::Expr, toks, p, p + 1, end)
        } else {
            None
        };
        let has_expr = e_opt.is_some();
        let e = match e_opt {
            Some(e) => e,
            None => p,
        };
        let next = if has_expr {
            e
        } else {
            p
        };
        let init = if eq && has_expr {
            Some((clone_tok(&toks[t]), clone_range(toks, p, e)))
        } else {
            None
        };
        let discarded = if eq && has_expr {
            Vec::new()
        } else {
            clone_range(toks, t, next)
        };
        let f = NewLocal {
            attrs: clone_range(toks, pos, a),
            vis: clone_range(toks, a, v),
            ident: clone_tok(&toks[v]),
            colon_token: clone_tok(&toks[v + 1]),
            ty: clone_range(toks, v + 2, t),
            init,
            discarded,
        };
        proof {
            lemma_empty_view();
            assert(f.view() == local_parse(s, pos as int).unwrap().0);
        }
        Ok((f, next))
    }
}

impl NewFields {
    /// Reads the fields between the braces: all of `toks`.
    pub fn parse(toks: &Vec<Tok>) -> (r: Result<NewFields, ParseError>)
        ensures
            match r {
                Ok(f) => fields_parse(toks_view(*toks)) == Ok::<FieldsV, ParseError>(f.view()),
                Err(e) => fields_parse(toks_view(*toks)) == Err::<FieldsV, ParseError>(e),
            },
    {
        let ghost s = toks_view(*toks);
        proof {
            lemma_view_seq(toks@);
            lemma_empty_view();
        }
        let len = toks.len();
        let mut named: Vec<NewLocal> = Vec::new();
        let mut commas: Vec<Tok> = Vec::new();
        let mut pos: usize = 0;
        proof {
            assert(named@.map_values(|f: NewLocal| f.view()) =~= Seq::<LocalV>::empty());
        }
        loop
            invariant
                pos <= len == toks.len(),
                s == toks_view(*toks),
                s.len() == len,
                forall|i: int| 0 <= i < toks@.len() ==> #[trigger] s[i] == toks@[i].view(),
                fields_parse(s) == fields_parse_from(
                    s,
                    pos as int,
                    named@.map_values(|f: NewLocal| f.view()),
                    toks_view(commas),
                ),
            decreases len - pos,
        {
            if pos >= len {
                return Ok(NewFields { named, commas });
            }
            let (f, q) = match NewLocal::parse(toks, pos) {
                Ok(x) => x,
                Err(e) => return Err(e),
            };
            proof {
                lemma_local_parse_bounds(s, pos as int);
            }
            let ghost old_named = named@;
            named.push(f);
            proof {
                assert(named@.map_values(|f: NewLocal| f.view()) =~= old_named.map_values(
                    |f: NewLocal| f.view(),
                ).push(f.view()));
            }
            if q >= len {
                return Ok(NewFields { named, commas });
            }
            if punct_is(&toks[q], ',') {
                let c = clone_tok(&toks[q]);
                let ghost old_commas = commas@;
                commas.push(c);
                proof {
                    lemma_view_seq(commas@);
                    lemma_view_seq(old_commas);
                    assert(toks_view(commas) =~= view_seq(old_commas).push(s[q as int]));
                }
                pos = q + 1;
            } else {
                return Err(ParseError::ExpectedComma);
            }
        }
    }
}

/// Finds the `=` that starts the default of a generic parameter.
fn find_default_eq(toks: &Vec<Tok>, pos: usize, a: usize, q: usize) -> (d: usize)
    requires
        pos <= a <= q <= toks.len(),
    ensures
        d as int == default_eq(toks_view(*toks), pos as int, a as int, q as int),
{
    let ghost s = toks_view(*toks);
    proof {
        lemma_view_seq(toks@);
    }
    let mut j = a;
    while j < q
        invariant
            pos <= a <= j <= q <= toks.len(),
            s == toks_view(*toks),
            s.len() == toks.len(),
            forall|i: int| 0 <= i < toks@.len() ==> #[trigger] s[i] == toks@[i].view(),
            default_eq(s, pos as int, a as int, q as int) == default_eq(
                s,
                pos as int,
                j as int,
                q as int,
            ),
        decreases q - j,
    {
        if punct_is(&toks[j], '=') {
            if accepts_at(SynKind::GenericParam, toks, pos, j) {
                return j;
            }
            if j - pos >= 2 && (punct_is(&toks[j - 1], ':') || punct_is(&toks[j - 1], '+'))
                && accepts_at(SynKind::GenericParam, toks, pos, j - 1) {
                return j;
            }
        }
        j += 1;
    }
    j
}

/// Where a lifetime or a type parameter without a default ends (`param_end`).
fn param_end_of(toks: &Vec<Tok>, a: usize, q: usize, end: usize) -> (r: usize)
    requires
        a <= q <= end <= toks.len(),
    ensures
        r as int == param_end(toks_view(*toks), a as int, q as int, end as int),
{
    proof {
        lemma_view_seq(toks@);
    }
    let lifetime = a < q && punct_is(&toks[a], '\'');
    let n: usize = if lifetime {
        2
    } else {
        1
    };
    let named = lifetime || (a < q && !word_is(&toks[a], "const"));
    let bare = named && q - a == n;
    let bounded = named && q - a > n + 1 && punct_is(&toks[a + n], ':');
    let closes = end - q > 1 && (punct_is(&toks[q + 1], ',') || punct_is(&toks[q + 1], '>'));
    if closes && ((bare && punct_is(&toks[q], ':')) || (bounded && punct_is(&toks[q], '+'))) {
        q + 1
    } else {
        q
    }
}

impl GenericParam {
    /// Reads one generic parameter from `toks[pos..end]`.
    pub fn parse(toks: &Vec<Tok>, pos: usize, end: usize) -> (r: Result<
        (GenericParam, usize),
        ParseError,
    >)
        requires
            pos <= end <= toks.len(),
        ensures
            match r {
                Ok((p, n)) => param_parse(toks_view(*toks), pos as int, end as int) == Ok::<
                    (ParamV, int),
                    ParseError,
                >((p.view(), n as int)),
                Err(e) => param_parse(toks_view(*toks), pos as int, end as int) == Err::<
                    (ParamV, int),
                    ParseError,
                >(e),
            },
    {
        proof {
            reveal(param_parse);
        }
        let ghost s = toks_view(*toks);
        proof {
            lemma_view_seq(toks@);
        }
        if pos == end {
            return Err(ParseError::ExpectedGenericParam);
        }
        let q0 = match longest_prefix(SynKind::GenericParam, toks, pos, pos + 1, end) {
            Some(q) => q,
            None => return Err(ParseError::ExpectedGenericParam),
        };
        let a = match longest_prefix(SynKind::OuterAttrs, toks, pos, pos, q0) {
            Some(a) => a,
            None => pos,
        };
        proof {
            lemma_default_eq(s, pos as int, a as int, q0 as int);
        }
        let d0 = find_default_eq(toks, pos, a, q0);
        let (q, d) = if d0 < q0 {
            (q0, d0)
        } else {
            let q = param_end_of(toks, a, q0, end);
            (q, q)
        };
        let default = if d < q {
            Some((clone_tok(&toks[d]), clone_range(toks, d + 1, q)))
        } else {
            None
        };
        let p = GenericParam {
            attrs: clone_range(toks, pos, a),
            body: clone_range(toks, a, d),
            default,
        };
        Ok((p, q))
    }
}

impl Generics {
    /// Reads the generic parameters from `toks[pos..end]`, if a `<` comes first.
    /// The where clause is read separately.
    pub fn parse(toks: &Vec<Tok>, pos: usize, end: usize) -> (r: Result<
        (Generics, usize),
        ParseError,
    >)
        requires
            pos <= end <= toks.len(),
        ensures
            match r {
                Ok((g, n)) => generics_parse(toks_view(*toks), pos as int, end as int) == Ok::<
                    (GenericsV, int),
                    ParseError,
                >((g.view(), n as int)),
                Err(e) => generics_parse(toks_view(*toks), pos as int, end as int) == Err::<
                    (GenericsV, int),
                    ParseError,
                >(e),
            },
    {
        let ghost s = toks_view(*toks);
        proof {
            lemma_view_seq(toks@);
            lemma_empty_view();
        }
        if !(pos < end && punct_is(&toks[pos], '<')) {
            let g = Generics {
                lt_token: None,
                params: Vec::new(),
                commas: Vec::new(),
                gt_token: None,
                where_clause: None,
            };
            proof {
                assert(g.params@.map_values(|p: GenericParam| p.view()) =~= Seq::<ParamV>::empty());
            }
            return Ok((g, pos));
        }
        let mut params: Vec<GenericParam> = Vec::new();
        let mut commas: Vec<Tok> = Vec::new();
        let mut i: usize = pos + 1;
        proof {
            assert(params@.map_values(|p: GenericParam| p.view()) =~= Seq::<ParamV>::empty());
        }
        loop
            invariant
                pos < i <= end <= toks.len(),
                is_punct(s[pos as int], '<'),
                s == toks_view(*toks),
                s.len() == toks.len(),
                forall|k: int| 0 <= k < toks@.len() ==> #[trigger] s[k] == toks@[k].view(),
                params_parse_from(s, pos + 1, end as int, Seq::empty(), Seq::empty())
                    == params_parse_from(
                    s,
                    i as int,
                    end as int,
                    params@.map_values(|p: GenericParam| p.view()),
                    toks_view(commas),
                ),
            decreases end - i,
        {
            let ghost pv = params@.map_values(|p: GenericParam| p.view());
            let ghost cv = toks_view(commas);
            if i < end && punct_is(&toks[i], '>') {
                let g = Generics {
                    lt_token: Some(clone_tok(&toks[pos])),
                    params,
                    commas,
                    gt_token: Some(clone_tok(&toks[i])),
                    where_clause: None,
                };
                return Ok((g, i + 1));
            }
            let (p, q) = match GenericParam::parse(toks, i, end) {
                Ok(x) => x,
                Err(e) => return Err(e),
            };
            proof {
                lemma_param_parse_bounds(s, i as int, end as int);
            }
            let ghost old_params = params@;
            params.push(p);
            proof {
                assert(params@.map_values(|p: GenericParam| p.view()) =~= old_params.map_values(
                    |p: GenericParam| p.view(),
                ).push(p.view()));
            }
            if q < end && punct_is(&toks[q], '>') {
                let g = Generics {
                    lt_token: Some(clone_tok(&toks[pos])),
                    params,
                    commas,
                    gt_token: Some(clone_tok(&toks[q])),
                    where_clause: None,
                };
                return Ok((g, q + 1));
            }
            if q < end && punct_is(&toks[q], ',') {
                let c = clone_tok(&toks[q]);
                let ghost old_commas = commas@;
                commas.push(c);
                proof {
                    lemma_view_seq(commas@);
                    lemma_view_seq(old_commas);
                    assert(toks_view(commas) =~= view_seq(old_commas).push(s[q as int]));
                }
                i = q + 1;
            } else {
                return Err(ParseError::ExpectedComma);
            }
        }
    }
}

/// Reads the where clause at `toks[pos..end]`, if the word `where` comes first.
fn parse_where(toks: &Vec<Tok>, pos: usize, end: usize) -> (r: Result<
    (Option<Vec<Tok>>, usize),
    ParseError,
>)
    requires
        pos <= end <= toks.len(),
    ensures
        match r {
            Ok((w, n)) => where_parse(toks_view(*toks), pos as int, end as int) == Ok::<
                (Option<Seq<TokV>>, int),
                ParseError,
            >(
                (
                    match w {
                        Some(w) => Some(toks_view(w)),
                        None => None,
                    },
                    n as int,
                ),
            ),
            Err(e) => where_parse(toks_view(*toks), pos as int, end as int) == Err::<
                (Option<Seq<TokV>>, int),
                ParseError,
            >(e),
        },
{
    proof {
        lemma_view_seq(toks@);
    }
    if pos < end && word_is(&toks[pos], "where") {
        match longest_prefix(SynKind::WhereClause, toks, pos, pos + 1, end) {
            Some(w) => Ok((Some(clone_range(toks, pos, w)), w)),
            None => Err(ParseError::ExpectedWhereClause),
        }
    } else {
        Ok((None, pos))
    }
}

impl NewItemStruct {
    /// Reads one struct declaration from `toks[pos..end]`.
    pub fn parse(toks: &Vec<Tok>, pos: usize, end: usize) -> (r: Result<
        (NewItemStruct, usize),
        ParseError,
    >)
        requires
            pos <= end <= toks.len(),
        ensures
            match r {
                Ok((m, n)) => item_parse(toks_view(*toks), pos as int, end as int) == Ok::<
                    (ItemV, int),
                    ParseError,
                >((m.view(), n as int)),
                Err(e) => item_parse(toks_view(*toks), pos as int, end as int) == Err::<
                    (ItemV, int),
                    ParseError,
                >(e),
            },
    {
        let ghost s = toks_view(*toks);
        proof {
            lemma_view_seq(toks@);
        }
        let a = match longest_prefix(SynKind::OuterAttrs, toks, pos, pos, end) {
            Some(a) => a,
            None => return Err(ParseError::ExpectedAttributes),
        };
        let v = match longest_prefix(SynKind::Visibility, toks, a, a, end) {
            Some(v) => v,
            None => return Err(ParseError::ExpectedVisibility),
        };
        if !(v < end && word_is(&toks[v], "struct")) {
            return Err(ParseError::ExpectedStruct);
        }
        if !(v + 1 < end && accepts_at(SynKind::Ident, toks, v + 1, v + 2)) {
            return Err(ParseError::ExpectedIdent);
        }
        let (mut g, q) = match Generics::parse(toks, v + 2, end) {
            Ok(x) => x,
            Err(e) => return Err(e),
        };
        proof {
            lemma_generics_parse_bounds(s, v + 2, end as int);
        }
        let (w, r) = match parse_where(toks, q, end) {
            Ok(x) => x,
            Err(e) => return Err(e),
        };
        proof {
            lemma_where_parse_bounds(s, q as int, end as int);
        }
        if r >= end {
            return Err(ParseError::ExpectedBraces);
        }
        let fields = match &toks[r] {
            Tok::Group(Delimiter::Brace, inner) => match NewFields::parse(inner) {
                Ok(f) => f,
                Err(e) => return Err(e),
            },
            _ => return Err(ParseError::ExpectedBraces),
        };
        g.where_clause = w;
        let m = NewItemStruct {
            attrs: clone_range(toks, pos, a),
            vis: clone_range(toks, a, v),
            struct_token: clone_tok(&toks[v]),
            ident: clone_tok(&toks[v + 1]),
            generics: g,
            fields,
        };
        proof {
            assert(m.view() == item_parse(s, pos as int, end as int).unwrap().0);
        }
        Ok((m, r + 1))
    }
}

// ---------------------------------------------------------------------------
// The expansion: the struct, and `impl Name<args> { fn new(..) -> Self { Name { .. } } }`
// ---------------------------------------------------------------------------
/// The three kinds of generic parameter.
#[derive(Clone, Copy, Debug, PartialEq, Eq, Structural)]
pub enum ParamKind {
    Lifetime,
    Type,
    Const,
}

/// The kind of a generic parameter, told by its first token: `'` starts a
/// lifetime, the word `const` a const parameter, anything else a type parameter.
pub open spec fn param_kind(p: ParamV) -> ParamKind {
    if p.body.len() > 0 && is_punct(p.body[0], '\'') {
        ParamKind::Lifetime
    } else if p.body.len() > 0 && is_word(p.body[0], "const"@) {
        ParamKind::Const
    } else {
        ParamKind::Type
    }
}

/// `k`, or `len` when `k` is beyond it.
pub open spec fn clamp(k: int, len: int) -> int {
    if k <= len {
        k
    } else {
        len
    }
}

/// The name of a generic parameter: the lifetime (`'` and its identifier), the
/// identifier after `const`, or the identifier of a type parameter.
pub open spec fn param_name(p: ParamV) -> Seq<TokV> {
    let len = p.body.len() as int;
    match param_kind(p) {
        ParamKind::Lifetime => p.body.subrange(0, clamp(2, len)),
        ParamKind::Const => p.body.subrange(clamp(1, len), clamp(2, len)),
        ParamKind::Type => p.body.subrange(0, clamp(1, len)),
    }
}

/// No generic parameter is a const parameter.
pub open spec fn no_const_params(ps: Seq<ParamV>) -> bool {
    forall|i: int| 0 <= i < ps.len() ==> param_kind(#[trigger] ps[i]) != ParamKind::Const
}

/// The generic arguments of the struct's own type: each parameter's name
/// followed by a comma.
pub open spec fn path_args(ps: Seq<ParamV>) -> Seq<TokV>
    decreases ps.len(),
{
    if ps.len() == 0 {
        Seq::empty()
    } else {
        path_args(ps.drop_last()) + param_name(ps.last()) + seq![alone(',')]
    }
}

/// `Name<args>`: the struct's type with its generic parameters as arguments.
pub open spec fn path_with_generics(ident: TokV, ps: Seq<ParamV>) -> Seq<TokV> {
    seq![ident, alone('<')] + path_args(ps) + seq![alone('>')]
}

/// One field of the struct literal in `new`: `ident` for a field without a
/// default (the parameter of that name), `ident: expr` for one with a default.
pub open spec fn value_shorthand(f: LocalV) -> Seq<TokV> {
    match f.init {
        Some((_, e)) => seq![f.ident, alone(':')] + e,
        None => seq![f.ident],
    }
}

/// The fields of the struct literal in `new`, each followed by a comma.
pub open spec fn values_shorthand(fs: Seq<LocalV>) -> Seq<TokV>
    decreases fs.len(),
{
    if fs.len() == 0 {
        Seq::empty()
    } else {
        values_shorthand(fs.drop_last()) + value_shorthand(fs.last()) + seq![alone(',')]
    }
}

/// `impl<params> Name<args> where .. { vis fn new(args) -> Self { Name { values } } }`
pub open spec fn impl_tokens(m: ItemV) -> Seq<TokV> {
    seq![TokV::Ident("impl"@)] + printed_generics(m.generics, ParamPrint::Full)
        + path_with_generics(
        m.ident,
        m.generics.params,
    ) + where_tokens(m.generics) + seq![
        TokV::Group(
            Delimiter::Brace,
            new_fn_tokens(
                m.vis,
                fn_args(m.fields.named),
                m.ident,
                values_shorthand(m.fields.named),
            ),
        ),
    ]
}

/// The generated struct: generic parameters with their defaults, lifetimes
/// first; the defaults of the fields removed.
pub open spec fn struct_item(m: ItemV) -> Seq<TokV> {
    struct_tokens(m, printed_generics(m.generics, ParamPrint::Full))
}

/// The kind of a generic parameter.
pub fn param_kind_of(p: &GenericParam) -> (k: ParamKind)
    ensures
        k == param_kind(p.view()),
{
    proof {
        lemma_view_seq(p.body@);
    }
    if p.body.len() > 0 && punct_is(&p.body[0], '\'') {
        ParamKind::Lifetime
    } else if p.body.len() > 0 && word_is(&p.body[0], "const") {
        ParamKind::Const
    } else {
        ParamKind::Type
    }
}

/// The name of a generic parameter.
pub fn param_name_of(p: &GenericParam) -> (r: Vec<Tok>)
    ensures
        toks_view(r) == param_name(p.view()),
{
    let len = p.body.len();
    let k = param_kind_of(p);
    proof {
        lemma_view_seq(p.body@);
    }
    match k {
        ParamKind::Lifetime => clone_range(&p.body, 0, if 2 <= len { 2 } else { len }),
        ParamKind::Const => clone_range(
            &p.body,
            if 1 <= len { 1 } else { len },
            if 2 <= len { 2 } else { len },
        ),
        ParamKind::Type => clone_range(&p.body, 0, if 1 <= len { 1 } else { len }),
    }
}

/// The path made of one identifier.
pub fn ident_into_path(ident: Tok) -> (r: Vec<Tok>)
    ensures
        toks_view(r) == seq![ident.view()],
{
    let mut out: Vec<Tok> = Vec::new();
    proof {
        lemma_view_seq(out@);
    }
    push_tok(&mut out, ident);
    out
}

/// `ident<args,>`: one argument per generic parameter, in order: the lifetime
/// for a lifetime parameter, the identifier for a type parameter. A const
/// parameter has no argument here, so const parameters are left out by `requires`.
pub fn ident_into_path_with_generics(ident: Tok, generics: Generics) -> (r: Vec<Tok>)
    requires
        no_const_params(generics.view().params),
    ensures
        toks_view(r) == path_with_generics(ident.view(), generics.view().params),
{
    let ghost ps = generics.view().params;
    let mut args: Vec<Tok> = Vec::new();
    let mut i: usize = 0;
    proof {
        lemma_view_seq(args@);
        assert(ps.take(0) =~= Seq::<ParamV>::empty());
    }
    while i < generics.params.len()
        invariant
            i <= generics.params.len(),
            ps == generics.view().params,
            no_const_params(ps),
            toks_view(args) == path_args(ps.take(i as int)),
        decreases generics.params.len() - i,
    {
        let name = param_name_of(&generics.params[i]);
        extend_toks(&mut args, &name);
        push_tok(&mut args, punct(','));
        proof {
            assert(ps.take(i + 1).drop_last() =~= ps.take(i as int));
            assert(ps.take(i + 1).last() == generics.params@[i as int].view());
            assert(toks_view(args) =~= path_args(ps.take(i + 1)));
        }
        i += 1;
    }
    proof {
        assert(ps.take(generics.params.len() as int) =~= ps);
    }
    let mut out = ident_into_path(ident);
    push_tok(&mut out, punct('<'));
    extend_toks(&mut out, &args);
    push_tok(&mut out, punct('>'));
    proof {
        assert(toks_view(out) =~= path_with_generics(ident.view(), ps));
    }
    out
}

impl NewLocal {
    /// Splits a field into the parameter of `new` (for a field without a
    /// default), the field of the struct literal in `new` (`ident` or
    /// `ident: default`), and the field of the generated struct, followed by a
    /// comma.
    pub fn split(&self) -> (r: ((Option<Vec<Tok>>, Vec<Tok>), Vec<Tok>))
        ensures
            r.0.0 is Some <==> no_default(self.view()),
            r.0.0 matches Some(a) ==> toks_view(a) == fn_arg(self.view()),
            toks_view(r.0.1) == value_shorthand(self.view()),
            toks_view(r.1) == local_decl(self.view()),
    {
        let ghost f = self.view();
        let fnarg = if self.init.is_none() {
            let mut a: Vec<Tok> = Vec::new();
            proof {
                lemma_view_seq(a@);
            }
            push_tok(&mut a, clone_tok(&self.ident));
            push_tok(&mut a, punct(':'));
            extend_toks(&mut a, &self.ty);
            proof {
                assert(toks_view(a) =~= fn_arg(f));
            }
            Some(a)
        } else {
            None
        };
        let mut value: Vec<Tok> = Vec::new();
        proof {
            lemma_view_seq(value@);
        }
        push_tok(&mut value, clone_tok(&self.ident));
        match &self.init {
            Some((_, e)) => {
                push_tok(&mut value, punct(':'));
                extend_toks(&mut value, e);
            },
            None => {},
        }
        let mut field: Vec<Tok> = Vec::new();
        proof {
            lemma_view_seq(field@);
            assert(toks_view(value) =~= value_shorthand(f));
        }
        extend_toks(&mut field, &self.attrs);
        extend_toks(&mut field, &self.vis);
        push_tok(&mut field, clone_tok(&self.ident));
        push_tok(&mut field, punct(':'));
        extend_toks(&mut field, &self.ty);
        push_tok(&mut field, punct(','));
        proof {
            assert(toks_view(field) =~= local_decl(f));
        }
        ((fnarg, value), field)
    }
}

impl NewItemStruct {
    /// Splits the declaration into the struct, without the defaults, and the
    /// `impl` block with the `new` constructor: `new` takes the fields without a
    /// default as parameters, in order, and builds the struct from them and from
    /// the defaults of the others. The impl names the struct's type with its
    /// generic parameters as arguments, so const parameters are left out by
    /// `requires`.
    pub fn split(self) -> (r: (Vec<Tok>, Vec<Tok>))
        requires
            no_const_params(self.view().generics.params),
        ensures
            toks_view(r.0) == struct_item(self.view()),
            toks_view(r.1) == impl_tokens(self.view()),
    {
        let ghost m = self.view();
        let ghost vs = m.fields.named;
        let mut fnargs: Vec<Tok> = Vec::new();
        let mut field_values: Vec<Tok> = Vec::new();
        let mut named: Vec<Tok> = Vec::new();
        proof {
            lemma_view_seq(fnargs@);
            assert(vs.take(0) =~= Seq::<LocalV>::empty());
        }
        let mut i: usize = 0;
        while i < self.fields.named.len()
            invariant
                i <= self.fields.named.len(),
                m == self.view(),
                vs == m.fields.named,
                vs == self.fields.named@.map_values(|f: NewLocal| f.view()),
                toks_view(fnargs) == fn_args(vs.take(i as int)),
                toks_view(field_values) == values_shorthand(vs.take(i as int)),
                toks_view(named) == fields_decl(vs.take(i as int)),
            decreases self.fields.named.len() - i,
        {
            let ((fnarg, value), field) = self.fields.named[i].split();
            proof {
                assert(vs.take(i + 1).drop_last() =~= vs.take(i as int));
                assert(vs.take(i + 1).last() == self.fields.named@[i as int].view());
                lemma_view_seq(fnargs@);
            }
            let ghost before = toks_view(fnargs);
            match fnarg {
                Some(a) => {
                    if fnargs.len() > 0 {
                        push_tok(&mut fnargs, punct(','));
                    }
                    extend_toks(&mut fnargs, &a);
                },
                None => {},
            }
            extend_toks(&mut field_values, &value);
            push_tok(&mut field_values, punct(','));
            extend_toks(&mut named, &field);
            proof {
                assert(toks_view(fnargs) =~= fn_args(vs.take(i + 1)));
                assert(toks_view(field_values) =~= values_shorthand(vs.take(i + 1)));
                assert(toks_view(named) =~= fields_decl(vs.take(i + 1)));
            }
            i += 1;
        }
        proof {
            assert(vs.take(self.fields.named.len() as int) =~= vs);
        }
        let gen = printed_generics_of(&self.generics, ParamPrint::Full);
        let item_struct = struct_tokens_of(
            &self.attrs,
            &self.vis,
            &self.ident,
            gen,
            &self.generics,
            named,
        );
        let mut out: Vec<Tok> = Vec::new();
        proof {
            lemma_view_seq(out@);
        }
        push_tok(&mut out, word("impl"));
        let gen2 = printed_generics_of(&self.generics, ParamPrint::Full);
        extend_toks(&mut out, &gen2);
        let w = where_tokens_of(&self.generics);
        let ident = clone_tok(&self.ident);
        let ghost iv = ident.view();
        let struct_path = ident_into_path(ident);
        proof {
            lemma_view_seq(struct_path@);
            assert(struct_path@[0].view() == toks_view(struct_path)[0]);
            assert(toks_view(struct_path)[0] == iv);
        }
        let ctor = clone_tok(&struct_path[0]);
        let ghost cv = ctor.view();
        let new_fn = new_fn_tokens_of(&self.vis, fnargs, ctor, field_values);
        let self_ty = ident_into_path_with_generics(self.ident, self.generics);
        extend_toks(&mut out, &self_ty);
        extend_toks(&mut out, &w);
        push_tok(&mut out, group(Delimiter::Brace, new_fn));
        proof {
            assert(toks_view(self_ty) == path_with_generics(m.ident, m.generics.params));
            assert(toks_view(w) == where_tokens(m.generics));
            assert(toks_view(gen2) == printed_generics(m.generics, ParamPrint::Full));
            assert(cv == m.ident);
            assert(toks_view(new_fn) == new_fn_tokens(
                m.vis,
                fn_args(m.fields.named),
                cv,
                values_shorthand(m.fields.named),
            ));
            assert(toks_view(out) =~= impl_tokens(m));
        }
        (item_struct, out)
    }
}

} // verus!
