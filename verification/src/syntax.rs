//! What `syn` accepts: the Rust syntax (types, expressions, visibilities,
//! attributes, generic parameters, where clauses) that this library's own grammar
//! leaves to `syn`, and the longest run of tokens that `syn` accepts as one of them.
use vstd::prelude::*;
use syn::parse::Parser;
use crate::token::{Tok, TokV, string_of, text_of, toks_text, toks_view};

verus! {

/// Whether `syn::parse_str::<syn::Type>` accepts the whole text.
pub uninterp spec fn syn_type(src: Seq<char>) -> bool;

/// Whether `syn::parse_str::<syn::Expr>` accepts the whole text.
pub uninterp spec fn syn_expr(src: Seq<char>) -> bool;

/// Whether `syn::parse_str::<syn::Visibility>` accepts the whole text.
pub uninterp spec fn syn_visibility(src: Seq<char>) -> bool;

/// Whether `syn::parse_str::<syn::Ident>` accepts the whole text.
pub uninterp spec fn syn_ident(src: Seq<char>) -> bool;

/// Whether `syn::Attribute::parse_outer`, run by `Parser::parse_str`, accepts the whole text.
pub uninterp spec fn syn_outer_attrs(src: Seq<char>) -> bool;

/// Whether `syn::parse_str::<syn::GenericParam>` accepts the whole text.
pub uninterp spec fn syn_generic_param(src: Seq<char>) -> bool;

/// Whether `syn::parse_str::<syn::WhereClause>` accepts the whole text.
pub uninterp spec fn syn_where_clause(src: Seq<char>) -> bool;

/// A character that continues an identifier or a number: an ASCII letter or
/// digit, or `_`.
pub open spec fn word_char(c: char) -> bool {
    ('a' <= c && c <= 'z') || ('A' <= c && c <= 'Z') || ('0' <= c && c <= '9') || c == '_'
}

/// A C-string literal (`c"..."`, `cr"..."`, `cr#"..."#`) may start at `i`: a
/// `c` that does not continue a word, a literal or a lifetime before it, followed
/// by `"`, or by `r` and then `"` or `#`. Every C-string literal of the text,
/// as lexed, starts at such an `i`; some such `i` start none (inside a string).
pub open spec fn c_string_at(s: Seq<char>, i: int) -> bool {
    &&& 0 <= i
    &&& i + 1 < s.len()
    &&& s[i] == 'c'
    &&& (i == 0 || !(word_char(s[i - 1]) || s[i - 1] == '"' || s[i - 1] == '\''))
    &&& (s[i + 1] == '"' || (s[i + 1] == 'r' && i + 2 < s.len() && (s[i + 2] == '"' || s[i
        + 2] == '#')))
}

/// The text may hold a C-string literal.
pub open spec fn may_hold_c_string(s: Seq<char>) -> bool {
    exists|i: int| c_string_at(s, i)
}

/// Calls `syn::parse_str::<syn::Type>`; true exactly when it returns `Ok`, that is,
/// when the whole text lexes and parses as one type. The contract names that answer
/// and says no more of it: the grammar of Rust types is syn's.
/// syn 1 does not recognise C-string literals, which the lexer reads, and panics
/// on one (`Lit::new`); `requires` leaves out every text that may hold one.
#[verifier::external_body]
fn parses_as_type(src: &str) -> (r: bool)
    requires
        !may_hold_c_string(src@),
    ensures
        r == syn_type(src@),
{
    syn::parse_str::<syn::Type>(src).is_ok()
}

/// Calls `syn::parse_str::<syn::Expr>`; true exactly when it returns `Ok`.
/// Only the name of the answer is stated.
/// syn 1 does not recognise C-string literals, which the lexer reads, and panics
/// on one (`Lit::new`); `requires` leaves out every text that may hold one.
#[verifier::external_body]
fn parses_as_expr(src: &str) -> (r: bool)
    requires
        !may_hold_c_string(src@),
    ensures
        r == syn_expr(src@),
{
    syn::parse_str::<syn::Expr>(src).is_ok()
}

/// Calls `syn::parse_str::<syn::Visibility>`; true exactly when it returns `Ok`.
/// Only the name of the answer is stated (syn also accepts the empty text).
#[verifier::external_body]
fn parses_as_visibility(src: &str) -> (r: bool)
    ensures
        r == syn_visibility(src@),
{
    syn::parse_str::<syn::Visibility>(src).is_ok()
}

/// Calls `syn::parse_str::<syn::Ident>`; true exactly when it returns `Ok`, which
/// syn does for one identifier that is not a keyword. Only the name is stated.
#[verifier::external_body]
fn parses_as_ident(src: &str) -> (r: bool)
    ensures
        r == syn_ident(src@),
{
    syn::parse_str::<syn::Ident>(src).is_ok()
}

/// Calls `Parser::parse_str` with `syn::Attribute::parse_outer`; true exactly when
/// it returns `Ok`, that is, when the text is zero or more outer attributes.
/// Only the name of the answer is stated.
#[verifier::external_body]
fn parses_as_outer_attrs(src: &str) -> (r: bool)
    ensures
        r == syn_outer_attrs(src@),
{
    syn::Attribute::parse_outer.parse_str(src).is_ok()
}

/// Calls `syn::parse_str::<syn::GenericParam>`; true exactly when it returns `Ok`.
/// Only the name of the answer is stated.
/// syn 1 does not recognise C-string literals, which the lexer reads, and panics
/// on one (`Lit::new`); `requires` leaves out every text that may hold one.
#[verifier::external_body]
fn parses_as_generic_param(src: &str) -> (r: bool)
    requires
        !may_hold_c_string(src@),
    ensures
        r == syn_generic_param(src@),
{
    syn::parse_str::<syn::GenericParam>(src).is_ok()
}

/// Calls `syn::parse_str::<syn::WhereClause>`; true exactly when it returns `Ok`.
/// Only the name of the answer is stated.
/// syn 1 does not recognise C-string literals, which the lexer reads, and panics
/// on one (`Lit::new`); `requires` leaves out every text that may hold one.
#[verifier::external_body]
fn parses_as_where_clause(src: &str) -> (r: bool)
    requires
        !may_hold_c_string(src@),
    ensures
        r == syn_where_clause(src@),
{
    syn::parse_str::<syn::WhereClause>(src).is_ok()
}

/// The pieces of Rust syntax that this library asks syn about.
#[derive(Clone, Copy, Debug, PartialEq, Eq, Structural)]
pub enum SynKind {
    Type,
    Expr,
    Visibility,
    Ident,
    OuterAttrs,
    GenericParam,
    WhereClause,
}

/// Whether syn accepts the text as one piece of the given kind.
pub open spec fn syn_accepts(kind: SynKind, src: Seq<char>) -> bool {
    match kind {
        SynKind::Type => syn_type(src),
        SynKind::Expr => syn_expr(src),
        SynKind::Visibility => syn_visibility(src),
        SynKind::Ident => syn_ident(src),
        SynKind::OuterAttrs => syn_outer_attrs(src),
        SynKind::GenericParam => syn_generic_param(src),
        SynKind::WhereClause => syn_where_clause(src),
    }
}

/// syn reads literals for this kind of syntax (and so must not meet a C-string
/// literal).
pub open spec fn reads_literals(kind: SynKind) -> bool {
    kind == SynKind::Type || kind == SynKind::Expr || kind == SynKind::GenericParam || kind
        == SynKind::WhereClause
}

/// Asks syn whether the text is one piece of the given kind.
pub fn accepts(kind: SynKind, src: &str) -> (r: bool)
    requires
        reads_literals(kind) ==> !may_hold_c_string(src@),
    ensures
        r == syn_accepts(kind, src@),
{
    match kind {
        SynKind::Type => parses_as_type(src),
        SynKind::Expr => parses_as_expr(src),
        SynKind::Visibility => parses_as_visibility(src),
        SynKind::Ident => parses_as_ident(src),
        SynKind::OuterAttrs => parses_as_outer_attrs(src),
        SynKind::GenericParam => parses_as_generic_param(src),
        SynKind::WhereClause => parses_as_where_clause(src),
    }
}

/// A group without visible delimiters is written in parentheses for the kinds of
/// syntax in which syn reads such a group as one unit, a type or an expression.
pub open spec fn parens_for(kind: SynKind) -> bool {
    reads_literals(kind)
}

/// Whether syn accepts the tokens `toks[lo..k]` as one piece of the given kind.
/// A text that may hold a C-string literal is not accepted where syn would read
/// literals in it.
pub open spec fn accepts_range(kind: SynKind, toks: Seq<TokV>, lo: int, k: int) -> bool {
    let src = toks_text(toks.subrange(lo, k), parens_for(kind));
    !(reads_literals(kind) && may_hold_c_string(src)) && syn_accepts(kind, src)
}

/// The largest `k` with `min <= k <= hi` such that syn accepts `toks[lo..k]`
/// as one piece of the given kind; `min - 1` when there is none.
pub open spec fn longest(kind: SynKind, toks: Seq<TokV>, lo: int, min: int, hi: int) -> int
    decreases hi - min + 1,
{
    if hi < min {
        min - 1
    } else if accepts_range(kind, toks, lo, hi) {
        hi
    } else {
        longest(kind, toks, lo, min, hi - 1)
    }
}

/// What `longest` is: the result is accepted and nothing longer up to `hi` is.
pub proof fn lemma_longest(kind: SynKind, toks: Seq<TokV>, lo: int, min: int, hi: int)
    requires
        min <= hi + 1,
    ensures
        min - 1 <= longest(kind, toks, lo, min, hi) <= hi,
        longest(kind, toks, lo, min, hi) >= min ==> accepts_range(
            kind,
            toks,
            lo,
            longest(kind, toks, lo, min, hi),
        ),
        forall|k: int|
            longest(kind, toks, lo, min, hi) < k <= hi && min <= k ==> !#[trigger] accepts_range(
                kind,
                toks,
                lo,
                k,
            ),
    decreases hi - min + 1,
{
    if hi >= min && !accepts_range(kind, toks, lo, hi) {
        lemma_longest(kind, toks, lo, min, hi - 1);
    }
}

/// Whether a character continues a word (`word_char`).
fn is_word_char(c: char) -> (r: bool)
    ensures
        r == word_char(c),
{
    ('a' <= c && c <= 'z') || ('A' <= c && c <= 'Z') || ('0' <= c && c <= '9') || c == '_'
}

/// Whether the text may hold a C-string literal.
pub fn holds_c_string(s: &Vec<char>) -> (r: bool)
    ensures
        r == may_hold_c_string(s@),
{
    let n = s.len();
    let mut i: usize = 0;
    while i < n
        invariant
            i <= n == s.len(),
            forall|j: int| 0 <= j < i ==> !c_string_at(s@, j),
        decreases n - i,
    {
        let starts = s[i] == 'c' && (i == 0 || !(is_word_char(s[i - 1]) || s[i - 1] == '"' || s[i
            - 1] == '\'')) && n - i > 1 && (s[i + 1] == '"' || (s[i + 1] == 'r' && n - i > 2 && (
        s[i + 2] == '"' || s[i + 2] == '#')));
        if starts {
            assert(c_string_at(s@, i as int));
            return true;
        }
        i += 1;
    }
    proof {
        assert forall|j: int| !c_string_at(s@, j) by {
            if 0 <= j < n {
            }
        }
    }
    false
}

/// Asks syn whether it reads the tokens `toks[lo..hi]` as one piece of the given kind.
pub fn accepts_at(kind: SynKind, toks: &Vec<Tok>, lo: usize, hi: usize) -> (r: bool)
    requires
        lo <= hi <= toks.len(),
    ensures
        r == accepts_range(kind, toks_view(*toks), lo as int, hi as int),
{
    let paren = kind == SynKind::Type || kind == SynKind::Expr || kind == SynKind::GenericParam
        || kind == SynKind::WhereClause;
    let chars = text_of(toks, lo, hi, paren);
    if paren && holds_c_string(&chars) {
        return false;
    }
    let src = string_of(&chars);
    accepts(kind, src.as_str())
}

/// Finds the longest run `toks[lo..k]`, with `min <= k <= hi`, that syn accepts as
/// one piece of the given kind.
pub fn longest_prefix(kind: SynKind, toks: &Vec<Tok>, lo: usize, min: usize, hi: usize) -> (r:
    Option<usize>)
    requires
        lo <= min <= hi + 1,
        hi <= toks.len(),
    ensures
        match r {
            Some(k) => k as int == longest(kind, toks_view(*toks), lo as int, min as int, hi as int)
                && min <= k <= hi,
            None => longest(kind, toks_view(*toks), lo as int, min as int, hi as int) < min,
        },
{
    if hi < min {
        return None;
    }
    let mut k = hi;
    while k >= min
        invariant
            lo <= min <= k + 1,
            k <= hi <= toks.len(),
            min <= hi,
            longest(kind, toks_view(*toks), lo as int, min as int, hi as int) == longest(
                kind,
                toks_view(*toks),
                lo as int,
                min as int,
                k as int,
            ),
        decreases k,
    {
        if accepts_at(kind, toks, lo, k) {
            return Some(k);
        }
        if k == min {
            assert(longest(kind, toks_view(*toks), lo as int, min as int, min - 1) == min - 1);
            return None;
        }
        k -= 1;
    }
    None
}

} // verus!
