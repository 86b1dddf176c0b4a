//! Token trees: the input and the output of the macros, as plain values.
use vstd::prelude::*;

verus! {

/// The delimiter of a group of tokens.
#[derive(Clone, Copy, Debug, PartialEq, Eq, Structural)]
pub enum Delimiter {
    Parenthesis,
    Brace,
    Bracket,
    /// A group without visible delimiters.
    Invisible,
}

/// Whether a punctuation character is glued to the punctuation that follows it.
#[derive(Clone, Copy, Debug, PartialEq, Eq, Structural)]
pub enum Spacing {
    Alone,
    Joint,
}

/// One token tree: an identifier, a punctuation character, a literal, or a
/// delimited group of token trees.
#[derive(Debug)]
pub enum Tok {
    Ident(String),
    Punct(char, Spacing),
    Literal(String),
    Group(Delimiter, Vec<Tok>),
}

/// The mathematical value of a token tree.
pub enum TokV {
    Ident(Seq<char>),
    Punct(char, Spacing),
    Literal(Seq<char>),
    Group(Delimiter, Seq<TokV>),
}

impl View for Tok {
    type V = TokV;

    open spec fn view(&self) -> TokV
        decreases self,
    {
        match self {
            Tok::Ident(s) => TokV::Ident(s@),
            Tok::Punct(c, sp) => TokV::Punct(*c, *sp),
            Tok::Literal(s) => TokV::Literal(s@),
            Tok::Group(d, v) => TokV::Group(*d, view_seq(v@)),
        }
    }
}

/// The values of a sequence of token trees.
pub open spec fn view_seq(s: Seq<Tok>) -> Seq<TokV>
    decreases s,
{
    if s.len() == 0 {
        Seq::empty()
    } else {
        view_seq(s.drop_last()).push(s.last().view())
    }
}

/// The values of the token trees of a vector.
pub open spec fn toks_view(v: Vec<Tok>) -> Seq<TokV> {
    view_seq(v@)
}

pub proof fn lemma_view_seq(s: Seq<Tok>)
    ensures
        view_seq(s).len() == s.len(),
        forall|i: int| 0 <= i < s.len() ==> #[trigger] view_seq(s)[i] == s[i].view(),
    decreases s.len(),
{
    reveal_with_fuel(view_seq, 2);
    if s.len() > 0 {
        lemma_view_seq(s.drop_last());
    }
}

/// `view_seq` is the element-wise view.
pub proof fn lemma_view_seq_map(s: Seq<Tok>)
    ensures
        view_seq(s) == s.map_values(|t: Tok| t.view()),
{
    lemma_view_seq(s);
    assert(view_seq(s) =~= s.map_values(|t: Tok| t.view()));
}

/// The text that opens a group; a group without visible delimiters opens with
/// `(` where `paren` asks for it, so that it reads as one unit.
pub open spec fn open_text(d: Delimiter, paren: bool) -> Seq<char> {
    match d {
        Delimiter::Parenthesis => seq!['('],
        Delimiter::Brace => seq!['{'],
        Delimiter::Bracket => seq!['['],
        Delimiter::Invisible => if paren {
            seq!['(']
        } else {
            Seq::empty()
        },
    }
}

/// The text that closes a group.
pub open spec fn close_text(d: Delimiter, paren: bool) -> Seq<char> {
    match d {
        Delimiter::Parenthesis => seq![')'],
        Delimiter::Brace => seq!['}'],
        Delimiter::Bracket => seq![']'],
        Delimiter::Invisible => if paren {
            seq![')']
        } else {
            Seq::empty()
        },
    }
}

/// A punctuation character glued to the next token.
pub open spec fn is_joint(t: TokV) -> bool {
    t matches TokV::Punct(_, Spacing::Joint)
}

/// Source text of one token tree; `paren` says how groups without visible
/// delimiters are written (see `open_text`).
pub open spec fn tok_text(t: TokV, paren: bool) -> Seq<char>
    decreases t,
{
    match t {
        TokV::Ident(s) => s,
        TokV::Punct(c, _) => seq![c],
        TokV::Literal(s) => s,
        TokV::Group(d, inner) => open_text(d, paren) + seq![' '] + toks_text(inner, paren) + seq![
            ' ',
        ] + close_text(d, paren),
    }
}

/// Source text of a sequence of token trees: tokens are separated by one space,
/// except after a punctuation character that is joint with the next token.
pub open spec fn toks_text(s: Seq<TokV>, paren: bool) -> Seq<char>
    decreases s,
{
    if s.len() == 0 {
        Seq::empty()
    } else if s.len() == 1 {
        tok_text(s[0], paren)
    } else {
        toks_text(s.drop_last(), paren) + (if is_joint(s[s.len() - 2]) {
            Seq::empty()
        } else {
            seq![' ']
        }) + tok_text(s.last(), paren)
    }
}

} // verus!

verus! {

use crate::text::push_char;

/// An exact copy of a token tree.
pub fn clone_tok(t: &Tok) -> (r: Tok)
    ensures
        r.view() == t.view(),
    decreases t,
{
    let r = match t {
        Tok::Ident(s) => Tok::Ident(s.as_str().to_owned()),
        Tok::Punct(c, sp) => Tok::Punct(*c, *sp),
        Tok::Literal(s) => Tok::Literal(s.as_str().to_owned()),
        Tok::Group(d, inner) => {
            let c = clone_range(inner, 0, inner.len());
            proof {
                lemma_view_seq(inner@);
                assert(view_seq(inner@).subrange(0, inner@.len() as int) =~= view_seq(inner@));
            }
            Tok::Group(*d, c)
        },
    };
    assert(r.view() == t.view());
    r
}

/// A copy of the token trees `v[lo..hi]`.
pub fn clone_range(v: &Vec<Tok>, lo: usize, hi: usize) -> (r: Vec<Tok>)
    requires
        lo <= hi <= v.len(),
    ensures
        toks_view(r) == view_seq(v@).subrange(lo as int, hi as int),
    decreases v,
{
    let mut r: Vec<Tok> = Vec::new();
    let mut i = lo;
    proof {
        lemma_view_seq(v@);
        lemma_view_seq(r@);
    }
    while i < hi
        invariant
            lo <= i <= hi <= v.len(),
            view_seq(v@).len() == v@.len(),
            forall|j: int| 0 <= j < v@.len() ==> #[trigger] view_seq(v@)[j] == v@[j].view(),
            view_seq(r@) == view_seq(v@).subrange(lo as int, i as int),
        decreases hi - i,
    {
        let t = clone_tok(&v[i]);
        let ghost old_r = r@;
        r.push(t);
        proof {
            assert(r@.drop_last() =~= old_r);
            assert(view_seq(v@).subrange(lo as int, i + 1) =~= view_seq(v@).subrange(
                lo as int,
                i as int,
            ).push(v@[i as int].view()));
        }
        i += 1;
    }
    r
}

/// Appends the delimiter text that opens a group.
fn push_open(d: Delimiter, paren: bool, out: &mut Vec<char>)
    ensures
        final(out)@ == old(out)@ + open_text(d, paren),
{
    let ghost o = out@;
    match d {
        Delimiter::Parenthesis => out.push('('),
        Delimiter::Brace => out.push('{'),
        Delimiter::Bracket => out.push('['),
        Delimiter::Invisible => if paren {
            out.push('(')
        },
    }
    proof {
        assert(out@ =~= o + open_text(d, paren));
    }
}

/// Appends the delimiter text that closes a group.
fn push_close(d: Delimiter, paren: bool, out: &mut Vec<char>)
    ensures
        final(out)@ == old(out)@ + close_text(d, paren),
{
    let ghost o = out@;
    match d {
        Delimiter::Parenthesis => out.push(')'),
        Delimiter::Brace => out.push('}'),
        Delimiter::Bracket => out.push(']'),
        Delimiter::Invisible => if paren {
            out.push(')')
        },
    }
    proof {
        assert(out@ =~= o + close_text(d, paren));
    }
}

/// Appends the characters of a string.
fn push_chars(out: &mut Vec<char>, s: &str)
    ensures
        final(out)@ == old(out)@ + s@,
{
    let ghost o = out@;
    let n = s.unicode_len();
    let mut i: usize = 0;
    proof {
        assert(o =~= o + s@.take(0));
    }
    while i < n
        invariant
            i <= n,
            n == s@.len(),
            out@ == o + s@.take(i as int),
        decreases n - i,
    {
        let c = s.get_char(i);
        out.push(c);
        proof {
            assert(o + s@.take(i + 1) =~= (o + s@.take(i as int)).push(c));
        }
        i += 1;
    }
    proof {
        assert(s@.take(n as int) =~= s@);
    }
}

/// Whether a token is a punctuation character joint with the next token.
pub fn tok_is_joint(t: &Tok) -> (r: bool)
    ensures
        r == is_joint(t.view()),
{
    match t {
        Tok::Punct(_, Spacing::Joint) => true,
        _ => false,
    }
}

/// Appends the source text of one token tree.
pub fn render_tok(t: &Tok, paren: bool, out: &mut Vec<char>)
    ensures
        final(out)@ == old(out)@ + tok_text(t.view(), paren),
    decreases t,
{
    match t {
        Tok::Ident(s) => push_chars(out, s.as_str()),
        Tok::Punct(c, _) => {
            let ghost o = out@;
            out.push(*c);
            proof {
                assert(out@ =~= o + tok_text(t.view(), paren));
            }
        },
        Tok::Literal(s) => push_chars(out, s.as_str()),
        Tok::Group(d, inner) => {
            let ghost o0 = out@;
            push_open(*d, paren, out);
            out.push(' ');
            render_range(inner, 0, inner.len(), paren, out);
            out.push(' ');
            push_close(*d, paren, out);
            proof {
                assert(inner@.subrange(0, inner@.len() as int) =~= inner@);
                assert(out@ =~= o0 + tok_text(t.view(), paren));
            }
        },
    }
}

/// Appends the source text of the token trees `v[lo..hi]`.
pub fn render_range(v: &Vec<Tok>, lo: usize, hi: usize, paren: bool, out: &mut Vec<char>)
    requires
        lo <= hi <= v.len(),
    ensures
        final(out)@ == old(out)@ + toks_text(view_seq(v@.subrange(lo as int, hi as int)), paren),
    decreases v,
{
    let ghost o0 = out@;
    let mut i = lo;
    proof {
        lemma_view_seq(v@.subrange(lo as int, lo as int));
        assert(out@ =~= o0 + toks_text(view_seq(v@.subrange(lo as int, lo as int)), paren));
    }
    while i < hi
        invariant
            lo <= i <= hi <= v.len(),
            out@ == o0 + toks_text(view_seq(v@.subrange(lo as int, i as int)), paren),
        decreases hi - i,
    {
        let ghost before = out@;
        if i > lo && !tok_is_joint(&v[i - 1]) {
            out.push(' ');
        }
        render_tok(&v[i], paren, out);
        proof {
            let s1 = v@.subrange(lo as int, i + 1);
            let s0 = v@.subrange(lo as int, i as int);
            assert(s1.drop_last() =~= s0);
            lemma_view_seq(s1);
            lemma_view_seq(s0);
            let w = view_seq(s1);
            assert(w.drop_last() =~= view_seq(s0));
            assert(w.last() == v@[i as int].view());
            if i > lo {
                assert(w[w.len() - 2] == v@[i - 1].view());
            }
            assert(out@ =~= o0 + toks_text(w, paren));
        }
        i += 1;
    }
}

/// The source text of the token trees `v[lo..hi]`, as characters.
pub fn text_of(v: &Vec<Tok>, lo: usize, hi: usize, paren: bool) -> (r: Vec<char>)
    requires
        lo <= hi <= v.len(),
    ensures
        r@ == toks_text(view_seq(v@).subrange(lo as int, hi as int), paren),
{
    let mut out: Vec<char> = Vec::new();
    render_range(v, lo, hi, paren, &mut out);
    proof {
        lemma_view_seq_map(v@);
        lemma_view_seq_map(v@.subrange(lo as int, hi as int));
        assert(view_seq(v@.subrange(lo as int, hi as int)) =~= view_seq(v@).subrange(
            lo as int,
            hi as int,
        ));
        assert(out@ =~= Seq::<char>::empty() + toks_text(
            view_seq(v@.subrange(lo as int, hi as int)),
            paren,
        ));
    }
    out
}

/// The string of the given characters.
pub fn string_of(chars: &Vec<char>) -> (r: String)
    ensures
        r@ == chars@,
{
    let mut out = String::new();
    let mut i: usize = 0;
    while i < chars.len()
        invariant
            i <= chars.len(),
            out@ == chars@.take(i as int),
        decreases chars.len() - i,
    {
        push_char(&mut out, chars[i]);
        proof {
            assert(chars@.take(i + 1) =~= chars@.take(i as int).push(chars@[i as int]));
        }
        i += 1;
    }
    proof {
        assert(chars@.take(chars.len() as int) =~= chars@);
    }
    out
}

} // verus!

verus! {

/// Appends one token tree.
pub fn push_tok(out: &mut Vec<Tok>, t: Tok)
    ensures
        toks_view(*final(out)) == toks_view(*old(out)).push(t.view()),
{
    let ghost o = out@;
    out.push(t);
    proof {
        assert(out@.drop_last() =~= o);
    }
}

/// Appends copies of all token trees of `src`.
pub fn extend_toks(out: &mut Vec<Tok>, src: &Vec<Tok>)
    ensures
        toks_view(*final(out)) == toks_view(*old(out)) + toks_view(*src),
{
    let ghost o = toks_view(*out);
    proof {
        lemma_view_seq(src@);
        assert(toks_view(*out) =~= o + view_seq(src@).subrange(0, 0));
    }
    let mut i: usize = 0;
    while i < src.len()
        invariant
            i <= src.len(),
            view_seq(src@).len() == src@.len(),
            forall|j: int| 0 <= j < src@.len() ==> #[trigger] view_seq(src@)[j] == src@[j].view(),
            toks_view(*out) == o + view_seq(src@).subrange(0, i as int),
        decreases src.len() - i,
    {
        let t = clone_tok(&src[i]);
        push_tok(out, t);
        proof {
            assert(view_seq(src@).subrange(0, i + 1) =~= view_seq(src@).subrange(0, i as int).push(
                src@[i as int].view(),
            ));
        }
        i += 1;
    }
    proof {
        assert(view_seq(src@).subrange(0, src@.len() as int) =~= view_seq(src@));
    }
}

/// A fresh identifier token.
pub fn word(w: &str) -> (t: Tok)
    ensures
        t.view() == TokV::Ident(w@),
{
    Tok::Ident(w.to_owned())
}

/// A fresh punctuation token, not joint with what follows.
pub fn punct(c: char) -> (t: Tok)
    ensures
        t.view() == TokV::Punct(c, Spacing::Alone),
{
    Tok::Punct(c, Spacing::Alone)
}

/// A group around the given tokens.
pub fn group(d: Delimiter, inner: Vec<Tok>) -> (t: Tok)
    ensures
        t.view() == TokV::Group(d, toks_view(inner)),
{
    Tok::Group(d, inner)
}

} // verus!
