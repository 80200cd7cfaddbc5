use vstd::prelude::*;

verus! {

/// A delimiter of a nested token group.
#[derive(Clone, Copy, Debug, PartialEq, Eq, Structural)]
pub enum Delim {
    Paren,
    Brace,
    Bracket,
}

/// A literal token: an unsuffixed integer or a quoted string.
#[derive(Debug, PartialEq)]
pub enum Lit {
    Int(u64),
    Str(Vec<char>),
}

/// One token of a source fragment. Every token carries the host toolchain's
/// position for the span it came from, as a plain span id, so diagnostics and
/// unchanged tokens keep pointing at the right place. A punctuation token also
/// records whether it is joint with the next token.
#[derive(Debug, PartialEq)]
pub enum TokenTree {
    Ident(Vec<char>, u32),
    Punct(char, bool, u32),
    Literal(Lit, u32),
    Group(Delim, Vec<TokenTree>, u32),
}

/// The mathematical value of a literal token.
pub enum LitV {
    Int(u64),
    Str(Seq<char>),
}

/// The mathematical value of a token: the same tree over sequences.
#[verifier::ext_equal]
pub enum TokV {
    Ident(Seq<char>, u32),
    Punct(char, bool, u32),
    Literal(LitV, u32),
    Group(Delim, Seq<TokV>, u32),
}

pub open spec fn lit_view(l: Lit) -> LitV {
    match l {
        Lit::Int(n) => LitV::Int(n),
        Lit::Str(s) => LitV::Str(s@),
    }
}

pub open spec fn tok_view(t: TokenTree) -> TokV
    decreases t,
{
    match t {
        TokenTree::Ident(nm, sp) => TokV::Ident(nm@, sp),
        TokenTree::Punct(c, j, sp) => TokV::Punct(c, j, sp),
        TokenTree::Literal(l, sp) => TokV::Literal(lit_view(l), sp),
        TokenTree::Group(d, ts, sp) => TokV::Group(d, stream_view(ts@), sp),
    }
}

pub open spec fn stream_view(s: Seq<TokenTree>) -> Seq<TokV>
    decreases s,
{
    if s.len() == 0 {
        Seq::empty()
    } else {
        seq![tok_view(s[0])] + stream_view(s.drop_first())
    }
}

/// `stream_view` maps `tok_view` over the stream, index by index.
pub proof fn lemma_stream_view(s: Seq<TokenTree>)
    ensures
        stream_view(s).len() == s.len(),
        forall|j: int| 0 <= j < s.len() ==> stream_view(s)[j] == tok_view(s[j]),
    decreases s,
{
    if s.len() > 0 {
        lemma_stream_view(s.drop_first());
    }
}

/// The span id a token carries.
pub open spec fn tok_span(t: TokV) -> u32 {
    match t {
        TokV::Ident(_, sp) => sp,
        TokV::Punct(_, _, sp) => sp,
        TokV::Literal(_, sp) => sp,
        TokV::Group(_, _, sp) => sp,
    }
}

/// Reads the span id off one token.
pub fn tok_span_exec(t: &TokenTree) -> (sp: u32)
    ensures
        sp == tok_span(tok_view(*t)),
{
    match t {
        TokenTree::Ident(_, sp) => *sp,
        TokenTree::Punct(_, _, sp) => *sp,
        TokenTree::Literal(_, sp) => *sp,
        TokenTree::Group(_, _, sp) => *sp,
    }
}

/// `stream_view` distributes over concatenation.
pub proof fn lemma_stream_view_concat(a: Seq<TokenTree>, b: Seq<TokenTree>)
    ensures
        stream_view(a + b) == stream_view(a) + stream_view(b),
{
    lemma_stream_view(a);
    lemma_stream_view(b);
    lemma_stream_view(a + b);
    assert(stream_view(a + b) =~= stream_view(a) + stream_view(b));
}

fn clone_lit(l: &Lit) -> (r: Lit)
    ensures
        lit_view(r) == lit_view(*l),
{
    match l {
        Lit::Int(n) => Lit::Int(*n),
        Lit::Str(s) => Lit::Str(crate::name::copy_chars(s)),
    }
}

/// A fresh copy of one token, equal to the original in value.
pub fn clone_token(t: &TokenTree) -> (r: TokenTree)
    ensures
        tok_view(r) == tok_view(*t),
    decreases *t,
{
    match t {
        TokenTree::Ident(nm, sp) => TokenTree::Ident(crate::name::copy_chars(nm), *sp),
        TokenTree::Punct(c, j, sp) => TokenTree::Punct(*c, *j, *sp),
        TokenTree::Literal(l, sp) => TokenTree::Literal(clone_lit(l), *sp),
        TokenTree::Group(d, ts, sp) => TokenTree::Group(*d, clone_stream(ts), *sp),
    }
}

/// A fresh copy of a whole token stream, equal to the original in value.
pub fn clone_stream(s: &Vec<TokenTree>) -> (r: Vec<TokenTree>)
    ensures
        stream_view(r@) == stream_view(s@),
    decreases *s,
{
    let mut r: Vec<TokenTree> = Vec::new();
    let mut i: usize = 0;
    proof {
        lemma_stream_view(s@);
    }
    while i < s.len()
        invariant
            i <= s.len(),
            r@.len() == i,
            forall|j: int| 0 <= j < i ==> tok_view(r@[j]) == tok_view(s@[j]),
        decreases s.len() - i,
    {
        let t = clone_token(&s[i]);
        r.push(t);
        i += 1;
    }
    proof {
        lemma_stream_view(r@);
        assert(stream_view(r@) =~= stream_view(s@));
    }
    r
}

} // verus!
