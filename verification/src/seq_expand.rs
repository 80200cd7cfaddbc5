use vstd::prelude::*;

use crate::diag::{diag_view, DiagKind, DiagKindV, DiagV, Diagnostic};
use crate::name::{copy_chars, dec_digits, name_concat, name_eq, u64_digits};
use crate::token::{
    clone_stream, clone_token, lemma_stream_view, stream_view, tok_span, tok_span_exec, tok_view,
    Delim, Lit, LitV, TokV, TokenTree,
};

verus! {

/// The scanner that finds the exact three-token paste pattern
/// `Ident # Ident`: it has seen nothing pending, one identifier, or an
/// identifier followed by `#`. Pending tokens are flushed unchanged when the
/// pattern fails to complete.
pub enum Scan {
    Waiting,
    SawIdent(Vec<char>, u32),
    SawHash(Vec<char>, u32, bool, u32),
}

/// The mathematical value of a scanner state.
#[verifier::ext_equal]
pub enum ScanV {
    Waiting,
    SawIdent(Seq<char>, u32),
    SawHash(Seq<char>, u32, bool, u32),
}

pub open spec fn scan_view(s: Scan) -> ScanV {
    match s {
        Scan::Waiting => ScanV::Waiting,
        Scan::SawIdent(nm, sp) => ScanV::SawIdent(nm@, sp),
        Scan::SawHash(nm, sp, j, psp) => ScanV::SawHash(nm@, sp, j, psp),
    }
}

/// What becomes of one identifier under substitution: an occurrence of the
/// loop variable turns into the unsuffixed integer literal of the current
/// index, keeping the identifier's span; any other identifier stays.
pub open spec fn subst_ident(nm: Seq<char>, sp: u32, ident: Seq<char>, n: u64) -> TokV {
    if nm == ident {
        TokV::Literal(LitV::Int(n), sp)
    } else {
        TokV::Ident(nm, sp)
    }
}

/// The tokens a scanner state gives up when the input ends: pending tokens
/// are flushed in order, with substitution applied to the pending identifier.
pub open spec fn flush_toks(state: ScanV, ident: Seq<char>, n: u64) -> Seq<TokV> {
    match state {
        ScanV::Waiting => seq![],
        ScanV::SawIdent(nm, sp) => seq![subst_ident(nm, sp, ident, n)],
        ScanV::SawHash(nm, sp, j, psp) => seq![
            subst_ident(nm, sp, ident, n),
            TokV::Punct('#', j, psp),
        ],
    }
}

/// One rewritten copy of a token stream, from a given scanner state on:
/// the paste scan runs over the stream first, fusing each
/// `prefix # ident` into one identifier `prefix<n>` bearing the prefix's
/// span, and every identifier the scan leaves behind (a pasted one included)
/// is then substituted; nested groups are rewritten recursively, keeping
/// their delimiter and span, with the scan starting fresh inside each group.
pub open spec fn rewrite_from(state: ScanV, s: Seq<TokV>, ident: Seq<char>, n: u64) -> Seq<TokV>
    decreases s,
{
    if s.len() == 0 {
        flush_toks(state, ident, n)
    } else {
        let t = s[0];
        let rest = s.drop_first();
        match state {
            ScanV::Waiting => match t {
                TokV::Ident(nm, sp) => rewrite_from(ScanV::SawIdent(nm, sp), rest, ident, n),
                TokV::Group(d, ts, sp) => seq![
                    TokV::Group(d, rewrite_from(ScanV::Waiting, ts, ident, n), sp),
                ] + rewrite_from(ScanV::Waiting, rest, ident, n),
                _ => seq![t] + rewrite_from(ScanV::Waiting, rest, ident, n),
            },
            ScanV::SawIdent(pnm, pisp) => match t {
                TokV::Punct(c, j, sp) => if c == '#' {
                    rewrite_from(ScanV::SawHash(pnm, pisp, j, sp), rest, ident, n)
                } else {
                    seq![subst_ident(pnm, pisp, ident, n), t]
                        + rewrite_from(ScanV::Waiting, rest, ident, n)
                },
                TokV::Ident(nm, sp) => seq![subst_ident(pnm, pisp, ident, n)]
                    + rewrite_from(ScanV::SawIdent(nm, sp), rest, ident, n),
                TokV::Group(d, ts, sp) => seq![
                    subst_ident(pnm, pisp, ident, n),
                    TokV::Group(d, rewrite_from(ScanV::Waiting, ts, ident, n), sp),
                ] + rewrite_from(ScanV::Waiting, rest, ident, n),
                TokV::Literal(_, _) => seq![subst_ident(pnm, pisp, ident, n), t]
                    + rewrite_from(ScanV::Waiting, rest, ident, n),
            },
            ScanV::SawHash(pnm, pisp, j, psp) => match t {
                TokV::Ident(nm, sp) => if nm == ident {
                    seq![subst_ident(pnm + dec_digits(n as nat), pisp, ident, n)]
                        + rewrite_from(ScanV::Waiting, rest, ident, n)
                } else {
                    seq![subst_ident(pnm, pisp, ident, n), TokV::Punct('#', j, psp)]
                        + rewrite_from(ScanV::SawIdent(nm, sp), rest, ident, n)
                },
                TokV::Group(d, ts, sp) => seq![
                    subst_ident(pnm, pisp, ident, n),
                    TokV::Punct('#', j, psp),
                    TokV::Group(d, rewrite_from(ScanV::Waiting, ts, ident, n), sp),
                ] + rewrite_from(ScanV::Waiting, rest, ident, n),
                _ => seq![subst_ident(pnm, pisp, ident, n), TokV::Punct('#', j, psp), t]
                    + rewrite_from(ScanV::Waiting, rest, ident, n),
            },
        }
    }
}

/// One rewritten copy of a whole token stream for index value `n`.
pub open spec fn rewrite_spec(s: Seq<TokV>, ident: Seq<char>, n: u64) -> Seq<TokV> {
    rewrite_from(ScanV::Waiting, s, ident, n)
}

/// What a scanner state gives up raw, unsubstituted, when the input ends.
pub open spec fn flush_raw(state: ScanV) -> Seq<TokV> {
    match state {
        ScanV::Waiting => seq![],
        ScanV::SawIdent(nm, sp) => seq![TokV::Ident(nm, sp)],
        ScanV::SawHash(nm, sp, j, psp) => seq![TokV::Ident(nm, sp), TokV::Punct('#', j, psp)],
    }
}

/// The paste scan alone, over one nesting level: each complete
/// `prefix # ident` pattern fuses into one pasted identifier, a near miss is
/// flushed as its ordinary tokens, and nothing is substituted or entered.
pub open spec fn scan_from(state: ScanV, s: Seq<TokV>, ident: Seq<char>, n: u64) -> Seq<TokV>
    decreases s,
{
    if s.len() == 0 {
        flush_raw(state)
    } else {
        let t = s[0];
        let rest = s.drop_first();
        match state {
            ScanV::Waiting => match t {
                TokV::Ident(nm, sp) => scan_from(ScanV::SawIdent(nm, sp), rest, ident, n),
                _ => seq![t] + scan_from(ScanV::Waiting, rest, ident, n),
            },
            ScanV::SawIdent(pnm, pisp) => match t {
                TokV::Punct(c, j, sp) => if c == '#' {
                    scan_from(ScanV::SawHash(pnm, pisp, j, sp), rest, ident, n)
                } else {
                    seq![TokV::Ident(pnm, pisp), t] + scan_from(ScanV::Waiting, rest, ident, n)
                },
                TokV::Ident(nm, sp) => seq![TokV::Ident(pnm, pisp)] + scan_from(
                    ScanV::SawIdent(nm, sp),
                    rest,
                    ident,
                    n,
                ),
                _ => seq![TokV::Ident(pnm, pisp), t] + scan_from(ScanV::Waiting, rest, ident, n),
            },
            ScanV::SawHash(pnm, pisp, j, psp) => match t {
                TokV::Ident(nm, sp) => if nm == ident {
                    seq![TokV::Ident(pnm + dec_digits(n as nat), pisp)] + scan_from(
                        ScanV::Waiting,
                        rest,
                        ident,
                        n,
                    )
                } else {
                    seq![TokV::Ident(pnm, pisp), TokV::Punct('#', j, psp)] + scan_from(
                        ScanV::SawIdent(nm, sp),
                        rest,
                        ident,
                        n,
                    )
                },
                _ => seq![TokV::Ident(pnm, pisp), TokV::Punct('#', j, psp), t] + scan_from(
                    ScanV::Waiting,
                    rest,
                    ident,
                    n,
                ),
            },
        }
    }
}

/// Substitution alone, on one token the scan left behind: the loop variable
/// becomes the integer literal, a nested group is rewritten whole, anything
/// else stays.
pub open spec fn subst_tok(t: TokV, ident: Seq<char>, n: u64) -> TokV
    decreases t,
{
    match t {
        TokV::Ident(nm, sp) => subst_ident(nm, sp, ident, n),
        TokV::Group(d, ts, sp) => TokV::Group(d, rewrite_from(ScanV::Waiting, ts, ident, n), sp),
        _ => t,
    }
}

/// Substitution alone, over a whole scanned level.
pub open spec fn subst_map(s: Seq<TokV>, ident: Seq<char>, n: u64) -> Seq<TokV>
    decreases s,
{
    if s.len() == 0 {
        seq![]
    } else {
        seq![subst_tok(s[0], ident, n)] + subst_map(s.drop_first(), ident, n)
    }
}

proof fn lemma_subst_map_concat(a: Seq<TokV>, b: Seq<TokV>, ident: Seq<char>, n: u64)
    ensures
        subst_map(a + b, ident, n) == subst_map(a, ident, n) + subst_map(b, ident, n),
    decreases a,
{
    if a.len() == 0 {
        assert(a + b =~= b);
        assert(subst_map(a + b, ident, n) =~= subst_map(a, ident, n) + subst_map(b, ident, n));
    } else {
        assert((a + b).drop_first() =~= a.drop_first() + b);
        lemma_subst_map_concat(a.drop_first(), b, ident, n);
        assert(subst_map(a + b, ident, n) =~= subst_map(a, ident, n) + subst_map(b, ident, n));
    }
}

proof fn lemma_subst_map_one(t: TokV, ident: Seq<char>, n: u64)
    ensures
        subst_map(seq![t], ident, n) == seq![subst_tok(t, ident, n)],
{
    assert(seq![t].len() == 1);
    assert(seq![t][0] == t);
    assert(seq![t].drop_first() =~= Seq::<TokV>::empty());
    assert(subst_map(Seq::<TokV>::empty(), ident, n) == Seq::<TokV>::empty());
    assert(subst_map(seq![t], ident, n) == seq![subst_tok(seq![t][0], ident, n)] + subst_map(
        seq![t].drop_first(),
        ident,
        n,
    ));
    assert(subst_map(seq![t], ident, n) =~= seq![subst_tok(t, ident, n)]);
}

proof fn lemma_subst_map_two(a: TokV, b: TokV, ident: Seq<char>, n: u64)
    ensures
        subst_map(seq![a, b], ident, n) == seq![
            subst_tok(a, ident, n),
            subst_tok(b, ident, n),
        ],
{
    assert(seq![a, b].drop_first() =~= seq![b]);
    lemma_subst_map_one(b, ident, n);
    assert(subst_map(seq![a, b], ident, n) =~= seq![
        subst_tok(a, ident, n),
        subst_tok(b, ident, n),
    ]);
}

proof fn lemma_subst_map_three(a: TokV, b: TokV, c: TokV, ident: Seq<char>, n: u64)
    ensures
        subst_map(seq![a, b, c], ident, n) == seq![
            subst_tok(a, ident, n),
            subst_tok(b, ident, n),
            subst_tok(c, ident, n),
        ],
{
    assert(seq![a, b, c].drop_first() =~= seq![b, c]);
    lemma_subst_map_two(b, c, ident, n);
    assert(subst_map(seq![a, b, c], ident, n) =~= seq![
        subst_tok(a, ident, n),
        subst_tok(b, ident, n),
        subst_tok(c, ident, n),
    ]);
}

/// The rewriter is exactly the two phases in order: the paste scan runs over
/// a level first, and substitution is applied to everything the scan leaves —
/// flushed near misses and pasted identifiers included — with the same two
/// phases repeated inside every nested group.
pub proof fn lemma_scan_then_subst(state: ScanV, s: Seq<TokV>, ident: Seq<char>, n: u64)
    ensures
        rewrite_from(state, s, ident, n) == subst_map(scan_from(state, s, ident, n), ident, n),
    decreases s,
{
    if s.len() == 0 {
        match state {
            ScanV::Waiting => {
                assert(rewrite_from(state, s, ident, n) =~= subst_map(
                    scan_from(state, s, ident, n),
                    ident,
                    n,
                ));
            },
            ScanV::SawIdent(nm, sp) => {
                lemma_subst_map_one(TokV::Ident(nm, sp), ident, n);
                assert(rewrite_from(state, s, ident, n) =~= subst_map(
                    scan_from(state, s, ident, n),
                    ident,
                    n,
                ));
            },
            ScanV::SawHash(nm, sp, j, psp) => {
                lemma_subst_map_two(TokV::Ident(nm, sp), TokV::Punct('#', j, psp), ident, n);
                assert(rewrite_from(state, s, ident, n) =~= subst_map(
                    scan_from(state, s, ident, n),
                    ident,
                    n,
                ));
            },
        }
    } else {
        let t = s[0];
        let rest = s.drop_first();
        match state {
            ScanV::Waiting => match t {
                TokV::Ident(nm, sp) => {
                    lemma_scan_then_subst(ScanV::SawIdent(nm, sp), rest, ident, n);
                },
                _ => {
                    lemma_scan_then_subst(ScanV::Waiting, rest, ident, n);
                    lemma_subst_map_concat(
                        seq![t],
                        scan_from(ScanV::Waiting, rest, ident, n),
                        ident,
                        n,
                    );
                    lemma_subst_map_one(t, ident, n);
                    assert(rewrite_from(state, s, ident, n) =~= subst_map(
                        scan_from(state, s, ident, n),
                        ident,
                        n,
                    ));
                },
            },
            ScanV::SawIdent(pnm, pisp) => {
                let flushed = TokV::Ident(pnm, pisp);
                match t {
                    TokV::Punct(c, j, sp) => {
                        if c == '#' {
                            lemma_scan_then_subst(ScanV::SawHash(pnm, pisp, j, sp), rest, ident, n);
                        } else {
                            lemma_scan_then_subst(ScanV::Waiting, rest, ident, n);
                            lemma_subst_map_concat(
                                seq![flushed, t],
                                scan_from(ScanV::Waiting, rest, ident, n),
                                ident,
                                n,
                            );
                            lemma_subst_map_two(flushed, t, ident, n);
                            assert(rewrite_from(state, s, ident, n) =~= subst_map(
                                scan_from(state, s, ident, n),
                                ident,
                                n,
                            ));
                        }
                    },
                    TokV::Ident(nm, sp) => {
                        lemma_scan_then_subst(ScanV::SawIdent(nm, sp), rest, ident, n);
                        lemma_subst_map_concat(
                            seq![flushed],
                            scan_from(ScanV::SawIdent(nm, sp), rest, ident, n),
                            ident,
                            n,
                        );
                        lemma_subst_map_one(flushed, ident, n);
                        assert(rewrite_from(state, s, ident, n) =~= subst_map(
                            scan_from(state, s, ident, n),
                            ident,
                            n,
                        ));
                    },
                    _ => {
                        lemma_scan_then_subst(ScanV::Waiting, rest, ident, n);
                        lemma_subst_map_concat(
                            seq![flushed, t],
                            scan_from(ScanV::Waiting, rest, ident, n),
                            ident,
                            n,
                        );
                        lemma_subst_map_two(flushed, t, ident, n);
                        assert(rewrite_from(state, s, ident, n) =~= subst_map(
                            scan_from(state, s, ident, n),
                            ident,
                            n,
                        ));
                    },
                }
            },
            ScanV::SawHash(pnm, pisp, j, psp) => {
                let flushed = TokV::Ident(pnm, pisp);
                let hash = TokV::Punct('#', j, psp);
                match t {
                    TokV::Ident(nm, sp) => {
                        if nm == ident {
                            let pasted = TokV::Ident(pnm + dec_digits(n as nat), pisp);
                            lemma_scan_then_subst(ScanV::Waiting, rest, ident, n);
                            lemma_subst_map_concat(
                                seq![pasted],
                                scan_from(ScanV::Waiting, rest, ident, n),
                                ident,
                                n,
                            );
                            lemma_subst_map_one(pasted, ident, n);
                            assert(rewrite_from(state, s, ident, n) =~= subst_map(
                                scan_from(state, s, ident, n),
                                ident,
                                n,
                            ));
                        } else {
                            lemma_scan_then_subst(ScanV::SawIdent(nm, sp), rest, ident, n);
                            lemma_subst_map_concat(
                                seq![flushed, hash],
                                scan_from(ScanV::SawIdent(nm, sp), rest, ident, n),
                                ident,
                                n,
                            );
                            lemma_subst_map_two(flushed, hash, ident, n);
                            assert(rewrite_from(state, s, ident, n) =~= subst_map(
                                scan_from(state, s, ident, n),
                                ident,
                                n,
                            ));
                        }
                    },
                    _ => {
                        lemma_scan_then_subst(ScanV::Waiting, rest, ident, n);
                        lemma_subst_map_concat(
                            seq![flushed, hash, t],
                            scan_from(ScanV::Waiting, rest, ident, n),
                            ident,
                            n,
                        );
                        lemma_subst_map_three(flushed, hash, t, ident, n);
                        assert(rewrite_from(state, s, ident, n) =~= subst_map(
                            scan_from(state, s, ident, n),
                            ident,
                            n,
                        ));
                    },
                }
            },
        }
    }
}

proof fn lemma_stream_view_skip_step(s: Seq<TokenTree>, i: int)
    requires
        0 <= i < s.len(),
    ensures
        stream_view(s.skip(i)) == seq![tok_view(s[i])] + stream_view(s.skip(i + 1)),
{
    lemma_stream_view(s.skip(i));
    lemma_stream_view(s.skip(i + 1));
    assert(stream_view(s.skip(i)) =~= seq![tok_view(s[i])] + stream_view(s.skip(i + 1)));
}

fn subst_ident_token(nm: Vec<char>, sp: u32, ident: &Vec<char>, n: u64) -> (t: TokenTree)
    ensures
        tok_view(t) == subst_ident(nm@, sp, ident@, n),
{
    if name_eq(&nm, ident) {
        TokenTree::Literal(Lit::Int(n), sp)
    } else {
        TokenTree::Ident(nm, sp)
    }
}

/// Rewrites the tokens of `toks` from position `i` on, starting in scanner
/// state `state`, for index value `n` of the loop variable `ident`.
fn rewrite_at(state: Scan, toks: &Vec<TokenTree>, i: usize, ident: &Vec<char>, n: u64) -> (r:
    Vec<TokenTree>)
    requires
        i <= toks.len(),
    ensures
        stream_view(r@) == rewrite_from(
            scan_view(state),
            stream_view(toks@.skip(i as int)),
            ident@,
            n,
        ),
    decreases *toks, toks.len() - i,
{
    if i == toks.len() {
        proof {
            assert(toks@.skip(i as int) =~= Seq::<TokenTree>::empty());
        }
        let mut r: Vec<TokenTree> = Vec::new();
        match state {
            Scan::Waiting => {},
            Scan::SawIdent(nm, sp) => {
                let t = subst_ident_token(nm, sp, ident, n);
                r.push(t);
            },
            Scan::SawHash(nm, sp, j, psp) => {
                let t = subst_ident_token(nm, sp, ident, n);
                r.push(t);
                r.push(TokenTree::Punct('#', j, psp));
            },
        }
        proof {
            lemma_stream_view(r@);
            assert(stream_view(r@) =~= flush_toks(scan_view(state), ident@, n));
        }
        r
    } else {
        proof {
            lemma_stream_view_skip_step(toks@, i as int);
        }
        let ghost st0 = scan_view(state);
        let ghost sv = stream_view(toks@.skip(i as int));
        let ghost rest_v = stream_view(toks@.skip(i as int + 1));
        proof {
            assert(sv[0] == tok_view(toks@[i as int]));
            assert(sv.drop_first() =~= rest_v);
        }
        let mut r: Vec<TokenTree> = Vec::new();
        let next_state: Scan;
        match &toks[i] {
            TokenTree::Ident(nm, sp) => {
                match state {
                    Scan::Waiting => {
                        next_state = Scan::SawIdent(copy_chars(nm), *sp);
                        proof {
                            lemma_stream_view(r@);
                            assert(rewrite_from(st0, sv, ident@, n) =~= stream_view(r@)
                                + rewrite_from(scan_view(next_state), rest_v, ident@, n));
                        }
                    },
                    Scan::SawIdent(pnm, pisp) => {
                        let t = subst_ident_token(pnm, pisp, ident, n);
                        r.push(t);
                        next_state = Scan::SawIdent(copy_chars(nm), *sp);
                        proof {
                            lemma_stream_view(r@);
                            assert(rewrite_from(st0, sv, ident@, n) =~= stream_view(r@)
                                + rewrite_from(scan_view(next_state), rest_v, ident@, n));
                        }
                    },
                    Scan::SawHash(pnm, pisp, j, psp) => {
                        if name_eq(nm, ident) {
                            let digits = u64_digits(n);
                            let pasted = name_concat(&pnm, &digits);
                            let t = subst_ident_token(pasted, pisp, ident, n);
                            r.push(t);
                            next_state = Scan::Waiting;
                            proof {
                                lemma_stream_view(r@);
                                assert(rewrite_from(st0, sv, ident@, n) =~= stream_view(r@)
                                    + rewrite_from(scan_view(next_state), rest_v, ident@, n));
                            }
                        } else {
                            let t = subst_ident_token(pnm, pisp, ident, n);
                            r.push(t);
                            r.push(TokenTree::Punct('#', j, psp));
                            next_state = Scan::SawIdent(copy_chars(nm), *sp);
                            proof {
                                lemma_stream_view(r@);
                                assert(rewrite_from(st0, sv, ident@, n) =~= stream_view(r@)
                                    + rewrite_from(scan_view(next_state), rest_v, ident@, n));
                            }
                        }
                    },
                }
            },
            TokenTree::Punct(c, j, sp) => {
                match state {
                    Scan::Waiting => {
                        r.push(TokenTree::Punct(*c, *j, *sp));
                        next_state = Scan::Waiting;
                        proof {
                            lemma_stream_view(r@);
                            assert(rewrite_from(st0, sv, ident@, n) =~= stream_view(r@)
                                + rewrite_from(scan_view(next_state), rest_v, ident@, n));
                        }
                    },
                    Scan::SawIdent(pnm, pisp) => {
                        if *c == '#' {
                            next_state = Scan::SawHash(pnm, pisp, *j, *sp);
                            proof {
                                lemma_stream_view(r@);
                                assert(rewrite_from(st0, sv, ident@, n) =~= stream_view(r@)
                                    + rewrite_from(scan_view(next_state), rest_v, ident@, n));
                            }
                        } else {
                            let t = subst_ident_token(pnm, pisp, ident, n);
                            r.push(t);
                            r.push(TokenTree::Punct(*c, *j, *sp));
                            next_state = Scan::Waiting;
                            proof {
                                lemma_stream_view(r@);
                                assert(rewrite_from(st0, sv, ident@, n) =~= stream_view(r@)
                                    + rewrite_from(scan_view(next_state), rest_v, ident@, n));
                            }
                        }
                    },
                    Scan::SawHash(pnm, pisp, pj, psp) => {
                        let t = subst_ident_token(pnm, pisp, ident, n);
                        r.push(t);
                        r.push(TokenTree::Punct('#', pj, psp));
                        r.push(TokenTree::Punct(*c, *j, *sp));
                        next_state = Scan::Waiting;
                        proof {
                            lemma_stream_view(r@);
                            assert(rewrite_from(st0, sv, ident@, n) =~= stream_view(r@)
                                + rewrite_from(scan_view(next_state), rest_v, ident@, n));
                        }
                    },
                }
            },
            TokenTree::Literal(_, _) => {
                match state {
                    Scan::Waiting => {},
                    Scan::SawIdent(pnm, pisp) => {
                        let t = subst_ident_token(pnm, pisp, ident, n);
                        r.push(t);
                    },
                    Scan::SawHash(pnm, pisp, pj, psp) => {
                        let t = subst_ident_token(pnm, pisp, ident, n);
                        r.push(t);
                        r.push(TokenTree::Punct('#', pj, psp));
                    },
                }
                proof {
                    lemma_stream_view(r@);
                    assert(stream_view(r@) =~= flush_toks(st0, ident@, n));
                }
                let c = clone_token(&toks[i]);
                r.push(c);
                next_state = Scan::Waiting;
                proof {
                    lemma_stream_view(r@);
                    assert(stream_view(r@) =~= flush_toks(st0, ident@, n) + seq![sv[0]]);
                    assert(rewrite_from(st0, sv, ident@, n) =~= stream_view(r@)
                        + rewrite_from(scan_view(next_state), rest_v, ident@, n));
                }
            },
            TokenTree::Group(d, ts, sp) => {
                match state {
                    Scan::Waiting => {},
                    Scan::SawIdent(pnm, pisp) => {
                        let t = subst_ident_token(pnm, pisp, ident, n);
                        r.push(t);
                    },
                    Scan::SawHash(pnm, pisp, pj, psp) => {
                        let t = subst_ident_token(pnm, pisp, ident, n);
                        r.push(t);
                        r.push(TokenTree::Punct('#', pj, psp));
                    },
                }
                proof {
                    lemma_stream_view(r@);
                    assert(stream_view(r@) =~= flush_toks(st0, ident@, n));
                    assert(ts@.skip(0) =~= ts@);
                }
                let inner = rewrite_at(Scan::Waiting, ts, 0, ident, n);
                r.push(TokenTree::Group(*d, inner, *sp));
                next_state = Scan::Waiting;
                proof {
                    lemma_stream_view(r@);
                    assert(stream_view(r@) =~= flush_toks(st0, ident@, n) + seq![
                        TokV::Group(
                            *d,
                            rewrite_from(ScanV::Waiting, stream_view(ts@), ident@, n),
                            *sp,
                        ),
                    ]);
                    assert(rewrite_from(st0, sv, ident@, n) =~= stream_view(r@)
                        + rewrite_from(scan_view(next_state), rest_v, ident@, n));
                }
            },
        }
        let ghost emitted = stream_view(r@);
        let mut rest = rewrite_at(next_state, toks, i + 1, ident, n);
        proof {
            crate::token::lemma_stream_view_concat(r@, rest@);
        }
        r.append(&mut rest);
        proof {
            assert(stream_view(r@) =~= emitted + rewrite_from(
                scan_view(next_state),
                rest_v,
                ident@,
                n,
            ));
            assert(stream_view(r@) =~= rewrite_from(st0, sv, ident@, n));
        }
        r
    }
}

/// One copy of the body, rewritten for index value `n`: pastes resolved
/// first, remaining occurrences of the loop variable then replaced by the
/// integer literal `n`, recursively at every nesting depth in that order.
pub fn replace_tokens(body: &Vec<TokenTree>, ident: &Vec<char>, n: u64) -> (r: Vec<TokenTree>)
    ensures
        stream_view(r@) == rewrite_spec(stream_view(body@), ident@, n),
{
    proof {
        assert(body@.skip(0) =~= body@);
    }
    rewrite_at(Scan::Waiting, body, 0, ident, n)
}

/// One expansion request: a loop variable, an inclusive-exclusive index
/// range, and the body fragment to be repeated.
#[derive(Debug, PartialEq)]
pub struct SeqRequest {
    pub ident: Vec<char>,
    pub ident_span: u32,
    pub start: u64,
    pub end: u64,
    pub body: Vec<TokenTree>,
}

/// The mathematical value of an expansion request.
#[verifier::ext_equal]
pub struct SeqReqV {
    pub ident: Seq<char>,
    pub ident_span: u32,
    pub start: u64,
    pub end: u64,
    pub body: Seq<TokV>,
}

pub open spec fn req_view(r: SeqRequest) -> SeqReqV {
    SeqReqV {
        ident: r.ident@,
        ident_span: r.ident_span,
        start: r.start,
        end: r.end,
        body: stream_view(r.body@),
    }
}

/// The span to report when parsing fails at position `k`: the token there,
/// or the last token if the input ends too early, or the call site (`0`)
/// if the input is empty.
pub open spec fn err_at(s: Seq<TokV>, k: int) -> u32 {
    if s.len() == 0 {
        0
    } else if s.len() <= k {
        tok_span(s[s.len() - 1])
    } else {
        tok_span(s[k])
    }
}

/// The `ident in start..end { body }` grammar: what a token stream must look
/// like to be an expansion request, or the span of the offending token.
pub open spec fn parse_seq_spec(s: Seq<TokV>) -> Result<SeqReqV, u32> {
    if !(s.len() > 0 && s[0] matches TokV::Ident(_, _)) {
        Err(err_at(s, 0))
    } else if !(s.len() > 1 && (s[1] matches TokV::Ident(nm, _) && nm == "in"@)) {
        Err(err_at(s, 1))
    } else if !(s.len() > 2 && s[2] matches TokV::Literal(LitV::Int(_), _)) {
        Err(err_at(s, 2))
    } else if !(s.len() > 3 && s[3] matches TokV::Punct('.', _, _)) {
        Err(err_at(s, 3))
    } else if !(s.len() > 4 && s[4] matches TokV::Punct('.', _, _)) {
        Err(err_at(s, 4))
    } else if !(s.len() > 5 && s[5] matches TokV::Literal(LitV::Int(_), _)) {
        Err(err_at(s, 5))
    } else if !(s.len() > 6 && s[6] matches TokV::Group(Delim::Brace, _, _)) {
        Err(err_at(s, 6))
    } else if s.len() != 7 {
        Err(tok_span(s[7]))
    } else {
        Ok(
            SeqReqV {
                ident: s[0]->Ident_0,
                ident_span: s[0]->Ident_1,
                start: s[2]->Literal_0->Int_0,
                end: s[5]->Literal_0->Int_0,
                body: s[6]->Group_1,
            },
        )
    }
}

fn grammar_err(toks: &Vec<TokenTree>, k: usize) -> (d: Diagnostic)
    ensures
        diag_view(d) == (DiagV { span: err_at(stream_view(toks@), k as int), kind: DiagKindV::MalformedGrammar }),
{
    proof {
        lemma_stream_view(toks@);
    }
    let span: u32 = if toks.len() == 0 {
        0
    } else if toks.len() <= k {
        tok_span_exec(&toks[toks.len() - 1])
    } else {
        tok_span_exec(&toks[k])
    };
    Diagnostic { span, kind: DiagKind::MalformedGrammar }
}

/// Parses an expansion request from a token stream, reporting a failure at
/// the offending token.
pub fn parse_seq_input(toks: &Vec<TokenTree>) -> (r: Result<SeqRequest, Diagnostic>)
    ensures
        match r {
            Ok(req) => parse_seq_spec(stream_view(toks@)) == Ok::<SeqReqV, u32>(req_view(req)),
            Err(d) => parse_seq_spec(stream_view(toks@)) matches Err(sp) && diag_view(d) == (
            DiagV { span: sp, kind: DiagKindV::MalformedGrammar }),
        },
{
    proof {
        lemma_stream_view(toks@);
    }
    let ghost sv = stream_view(toks@);
    if toks.len() == 0 {
        return Err(grammar_err(toks, 0));
    }
    let (var_name, var_span): (Vec<char>, u32) = match &toks[0] {
        TokenTree::Ident(nm, sp) => (copy_chars(nm), *sp),
        _ => {
            return Err(grammar_err(toks, 0));
        },
    };
    let mut kw_in: Vec<char> = Vec::new();
    kw_in.push('i');
    kw_in.push('n');
    proof {
        reveal_strlit("in");
        assert(kw_in@ =~= "in"@);
    }
    if toks.len() <= 1 {
        return Err(grammar_err(toks, 1));
    }
    match &toks[1] {
        TokenTree::Ident(nm, _) => {
            if !name_eq(nm, &kw_in) {
                return Err(grammar_err(toks, 1));
            }
        },
        _ => {
            return Err(grammar_err(toks, 1));
        },
    }
    if toks.len() <= 2 {
        return Err(grammar_err(toks, 2));
    }
    let start: u64 = match &toks[2] {
        TokenTree::Literal(Lit::Int(v), _) => *v,
        _ => {
            return Err(grammar_err(toks, 2));
        },
    };
    if toks.len() <= 3 {
        return Err(grammar_err(toks, 3));
    }
    match &toks[3] {
        TokenTree::Punct(c, _, _) => {
            if *c != '.' {
                return Err(grammar_err(toks, 3));
            }
        },
        _ => {
            return Err(grammar_err(toks, 3));
        },
    }
    if toks.len() <= 4 {
        return Err(grammar_err(toks, 4));
    }
    match &toks[4] {
        TokenTree::Punct(c, _, _) => {
            if *c != '.' {
                return Err(grammar_err(toks, 4));
            }
        },
        _ => {
            return Err(grammar_err(toks, 4));
        },
    }
    if toks.len() <= 5 {
        return Err(grammar_err(toks, 5));
    }
    let end: u64 = match &toks[5] {
        TokenTree::Literal(Lit::Int(v), _) => *v,
        _ => {
            return Err(grammar_err(toks, 5));
        },
    };
    if toks.len() <= 6 {
        return Err(grammar_err(toks, 6));
    }
    let body: Vec<TokenTree> = match &toks[6] {
        TokenTree::Group(Delim::Brace, ts, _) => clone_stream(ts),
        _ => {
            return Err(grammar_err(toks, 6));
        },
    };
    if toks.len() != 7 {
        let d = Diagnostic { span: tok_span_exec(&toks[7]), kind: DiagKind::MalformedGrammar };
        return Err(d);
    }
    let req = SeqRequest { ident: var_name, ident_span: var_span, start, end, body };
    proof {
        assert(parse_seq_spec(sv) matches Ok(v) && v =~= req_view(req));
    }
    Ok(req)
}

/// The whole expansion: the rewritten copies of the body for every index
/// value from `start` (inclusive) up to `end` (exclusive), concatenated in
/// index order.
pub open spec fn expand_from(s: Seq<TokV>, ident: Seq<char>, n: u64, end: u64) -> Seq<TokV>
    decreases end - n,
{
    if n >= end {
        seq![]
    } else {
        rewrite_spec(s, ident, n) + expand_from(s, ident, (n + 1) as u64, end)
    }
}

/// Expands a parsed request: one rewritten copy of the body per index value.
pub fn expand(req: &SeqRequest) -> (r: Vec<TokenTree>)
    ensures
        stream_view(r@) == expand_from(stream_view(req.body@), req.ident@, req.start, req.end),
{
    let ghost sv = stream_view(req.body@);
    let mut out: Vec<TokenTree> = Vec::new();
    let mut k: u64 = req.start;
    proof {
        assert(stream_view(out@) =~= Seq::<TokV>::empty());
        assert(stream_view(out@) + expand_from(sv, req.ident@, k, req.end) =~= expand_from(
            sv,
            req.ident@,
            req.start,
            req.end,
        ));
    }
    while k < req.end
        invariant
            stream_view(out@) + expand_from(sv, req.ident@, k, req.end) == expand_from(
                sv,
                req.ident@,
                req.start,
                req.end,
            ),
            sv == stream_view(req.body@),
        decreases req.end - k,
    {
        let mut one = replace_tokens(&req.body, &req.ident, k);
        proof {
            crate::token::lemma_stream_view_concat(out@, one@);
        }
        out.append(&mut one);
        k = k + 1;
        proof {
            assert(stream_view(out@) + expand_from(sv, req.ident@, k, req.end) =~= expand_from(
                sv,
                req.ident@,
                req.start,
                req.end,
            ));
        }
    }
    proof {
        assert(expand_from(sv, req.ident@, k, req.end) =~= Seq::<TokV>::empty());
        assert(stream_view(out@) =~= expand_from(sv, req.ident@, req.start, req.end));
    }
    out
}

/// The expander's whole work: parse the request, then emit the rewritten
/// copies; a malformed request is reported at the offending token instead.
pub fn seq_expand(toks: &Vec<TokenTree>) -> (r: Result<Vec<TokenTree>, Diagnostic>)
    ensures
        match r {
            Ok(out) => parse_seq_spec(stream_view(toks@)) matches Ok(req) && stream_view(out@)
                == expand_from(req.body, req.ident, req.start, req.end),
            Err(d) => parse_seq_spec(stream_view(toks@)) matches Err(sp) && diag_view(d) == (
            DiagV { span: sp, kind: DiagKindV::MalformedGrammar }),
        },
{
    match parse_seq_input(toks) {
        Ok(req) => Ok(expand(&req)),
        Err(d) => Err(d),
    }
}

/// The expansion makes exactly `end - start` copies: it is the concatenation,
/// in index order, of one rewritten copy of the body per index value; for
/// `start == end` it is empty.
pub proof fn lemma_expand_copies(s: Seq<TokV>, ident: Seq<char>, start: u64, end: u64)
    requires
        start <= end,
    ensures
        expand_from(s, ident, start, end) == Seq::new(
            (end - start) as nat,
            |k: int| rewrite_spec(s, ident, (start + k) as u64),
        ).flatten(),
        start == end ==> expand_from(s, ident, start, end) == Seq::<TokV>::empty(),
    decreases end - start,
{
    let copies = Seq::new((end - start) as nat, |k: int| rewrite_spec(s, ident, (start + k) as u64));
    if start == end {
        assert(copies.flatten() =~= Seq::<TokV>::empty());
        assert(expand_from(s, ident, start, end) =~= Seq::<TokV>::empty());
    } else {
        lemma_expand_copies(s, ident, (start + 1) as u64, end);
        let tail = Seq::new(
            (end - (start + 1)) as nat,
            |k: int| rewrite_spec(s, ident, ((start + 1) as u64 + k) as u64),
        );
        assert(copies.drop_first() =~= tail);
        assert(copies.flatten() == copies.first() + copies.drop_first().flatten());
        assert(copies[0] == rewrite_spec(s, ident, start));
        assert(expand_from(s, ident, start, end) == copies.flatten());
    }
}

/// Token paste: `prefix # i`, with `i` the loop variable, becomes the one
/// identifier `prefix` followed by the digits of the current index, bearing
/// the prefix's span.
pub proof fn lemma_token_paste(
    prefix: Seq<char>,
    psp: u32,
    j: bool,
    hsp: u32,
    isp: u32,
    ident: Seq<char>,
    n: u64,
)
    requires
        prefix + dec_digits(n as nat) != ident,
    ensures
        rewrite_spec(
            seq![
                TokV::Ident(prefix, psp),
                TokV::Punct('#', j, hsp),
                TokV::Ident(ident, isp),
            ],
            ident,
            n,
        ) == seq![TokV::Ident(prefix + dec_digits(n as nat), psp)],
{
    let s0 = seq![TokV::Ident(prefix, psp), TokV::Punct('#', j, hsp), TokV::Ident(ident, isp)];
    let s1 = s0.drop_first();
    let s2 = s1.drop_first();
    let s3 = s2.drop_first();
    assert(s1 =~= seq![TokV::Punct('#', j, hsp), TokV::Ident(ident, isp)]);
    assert(s2 =~= seq![TokV::Ident(ident, isp)]);
    assert(s3 =~= Seq::<TokV>::empty());
    assert(rewrite_from(ScanV::Waiting, s0, ident, n) == rewrite_from(
        ScanV::SawIdent(prefix, psp),
        s1,
        ident,
        n,
    ));
    assert(rewrite_from(ScanV::SawIdent(prefix, psp), s1, ident, n) == rewrite_from(
        ScanV::SawHash(prefix, psp, j, hsp),
        s2,
        ident,
        n,
    ));
    assert(rewrite_from(ScanV::SawHash(prefix, psp, j, hsp), s2, ident, n) == seq![
        subst_ident(prefix + dec_digits(n as nat), psp, ident, n),
    ] + rewrite_from(ScanV::Waiting, s3, ident, n));
    assert(rewrite_spec(s0, ident, n) =~= seq![TokV::Ident(prefix + dec_digits(n as nat), psp)]);
}

/// A bare occurrence of the loop variable, not adjacent to `#`, becomes the
/// plain integer literal of the current index, keeping the identifier's span.
pub proof fn lemma_bare_substitution(ident: Seq<char>, sp: u32, n: u64)
    ensures
        rewrite_spec(seq![TokV::Ident(ident, sp)], ident, n) == seq![
            TokV::Literal(LitV::Int(n), sp),
        ],
{
    let s0 = seq![TokV::Ident(ident, sp)];
    let s1 = s0.drop_first();
    assert(s1 =~= Seq::<TokV>::empty());
    assert(rewrite_from(ScanV::Waiting, s0, ident, n) == rewrite_from(
        ScanV::SawIdent(ident, sp),
        s1,
        ident,
        n,
    ));
    assert(rewrite_spec(s0, ident, n) =~= seq![TokV::Literal(LitV::Int(n), sp)]);
}

} // verus!
