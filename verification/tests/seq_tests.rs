use macrokit::diag::DiagKind;
use macrokit::seq_expand::{expand, parse_seq_input, replace_tokens, seq_expand, SeqRequest};
use macrokit::token::{Delim, Lit, TokenTree};

fn chars(s: &str) -> Vec<char> {
    s.chars().collect()
}

fn ident(s: &str, sp: u32) -> TokenTree {
    TokenTree::Ident(chars(s), sp)
}

fn punct(c: char, sp: u32) -> TokenTree {
    TokenTree::Punct(c, false, sp)
}

fn int_lit(v: u64, sp: u32) -> TokenTree {
    TokenTree::Literal(Lit::Int(v), sp)
}

fn seq_input(var: &str, start: u64, end: u64, body: Vec<TokenTree>) -> Vec<TokenTree> {
    vec![
        ident(var, 1),
        ident("in", 2),
        int_lit(start, 3),
        punct('.', 4),
        punct('.', 5),
        int_lit(end, 6),
        TokenTree::Group(Delim::Brace, body, 7),
    ]
}

#[test]
fn expansion_makes_one_copy_per_index() {
    let req = SeqRequest {
        ident: chars("n"),
        ident_span: 1,
        start: 2,
        end: 5,
        body: vec![ident("f", 8), punct('!', 9)],
    };
    let out = expand(&req);
    assert_eq!(out.len(), 6);
    assert_eq!(out[0], ident("f", 8));
    assert_eq!(out[1], punct('!', 9));
    assert_eq!(out[4], ident("f", 8));
}

#[test]
fn empty_range_expands_to_nothing() {
    let req = SeqRequest {
        ident: chars("n"),
        ident_span: 1,
        start: 4,
        end: 4,
        body: vec![ident("f", 8)],
    };
    assert_eq!(expand(&req).len(), 0);
}

#[test]
fn bare_variable_becomes_the_integer_literal() {
    let body = vec![ident("n", 8)];
    let out = replace_tokens(&body, &chars("n"), 3);
    assert_eq!(out, vec![int_lit(3, 8)]);
}

#[test]
fn paste_fuses_prefix_and_index() {
    let body = vec![ident("f", 8), punct('#', 9), ident("n", 10)];
    let req = SeqRequest { ident: chars("n"), ident_span: 1, start: 0, end: 2, body };
    let out = expand(&req);
    assert_eq!(out, vec![ident("f0", 8), ident("f1", 8)]);
}

#[test]
fn paste_renders_multi_digit_indexes() {
    let body = vec![ident("f", 8), punct('#', 9), ident("n", 10)];
    let out = replace_tokens(&body, &chars("n"), 12);
    assert_eq!(out, vec![ident("f12", 8)]);
}

#[test]
fn near_miss_paste_is_flushed_unchanged() {
    let body = vec![ident("f", 8), punct('#', 9), ident("g", 10)];
    let out = replace_tokens(&body, &chars("n"), 0);
    assert_eq!(out, vec![ident("f", 8), TokenTree::Punct('#', false, 9), ident("g", 10)]);
}

#[test]
fn nested_groups_keep_delimiter_and_span() {
    let body = vec![TokenTree::Group(Delim::Bracket, vec![ident("n", 8)], 9)];
    let out = replace_tokens(&body, &chars("n"), 7);
    assert_eq!(out, vec![TokenTree::Group(Delim::Bracket, vec![int_lit(7, 8)], 9)]);
}

#[test]
fn substitution_applies_at_every_nesting_depth() {
    let inner = TokenTree::Group(Delim::Paren, vec![ident("f", 1), punct('#', 2), ident("n", 3)], 4);
    let body = vec![TokenTree::Group(Delim::Brace, vec![inner, ident("n", 5)], 6)];
    let out = replace_tokens(&body, &chars("n"), 2);
    assert_eq!(
        out,
        vec![TokenTree::Group(
            Delim::Brace,
            vec![TokenTree::Group(Delim::Paren, vec![ident("f2", 1)], 4), int_lit(2, 5)],
            6,
        )],
    );
}

#[test]
fn parse_reads_the_request() {
    let toks = seq_input("n", 1, 4, vec![ident("x", 8)]);
    let req = parse_seq_input(&toks).unwrap();
    assert_eq!(req.ident, chars("n"));
    assert_eq!(req.ident_span, 1);
    assert_eq!(req.start, 1);
    assert_eq!(req.end, 4);
    assert_eq!(req.body, vec![ident("x", 8)]);
}

#[test]
fn parse_rejects_a_missing_in_keyword() {
    let mut toks = seq_input("n", 1, 4, vec![]);
    toks[1] = ident("of", 2);
    let err = parse_seq_input(&toks).unwrap_err();
    assert_eq!(err.kind, DiagKind::MalformedGrammar);
    assert_eq!(err.span, 2);
}

#[test]
fn parse_rejects_a_missing_dot() {
    let mut toks = seq_input("n", 1, 4, vec![]);
    toks[4] = punct(',', 5);
    let err = parse_seq_input(&toks).unwrap_err();
    assert_eq!(err.kind, DiagKind::MalformedGrammar);
    assert_eq!(err.span, 5);
}

#[test]
fn parse_rejects_parentheses_for_the_body() {
    let mut toks = seq_input("n", 1, 4, vec![]);
    toks[6] = TokenTree::Group(Delim::Paren, vec![], 7);
    let err = parse_seq_input(&toks).unwrap_err();
    assert_eq!(err.kind, DiagKind::MalformedGrammar);
    assert_eq!(err.span, 7);
}

#[test]
fn parse_rejects_trailing_tokens() {
    let mut toks = seq_input("n", 1, 4, vec![]);
    toks.push(ident("extra", 11));
    let err = parse_seq_input(&toks).unwrap_err();
    assert_eq!(err.kind, DiagKind::MalformedGrammar);
    assert_eq!(err.span, 11);
}

#[test]
fn parse_rejects_a_truncated_request() {
    let toks = vec![ident("n", 1), ident("in", 2)];
    let err = parse_seq_input(&toks).unwrap_err();
    assert_eq!(err.kind, DiagKind::MalformedGrammar);
    assert_eq!(err.span, 2);
}

#[test]
fn whole_expansion_end_to_end() {
    let body = vec![ident("a", 8), punct('#', 9), ident("n", 10), punct(';', 11)];
    let toks = seq_input("n", 1, 3, body);
    let out = seq_expand(&toks).unwrap();
    assert_eq!(
        out,
        vec![ident("a1", 8), punct(';', 11), ident("a2", 8), punct(';', 11)],
    );
}
