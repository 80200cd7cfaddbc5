use macrokit::diag::{DiagKind, Diagnostic};
use macrokit::sorted::{sorted_impl, EnumDef, Item, Variant};
use macrokit::sorted_match::{
    check_fn, check_match, name_from_pattern, path_to_string, Arm, Expr, MatchExpr, Pat, PatPath,
    SortedVisitor,
};

fn chars(s: &str) -> Vec<char> {
    s.chars().collect()
}

fn variant(name: &str, span: u32) -> Variant {
    Variant { name: chars(name), span }
}

fn enum_of(names: &[&str]) -> EnumDef {
    let mut variants = Vec::new();
    let mut sp: u32 = 10;
    for n in names {
        variants.push(variant(n, sp));
        sp += 1;
    }
    EnumDef { name: chars("E"), span: 1, variants }
}

fn path_pat(name: &str, span: u32) -> Pat {
    Pat::PathPat(PatPath { leading_colon: false, segments: vec![chars(name)], span })
}

fn arm_of(pats: Vec<Pat>) -> Arm {
    Arm { pats, body: Expr::Atom }
}

fn match_of(marked: bool, arms: Vec<Arm>, span: u32) -> Expr {
    Expr::MatchE(Box::new(MatchExpr { marked, scrutinee: Expr::Atom, arms, span }))
}

#[test]
fn enum_in_order_passes_and_reemits_unchanged() {
    let e = enum_of(&["A", "B", "C"]);
    let out = sorted_impl(&Item::EnumItem(e), 0).unwrap();
    assert_eq!(out, enum_of(&["A", "B", "C"]));
}

#[test]
fn enum_out_of_order_names_the_nearest_greater_predecessor() {
    let e = enum_of(&["A", "C", "B"]);
    let err = sorted_impl(&Item::EnumItem(e), 0).unwrap_err();
    assert_eq!(
        err,
        Diagnostic {
            span: 12,
            kind: DiagKind::OutOfOrder { offender: chars("B"), before: chars("C") },
        },
    );
}

#[test]
fn enum_report_walks_back_to_the_earliest_insertion_point() {
    let e = enum_of(&["C", "D", "A"]);
    let err = sorted_impl(&Item::EnumItem(e), 0).unwrap_err();
    assert_eq!(
        err,
        Diagnostic {
            span: 12,
            kind: DiagKind::OutOfOrder { offender: chars("A"), before: chars("C") },
        },
    );
}

#[test]
fn enum_only_the_first_violation_is_reported() {
    let e = enum_of(&["B", "A", "D", "C"]);
    let err = sorted_impl(&Item::EnumItem(e), 0).unwrap_err();
    assert_eq!(
        err,
        Diagnostic {
            span: 11,
            kind: DiagKind::OutOfOrder { offender: chars("A"), before: chars("B") },
        },
    );
}

#[test]
fn sorted_on_a_non_enum_is_rejected_at_the_call_site() {
    let err = sorted_impl(&Item::OtherItem, 33).unwrap_err();
    assert_eq!(err, Diagnostic { span: 33, kind: DiagKind::WrongItemShape });
}

#[test]
fn match_out_of_order_reports_every_violating_pair() {
    let body = match_of(
        true,
        vec![
            arm_of(vec![path_pat("Z", 20)]),
            arm_of(vec![path_pat("A", 21)]),
            arm_of(vec![path_pat("M", 22)]),
        ],
        5,
    );
    let (stripped, diags) = check_fn(&body);
    assert_eq!(
        diags,
        vec![
            Diagnostic {
                span: 21,
                kind: DiagKind::OutOfOrder { offender: chars("A"), before: chars("Z") },
            },
            Diagnostic {
                span: 22,
                kind: DiagKind::OutOfOrder { offender: chars("M"), before: chars("Z") },
            },
        ],
    );
    let expected = match_of(
        false,
        vec![
            arm_of(vec![path_pat("Z", 20)]),
            arm_of(vec![path_pat("A", 21)]),
            arm_of(vec![path_pat("M", 22)]),
        ],
        5,
    );
    assert_eq!(stripped, expected);
}

#[test]
fn sorted_match_passes_and_only_the_marker_changes() {
    let body = match_of(
        true,
        vec![arm_of(vec![path_pat("A", 20)]), arm_of(vec![path_pat("B", 21)])],
        5,
    );
    let (stripped, diags) = check_fn(&body);
    assert_eq!(diags, vec![]);
    let expected = match_of(
        false,
        vec![arm_of(vec![path_pat("A", 20)]), arm_of(vec![path_pat("B", 21)])],
        5,
    );
    assert_eq!(stripped, expected);
}

#[test]
fn unmarked_body_round_trips_unchanged() {
    let body = Expr::Compound(vec![
        Expr::Atom,
        match_of(false, vec![arm_of(vec![path_pat("Z", 20)]), arm_of(vec![path_pat("A", 21)])], 5),
    ]);
    let (stripped, diags) = check_fn(&body);
    assert_eq!(diags, vec![]);
    let expected = Expr::Compound(vec![
        Expr::Atom,
        match_of(false, vec![arm_of(vec![path_pat("Z", 20)]), arm_of(vec![path_pat("A", 21)])], 5),
    ]);
    assert_eq!(stripped, expected);
}

#[test]
fn catch_all_in_last_position_is_accepted() {
    let body = match_of(
        true,
        vec![arm_of(vec![path_pat("A", 20)]), arm_of(vec![Pat::Wild(21)])],
        5,
    );
    let (_, diags) = check_fn(&body);
    assert_eq!(diags, vec![]);
}

#[test]
fn arm_after_a_catch_all_is_flagged_against_the_sentinel() {
    let body = match_of(
        true,
        vec![arm_of(vec![Pat::Wild(20)]), arm_of(vec![path_pat("B", 21)])],
        5,
    );
    let (_, diags) = check_fn(&body);
    assert_eq!(diags.len(), 1);
    assert_eq!(diags[0].span, 21);
    match &diags[0].kind {
        DiagKind::OutOfOrder { offender, before } => {
            assert_eq!(offender, &chars("B"));
            assert_eq!(before.len(), 65);
            assert!(before.iter().all(|c| *c == 'z'));
        },
        other => panic!("unexpected kind: {:?}", other),
    }
}

#[test]
fn unsupported_pattern_halts_that_match_only() {
    let inner_bad = match_of(
        true,
        vec![
            arm_of(vec![path_pat("Z", 20)]),
            arm_of(vec![Pat::Unsupported(21)]),
            arm_of(vec![path_pat("A", 22)]),
        ],
        5,
    );
    let inner_ok = match_of(
        true,
        vec![arm_of(vec![path_pat("Z", 30)]), arm_of(vec![path_pat("A", 31)])],
        6,
    );
    let body = Expr::Compound(vec![inner_bad, inner_ok]);
    let (_, diags) = check_fn(&body);
    assert_eq!(diags.len(), 2);
    assert_eq!(diags[0], Diagnostic { span: 21, kind: DiagKind::UnsupportedPattern });
    assert_eq!(
        diags[1],
        Diagnostic {
            span: 31,
            kind: DiagKind::OutOfOrder { offender: chars("A"), before: chars("Z") },
        },
    );
}

#[test]
fn nested_match_reports_before_the_outer_one() {
    let inner = match_of(
        true,
        vec![arm_of(vec![path_pat("Y", 40)]), arm_of(vec![path_pat("X", 41)])],
        6,
    );
    let outer = Expr::MatchE(Box::new(MatchExpr {
        marked: true,
        scrutinee: Expr::Atom,
        arms: vec![
            Arm { pats: vec![path_pat("B", 50)], body: inner },
            Arm { pats: vec![path_pat("A", 51)], body: Expr::Atom },
        ],
        span: 5,
    }));
    let (_, diags) = check_fn(&outer);
    assert_eq!(diags.len(), 2);
    assert_eq!(diags[0].span, 41);
    assert_eq!(diags[1].span, 51);
}

#[test]
fn arms_with_alternative_patterns_are_flattened_in_order() {
    let pats = vec![path_pat("C", 20), path_pat("B", 21), path_pat("A", 22)];
    let diags = check_match(&pats);
    assert_eq!(diags.len(), 3);
    assert_eq!(diags[0].span, 21);
    assert_eq!(diags[1].span, 22);
    assert_eq!(diags[2].span, 22);
}

#[test]
fn path_rendering_joins_segments_with_colons() {
    let p = PatPath {
        leading_colon: true,
        segments: vec![chars("std"), chars("io")],
        span: 3,
    };
    assert_eq!(path_to_string(&p), chars("::std::io"));
    let q = PatPath { leading_colon: false, segments: vec![], span: 3 };
    assert_eq!(path_to_string(&q), chars(""));
}

#[test]
fn wildcard_classifies_as_the_sentinel_identifier() {
    let pp = name_from_pattern(&Pat::Wild(2)).unwrap();
    assert_eq!(pp.segments.len(), 1);
    assert_eq!(pp.segments[0].len(), 65);
    assert!(pp.segments[0].iter().all(|c| *c == 'z'));
    assert_eq!(pp.span, 2);
}

#[test]
fn visitor_accumulates_findings_across_matches() {
    let m1 = match_of(
        true,
        vec![arm_of(vec![path_pat("B", 20)]), arm_of(vec![path_pat("A", 21)])],
        5,
    );
    let m2 = match_of(
        true,
        vec![arm_of(vec![path_pat("D", 30)]), arm_of(vec![path_pat("C", 31)])],
        6,
    );
    let mut v = SortedVisitor::new();
    let _ = v.visit_expr(&m1);
    let _ = v.visit_expr(&m2);
    assert_eq!(v.errors().len(), 2);
}
