use vstd::prelude::*;

use crate::diag::{diag_view, diags_view, DiagKind, DiagKindV, DiagV, Diagnostic};
use crate::name::{copy_chars, lex_lt, name_lt, names_view};

verus! {

/// A path appearing in a match-arm pattern: optional leading colons, the
/// segment names, and the span of the path.
#[derive(Debug, PartialEq)]
pub struct PatPath {
    pub leading_colon: bool,
    pub segments: Vec<Vec<char>>,
    pub span: u32,
}

/// The mathematical value of a pattern path.
#[verifier::ext_equal]
pub struct PatPathV {
    pub leading_colon: bool,
    pub segments: Seq<Seq<char>>,
    pub span: u32,
}

pub open spec fn path_view(p: PatPath) -> PatPathV {
    PatPathV { leading_colon: p.leading_colon, segments: names_view(p.segments@), span: p.span }
}

/// One arm pattern, as far as the checker classifies it: a plain binding, a
/// structure pattern, a tuple-structure pattern, a path, the catch-all, or
/// any other shape, which the checker cannot classify.
#[derive(Debug, PartialEq)]
pub enum Pat {
    Ident(Vec<char>, u32),
    Struct(PatPath),
    TupleStruct(PatPath),
    PathPat(PatPath),
    Wild(u32),
    Unsupported(u32),
}

/// The mathematical value of a pattern.
#[verifier::ext_equal]
pub enum PatV {
    Ident(Seq<char>, u32),
    Struct(PatPathV),
    TupleStruct(PatPathV),
    PathPat(PatPathV),
    Wild(u32),
    Unsupported(u32),
}

pub open spec fn pat_view(p: Pat) -> PatV {
    match p {
        Pat::Ident(nm, sp) => PatV::Ident(nm@, sp),
        Pat::Struct(pp) => PatV::Struct(path_view(pp)),
        Pat::TupleStruct(pp) => PatV::TupleStruct(path_view(pp)),
        Pat::PathPat(pp) => PatV::PathPat(path_view(pp)),
        Pat::Wild(sp) => PatV::Wild(sp),
        Pat::Unsupported(sp) => PatV::Unsupported(sp),
    }
}

pub open spec fn pats_view(s: Seq<Pat>) -> Seq<PatV> {
    Seq::new(s.len(), |i: int| pat_view(s[i]))
}

/// The span a pattern carries.
pub open spec fn pat_span(p: PatV) -> u32 {
    match p {
        PatV::Ident(_, sp) => sp,
        PatV::Struct(pp) => pp.span,
        PatV::TupleStruct(pp) => pp.span,
        PatV::PathPat(pp) => pp.span,
        PatV::Wild(sp) => sp,
        PatV::Unsupported(sp) => sp,
    }
}

/// The sentinel name the catch-all pattern sorts under: a run of the last
/// lower-case letter long enough to sort after every ordinary identifier, so
/// a catch-all arm is accepted in last position and a concrete arm written
/// after it is reported against the sentinel.
pub open spec fn sentinel() -> Seq<char> {
    Seq::new(65, |i: int| 'z')
}

fn sentinel_name() -> (r: Vec<char>)
    ensures
        r@ == sentinel(),
{
    let mut r: Vec<char> = Vec::new();
    let mut i: usize = 0;
    while i < 65
        invariant
            i <= 65,
            r@.len() == i,
            forall|j: int| 0 <= j < i ==> r@[j] == 'z',
        decreases 65 - i,
    {
        r.push('z');
        i += 1;
    }
    proof {
        assert(r@ =~= sentinel());
    }
    r
}

/// The representative path of a pattern: a binding's own name, the path of a
/// structure, tuple-structure or path pattern, the sentinel for the
/// catch-all, and nothing for an unsupported shape.
pub open spec fn pattern_path(p: PatV) -> Option<PatPathV> {
    match p {
        PatV::Ident(nm, sp) => Some(PatPathV { leading_colon: false, segments: seq![nm], span: sp }),
        PatV::Struct(pp) => Some(pp),
        PatV::TupleStruct(pp) => Some(pp),
        PatV::PathPat(pp) => Some(pp),
        PatV::Wild(sp) => Some(
            PatPathV { leading_colon: false, segments: seq![sentinel()], span: sp },
        ),
        PatV::Unsupported(_) => None,
    }
}

fn clone_path(p: &PatPath) -> (r: PatPath)
    ensures
        path_view(r) == path_view(*p),
{
    let mut segs: Vec<Vec<char>> = Vec::new();
    let mut i: usize = 0;
    while i < p.segments.len()
        invariant
            i <= p.segments.len(),
            segs@.len() == i,
            forall|j: int| 0 <= j < i ==> segs@[j]@ == p.segments@[j]@,
        decreases p.segments.len() - i,
    {
        segs.push(copy_chars(&p.segments[i]));
        i += 1;
    }
    let r = PatPath { leading_colon: p.leading_colon, segments: segs, span: p.span };
    proof {
        assert(path_view(r) =~= path_view(*p));
    }
    r
}

/// A fresh copy of a pattern, equal to the original in value.
pub fn clone_pat(p: &Pat) -> (r: Pat)
    ensures
        pat_view(r) == pat_view(*p),
{
    match p {
        Pat::Ident(nm, sp) => Pat::Ident(copy_chars(nm), *sp),
        Pat::Struct(pp) => Pat::Struct(clone_path(pp)),
        Pat::TupleStruct(pp) => Pat::TupleStruct(clone_path(pp)),
        Pat::PathPat(pp) => Pat::PathPat(clone_path(pp)),
        Pat::Wild(sp) => Pat::Wild(*sp),
        Pat::Unsupported(sp) => Pat::Unsupported(*sp),
    }
}

/// The classification of one pattern, handed out as a fresh path.
pub fn name_from_pattern(p: &Pat) -> (r: Option<PatPath>)
    ensures
        match r {
            Some(pp) => pattern_path(pat_view(*p)) == Some(path_view(pp)),
            None => pattern_path(pat_view(*p)) is None,
        },
{
    match p {
        Pat::Ident(nm, sp) => {
            let mut segs: Vec<Vec<char>> = Vec::new();
            segs.push(copy_chars(nm));
            let pp = PatPath { leading_colon: false, segments: segs, span: *sp };
            proof {
                assert(path_view(pp) =~= PatPathV {
                    leading_colon: false,
                    segments: seq![nm@],
                    span: *sp,
                });
            }
            Some(pp)
        },
        Pat::Struct(pp) => Some(clone_path(pp)),
        Pat::TupleStruct(pp) => Some(clone_path(pp)),
        Pat::PathPat(pp) => Some(clone_path(pp)),
        Pat::Wild(sp) => {
            let mut segs: Vec<Vec<char>> = Vec::new();
            segs.push(sentinel_name());
            let pp = PatPath { leading_colon: false, segments: segs, span: *sp };
            proof {
                assert(path_view(pp) =~= PatPathV {
                    leading_colon: false,
                    segments: seq![sentinel()],
                    span: *sp,
                });
            }
            Some(pp)
        },
        Pat::Unsupported(_) => None,
    }
}

/// The `::`-joined rendering of the segments from position `k` on.
pub open spec fn join_from(s: Seq<Seq<char>>, k: int) -> Seq<char>
    decreases s.len() - k,
{
    if k < 0 || k >= s.len() {
        Seq::empty()
    } else if k == s.len() - 1 {
        s[k]
    } else {
        s[k] + "::"@ + join_from(s, k + 1)
    }
}

/// The sort key of a path: its segments joined by `::`, with the leading
/// `::` kept when the path has one; a path of no segments renders empty.
pub open spec fn path_key(p: PatPathV) -> Seq<char> {
    if p.segments.len() == 0 {
        Seq::empty()
    } else if p.leading_colon {
        "::"@ + join_from(p.segments, 0)
    } else {
        join_from(p.segments, 0)
    }
}

fn colon_colon() -> (r: Vec<char>)
    ensures
        r@ == "::"@,
{
    let mut r: Vec<char> = Vec::new();
    r.push(':');
    r.push(':');
    proof {
        reveal_strlit("::");
        assert(r@ =~= "::"@);
    }
    r
}

fn join_exec(segs: &Vec<Vec<char>>, k: usize) -> (r: Vec<char>)
    requires
        k < segs.len(),
    ensures
        r@ == join_from(names_view(segs@), k as int),
    decreases segs.len() - k,
{
    if k == segs.len() - 1 {
        let r = copy_chars(&segs[k]);
        proof {
            assert(r@ =~= join_from(names_view(segs@), k as int));
        }
        r
    } else {
        let mut r = copy_chars(&segs[k]);
        let mut sep = colon_colon();
        r.append(&mut sep);
        let mut rest = join_exec(segs, k + 1);
        r.append(&mut rest);
        proof {
            assert(r@ =~= join_from(names_view(segs@), k as int));
        }
        r
    }
}

/// Renders a pattern path as its sort key.
pub fn path_to_string(p: &PatPath) -> (r: Vec<char>)
    ensures
        r@ == path_key(path_view(*p)),
{
    if p.segments.len() == 0 {
        let r: Vec<char> = Vec::new();
        proof {
            assert(r@ =~= path_key(path_view(*p)));
        }
        return r;
    }
    if p.leading_colon {
        let mut r = colon_colon();
        let mut rest = join_exec(&p.segments, 0);
        r.append(&mut rest);
        proof {
            assert(r@ =~= path_key(path_view(*p)));
        }
        r
    } else {
        join_exec(&p.segments, 0)
    }
}

/// The sort key of the pattern at position `i` (meaningful where the pattern
/// is supported).
pub open spec fn key_at(ps: Seq<PatV>, i: int) -> Seq<char> {
    match pattern_path(ps[i]) {
        Option::Some(pp) => path_key(pp),
        Option::None => Seq::empty(),
    }
}

/// The span of the representative path at position `i`.
pub open spec fn path_span_at(ps: Seq<PatV>, i: int) -> u32 {
    match pattern_path(ps[i]) {
        Option::Some(pp) => pp.span,
        Option::None => 0,
    }
}

/// The first unclassifiable pattern at or after position `k`.
pub open spec fn first_unsupported_from(ps: Seq<PatV>, k: int) -> Option<int>
    decreases ps.len() - k,
{
    if k < 0 || k >= ps.len() {
        None
    } else if pattern_path(ps[k]) is None {
        Some(k)
    } else {
        first_unsupported_from(ps, k + 1)
    }
}

proof fn lemma_all_supported(ps: Seq<PatV>, k: int)
    requires
        0 <= k,
        first_unsupported_from(ps, k) is None,
    ensures
        forall|j: int| k <= j < ps.len() ==> pattern_path(#[trigger] ps[j]) is Some,
    decreases ps.len() - k,
{
    if 0 <= k < ps.len() {
        lemma_all_supported(ps, k + 1);
    }
}

/// The out-of-order reports of pattern `second` against the earlier patterns
/// from position `first` on: one per earlier pattern whose key the later
/// pattern's key sorts strictly before, anchored at the later pattern's path.
pub open spec fn pair_row(ps: Seq<PatV>, second: int, first: int) -> Seq<DiagV>
    decreases second - first,
{
    if first < 0 || first >= second {
        seq![]
    } else {
        (if lex_lt(key_at(ps, second), key_at(ps, first)) {
            seq![
                DiagV {
                    span: path_span_at(ps, second),
                    kind: DiagKindV::OutOfOrder {
                        offender: key_at(ps, second),
                        before: key_at(ps, first),
                    },
                },
            ]
        } else {
            seq![]
        }) + pair_row(ps, second, first + 1)
    }
}

/// The all-pairs check from position `second` on: every pattern is compared
/// against every earlier one, not only its neighbour, and every violating
/// pair is reported.
pub open spec fn pair_diags_from(ps: Seq<PatV>, second: int) -> Seq<DiagV>
    decreases ps.len() - second,
{
    if second < 0 || second >= ps.len() {
        seq![]
    } else {
        pair_row(ps, second, 0) + pair_diags_from(ps, second + 1)
    }
}

/// The findings for the flattened patterns of one marked match: one
/// unsupported-shape report at the first unclassifiable pattern, which stops
/// that match's checking; otherwise one report per out-of-order pair.
pub open spec fn match_diags_pats(ps: Seq<PatV>) -> Seq<DiagV> {
    match first_unsupported_from(ps, 0) {
        Option::Some(k) => seq![DiagV { span: pat_span(ps[k]), kind: DiagKindV::UnsupportedPattern }],
        Option::None => pair_diags_from(ps, 0),
    }
}

/// The order check for one marked match expression, over its arms' patterns
/// flattened in arm order.
#[verifier::loop_isolation(false)]
pub fn check_match(pats: &Vec<Pat>) -> (r: Vec<Diagnostic>)
    ensures
        diags_view(r@) == match_diags_pats(pats_view(pats@)),
{
    let ghost psv = pats_view(pats@);
    let mut keys: Vec<Vec<char>> = Vec::new();
    let mut spans: Vec<u32> = Vec::new();
    let mut i: usize = 0;
    while i < pats.len()
        invariant
            i <= pats.len(),
            first_unsupported_from(psv, 0) == first_unsupported_from(psv, i as int),
            keys@.len() == i,
            spans@.len() == i,
            forall|j: int| 0 <= j < i ==> keys@[j]@ == key_at(psv, j),
            forall|j: int| 0 <= j < i ==> spans@[j] == path_span_at(psv, j),
        decreases pats.len() - i,
    {
        match name_from_pattern(&pats[i]) {
            Some(pp) => {
                spans.push(pp.span);
                let key = path_to_string(&pp);
                keys.push(key);
            },
            None => {
                let mut r: Vec<Diagnostic> = Vec::new();
                let sp = match &pats[i] {
                    Pat::Unsupported(sp) => *sp,
                    _ => 0,
                };
                proof {
                    assert(pat_view(pats@[i as int]) is Unsupported);
                    assert(sp == pat_span(psv[i as int]));
                    assert(first_unsupported_from(psv, 0) == Some(i as int));
                }
                r.push(Diagnostic { span: sp, kind: DiagKind::UnsupportedPattern });
                proof {
                    assert(diags_view(r@) =~= match_diags_pats(psv));
                }
                return r;
            },
        }
        i += 1;
    }
    proof {
        assert(first_unsupported_from(psv, 0) is None);
        lemma_all_supported(psv, 0);
    }
    let mut out: Vec<Diagnostic> = Vec::new();
    let mut second: usize = 0;
    proof {
        assert(diags_view(out@) =~= Seq::<DiagV>::empty());
        assert(diags_view(out@) + pair_diags_from(psv, 0) =~= pair_diags_from(psv, 0));
    }
    while second < pats.len()
        invariant
            second <= pats.len(),
            keys@.len() == pats.len(),
            spans@.len() == pats.len(),
            forall|j: int| 0 <= j < pats.len() ==> keys@[j]@ == key_at(psv, j),
            forall|j: int| 0 <= j < pats.len() ==> spans@[j] == path_span_at(psv, j),
            diags_view(out@) + pair_diags_from(psv, second as int) == pair_diags_from(psv, 0),
        decreases pats.len() - second,
    {
        let mut first: usize = 0;
        while first < second
            invariant
                first <= second,
                second < pats.len(),
                keys@.len() == pats.len(),
                spans@.len() == pats.len(),
                forall|j: int| 0 <= j < pats.len() ==> keys@[j]@ == key_at(psv, j),
                forall|j: int| 0 <= j < pats.len() ==> spans@[j] == path_span_at(psv, j),
                diags_view(out@) + pair_row(psv, second as int, first as int) + pair_diags_from(
                    psv,
                    second as int + 1,
                ) == pair_diags_from(psv, 0),
            decreases second - first,
        {
            if name_lt(&keys[second], &keys[first]) {
                let d = Diagnostic {
                    span: spans[second],
                    kind: DiagKind::OutOfOrder {
                        offender: copy_chars(&keys[second]),
                        before: copy_chars(&keys[first]),
                    },
                };
                let ghost out_pre = diags_view(out@);
                out.push(d);
                proof {
                    assert(diags_view(out@) =~= out_pre + seq![diag_view(d)]);
                    assert(diags_view(out@) + pair_row(psv, second as int, first as int + 1)
                        + pair_diags_from(psv, second as int + 1) =~= pair_diags_from(psv, 0));
                }
            } else {
                proof {
                    assert(diags_view(out@) + pair_row(psv, second as int, first as int + 1)
                        + pair_diags_from(psv, second as int + 1) =~= pair_diags_from(psv, 0));
                }
            }
            first += 1;
        }
        second += 1;
        proof {
            assert(diags_view(out@) + pair_diags_from(psv, second as int) =~= pair_diags_from(
                psv,
                0,
            ));
        }
    }
    proof {
        assert(diags_view(out@) =~= pair_diags_from(psv, 0));
        assert(diags_view(out@) =~= match_diags_pats(psv));
    }
    out
}

/// One match arm: its patterns (alternatives) and its body.
#[derive(Debug, PartialEq)]
pub struct Arm {
    pub pats: Vec<Pat>,
    pub body: Expr,
}

/// A match expression: whether it carries the check marker, its scrutinee,
/// its arms in order, and its span.
#[derive(Debug, PartialEq)]
pub struct MatchExpr {
    pub marked: bool,
    pub scrutinee: Expr,
    pub arms: Vec<Arm>,
    pub span: u32,
}

/// As much of an expression as the checker observes: a leaf it does not look
/// into, a compound node over subexpressions, or a match expression.
#[derive(Debug, PartialEq)]
pub enum Expr {
    Atom,
    Compound(Vec<Expr>),
    MatchE(Box<MatchExpr>),
}

/// The mathematical value of an arm.
#[verifier::ext_equal]
pub struct ArmV {
    pub pats: Seq<PatV>,
    pub body: ExprV,
}

/// The mathematical value of a match expression.
#[verifier::ext_equal]
pub struct MatchV {
    pub marked: bool,
    pub scrutinee: ExprV,
    pub arms: Seq<ArmV>,
    pub span: u32,
}

/// The mathematical value of an expression.
#[verifier::ext_equal]
pub enum ExprV {
    Atom,
    Compound(Seq<ExprV>),
    MatchE(Box<MatchV>),
}

pub open spec fn expr_view(e: Expr) -> ExprV
    decreases e,
{
    match e {
        Expr::Atom => ExprV::Atom,
        Expr::Compound(es) => ExprV::Compound(exprs_view(es@)),
        Expr::MatchE(b) => ExprV::MatchE(Box::new(match_view(*b))),
    }
}

pub open spec fn match_view(m: MatchExpr) -> MatchV
    decreases m,
{
    MatchV {
        marked: m.marked,
        scrutinee: expr_view(m.scrutinee),
        arms: arms_view(m.arms@),
        span: m.span,
    }
}

pub open spec fn arm_view(a: Arm) -> ArmV
    decreases a,
{
    ArmV { pats: pats_view(a.pats@), body: expr_view(a.body) }
}

pub open spec fn exprs_view(s: Seq<Expr>) -> Seq<ExprV>
    decreases s,
{
    if s.len() == 0 {
        Seq::empty()
    } else {
        seq![expr_view(s[0])] + exprs_view(s.drop_first())
    }
}

pub open spec fn arms_view(s: Seq<Arm>) -> Seq<ArmV>
    decreases s,
{
    if s.len() == 0 {
        Seq::empty()
    } else {
        seq![arm_view(s[0])] + arms_view(s.drop_first())
    }
}

/// `exprs_view` maps `expr_view` over the list, index by index.
pub proof fn lemma_exprs_view(s: Seq<Expr>)
    ensures
        exprs_view(s).len() == s.len(),
        forall|j: int| 0 <= j < s.len() ==> exprs_view(s)[j] == expr_view(s[j]),
    decreases s,
{
    if s.len() > 0 {
        lemma_exprs_view(s.drop_first());
    }
}

/// `arms_view` maps `arm_view` over the list, index by index.
pub proof fn lemma_arms_view(s: Seq<Arm>)
    ensures
        arms_view(s).len() == s.len(),
        forall|j: int| 0 <= j < s.len() ==> arms_view(s)[j] == arm_view(s[j]),
    decreases s,
{
    if s.len() > 0 {
        lemma_arms_view(s.drop_first());
    }
}

/// The flattened patterns of the arms, in arm order.
pub open spec fn all_pats(arms: Seq<ArmV>) -> Seq<PatV>
    decreases arms,
{
    if arms.len() == 0 {
        Seq::empty()
    } else {
        arms[0].pats + all_pats(arms.drop_first())
    }
}

/// The findings for one marked match expression.
pub open spec fn match_diags(arms: Seq<ArmV>) -> Seq<DiagV> {
    match_diags_pats(all_pats(arms))
}

/// The expression with every check marker stripped, so no marker leaks into
/// the emitted function; nothing else changes.
pub open spec fn strip_expr(e: ExprV) -> ExprV
    decreases e,
{
    match e {
        ExprV::Atom => ExprV::Atom,
        ExprV::Compound(es) => ExprV::Compound(strip_exprs(es)),
        ExprV::MatchE(b) => ExprV::MatchE(Box::new(strip_match(*b))),
    }
}

pub open spec fn strip_match(m: MatchV) -> MatchV
    decreases m,
{
    MatchV {
        marked: false,
        scrutinee: strip_expr(m.scrutinee),
        arms: strip_arms(m.arms),
        span: m.span,
    }
}

pub open spec fn strip_arm(a: ArmV) -> ArmV
    decreases a,
{
    ArmV { pats: a.pats, body: strip_expr(a.body) }
}

pub open spec fn strip_exprs(s: Seq<ExprV>) -> Seq<ExprV>
    decreases s,
{
    if s.len() == 0 {
        Seq::empty()
    } else {
        seq![strip_expr(s[0])] + strip_exprs(s.drop_first())
    }
}

pub open spec fn strip_arms(s: Seq<ArmV>) -> Seq<ArmV>
    decreases s,
{
    if s.len() == 0 {
        Seq::empty()
    } else {
        seq![strip_arm(s[0])] + strip_arms(s.drop_first())
    }
}

/// `strip_exprs` maps `strip_expr` over the list, index by index.
pub proof fn lemma_strip_exprs(s: Seq<ExprV>)
    ensures
        strip_exprs(s).len() == s.len(),
        forall|j: int| 0 <= j < s.len() ==> strip_exprs(s)[j] == strip_expr(s[j]),
    decreases s,
{
    if s.len() > 0 {
        lemma_strip_exprs(s.drop_first());
    }
}

/// `strip_arms` maps `strip_arm` over the list, index by index.
pub proof fn lemma_strip_arms(s: Seq<ArmV>)
    ensures
        strip_arms(s).len() == s.len(),
        forall|j: int| 0 <= j < s.len() ==> strip_arms(s)[j] == strip_arm(s[j]),
    decreases s,
{
    if s.len() > 0 {
        lemma_strip_arms(s.drop_first());
    }
}

/// The findings over a whole expression, match expressions visited
/// innermost-first: a match's scrutinee, then its arms in order, then the
/// match's own check where it is marked.
pub open spec fn expr_diags(e: ExprV) -> Seq<DiagV>
    decreases e,
{
    match e {
        ExprV::Atom => seq![],
        ExprV::Compound(es) => exprs_diags(es),
        ExprV::MatchE(b) => expr_diags(b.scrutinee) + arms_diags(b.arms) + (if b.marked {
            match_diags(b.arms)
        } else {
            seq![]
        }),
    }
}

pub open spec fn exprs_diags(s: Seq<ExprV>) -> Seq<DiagV>
    decreases s,
{
    if s.len() == 0 {
        Seq::empty()
    } else {
        expr_diags(s[0]) + exprs_diags(s.drop_first())
    }
}

pub open spec fn arms_diags(s: Seq<ArmV>) -> Seq<DiagV>
    decreases s,
{
    if s.len() == 0 {
        Seq::empty()
    } else {
        expr_diags(s[0].body) + arms_diags(s.drop_first())
    }
}

fn clone_pats(ps: &Vec<Pat>) -> (r: Vec<Pat>)
    ensures
        pats_view(r@) == pats_view(ps@),
{
    let mut r: Vec<Pat> = Vec::new();
    let mut i: usize = 0;
    while i < ps.len()
        invariant
            i <= ps.len(),
            r@.len() == i,
            forall|j: int| 0 <= j < i ==> pat_view(r@[j]) == pat_view(ps@[j]),
        decreases ps.len() - i,
    {
        r.push(clone_pat(&ps[i]));
        i += 1;
    }
    proof {
        assert(pats_view(r@) =~= pats_view(ps@));
    }
    r
}

/// The traversal that carries the findings: errors from unrelated match
/// expressions in one function all accumulate here, by exclusive reference,
/// so none is lost.
pub struct SortedVisitor {
    pub errs: Vec<Diagnostic>,
}

impl SortedVisitor {
    /// A fresh visitor with no findings.
    pub fn new() -> (v: SortedVisitor)
        ensures
            v.errs@.len() == 0,
    {
        SortedVisitor { errs: Vec::new() }
    }

    /// The findings collected so far, in traversal order.
    pub fn errors(&self) -> (r: &Vec<Diagnostic>)
        ensures
            r@ == self.errs@,
    {
        &self.errs
    }

    /// Walks one expression: every nested match is visited innermost-first,
    /// its marker stripped and, where it was marked, its arms checked; the
    /// stripped expression is handed back and the findings accumulate on the
    /// visitor.
    pub fn visit_expr(&mut self, e: &Expr) -> (r: Expr)
        ensures
            expr_view(r) == strip_expr(expr_view(*e)),
            diags_view(final(self).errs@) == diags_view(old(self).errs@) + expr_diags(
                expr_view(*e),
            ),
        decreases *e,
    {
        let ghost errs0 = self.errs@;
        match e {
            Expr::Atom => {
                proof {
                    assert(diags_view(self.errs@) =~= diags_view(errs0) + expr_diags(
                        expr_view(*e),
                    ));
                }
                Expr::Atom
            },
            Expr::Compound(es) => {
                let out = self.visit_exprs(es);
                Expr::Compound(out)
            },
            Expr::MatchE(b) => {
                let m: &MatchExpr = &*b;
                let ghost mv = match_view(*m);
                let s2 = self.visit_expr(&m.scrutinee);
                let new_arms = self.visit_arms(&m.arms);
                let ghost errs2 = self.errs@;
                proof {
                    assert(diags_view(errs2) =~= diags_view(errs0) + expr_diags(mv.scrutinee)
                        + arms_diags(mv.arms));
                }
                if m.marked {
                    let flat = flatten_pats(&m.arms);
                    let mut ds = check_match(&flat);
                    let ghost dsv = ds@;
                    self.errs.append(&mut ds);
                    proof {
                        crate::diag::lemma_diags_view_concat(errs2, dsv);
                        assert(diags_view(dsv) == match_diags(mv.arms));
                        assert(diags_view(self.errs@) =~= diags_view(errs0) + (expr_diags(
                            mv.scrutinee,
                        ) + arms_diags(mv.arms) + match_diags(mv.arms)));
                    }
                } else {
                    proof {
                        assert(diags_view(self.errs@) =~= diags_view(errs0) + (expr_diags(
                            mv.scrutinee,
                        ) + arms_diags(mv.arms) + Seq::<DiagV>::empty()));
                    }
                }
                let r = Expr::MatchE(
                    Box::new(
                        MatchExpr { marked: false, scrutinee: s2, arms: new_arms, span: m.span },
                    ),
                );
                proof {
                    assert(match_view(MatchExpr {
                        marked: false,
                        scrutinee: s2,
                        arms: new_arms,
                        span: m.span,
                    }) =~= strip_match(mv));
                    assert(expr_view(r) == strip_expr(expr_view(*e)));
                    assert(expr_diags(expr_view(*e)) == expr_diags(mv.scrutinee) + arms_diags(
                        mv.arms,
                    ) + (if mv.marked {
                        match_diags(mv.arms)
                    } else {
                        Seq::<DiagV>::empty()
                    }));
                }
                r
            },
        }
    }

    #[verifier::loop_isolation(false)]
    #[verifier::rlimit(30)]
    fn visit_exprs(&mut self, es: &Vec<Expr>) -> (r: Vec<Expr>)
        ensures
            exprs_view(r@) == strip_exprs(exprs_view(es@)),
            diags_view(final(self).errs@) == diags_view(old(self).errs@) + exprs_diags(
                exprs_view(es@),
            ),
        decreases *es,
    {
        let ghost errs0 = self.errs@;
        let ghost sv = exprs_view(es@);
        proof {
            lemma_exprs_view(es@);
        }
        let mut out: Vec<Expr> = Vec::new();
        let mut i: usize = 0;
        proof {
            assert(sv.skip(0) =~= sv);
        }
        while i < es.len()
            invariant
                i <= es.len(),
                sv == exprs_view(es@),
                out@.len() == i,
                forall|j: int| 0 <= j < i ==> expr_view(out@[j]) == strip_expr(sv[j]),
                diags_view(self.errs@) + exprs_diags(sv.skip(i as int)) == diags_view(errs0)
                    + exprs_diags(sv),
            decreases es.len() - i,
        {
            let y = self.visit_expr(&es[i]);
            out.push(y);
            i += 1;
            proof {
                assert(sv.skip(i - 1)[0] == sv[i - 1]);
                assert(sv.skip(i - 1).drop_first() =~= sv.skip(i as int));
                assert(exprs_diags(sv.skip(i - 1)) == expr_diags(sv[i - 1]) + exprs_diags(
                    sv.skip(i as int),
                ));
                assert(diags_view(self.errs@) + exprs_diags(sv.skip(i as int)) =~= diags_view(
                    errs0,
                ) + exprs_diags(sv));
            }
        }
        proof {
            assert(sv.skip(i as int) =~= Seq::<ExprV>::empty());
            assert(diags_view(self.errs@) =~= diags_view(errs0) + exprs_diags(sv));
            lemma_strip_exprs(sv);
            lemma_exprs_view(out@);
            assert(exprs_view(out@) =~= strip_exprs(sv));
        }
        out
    }

    #[verifier::loop_isolation(false)]
    fn visit_arms(&mut self, arms: &Vec<Arm>) -> (r: Vec<Arm>)
        ensures
            arms_view(r@) == strip_arms(arms_view(arms@)),
            diags_view(final(self).errs@) == diags_view(old(self).errs@) + arms_diags(
                arms_view(arms@),
            ),
        decreases *arms,
    {
        let ghost errs0 = self.errs@;
        let ghost av = arms_view(arms@);
        proof {
            lemma_arms_view(arms@);
        }
        let mut out: Vec<Arm> = Vec::new();
        let mut i: usize = 0;
        proof {
            assert(av.skip(0) =~= av);
        }
        while i < arms.len()
            invariant
                i <= arms.len(),
                av == arms_view(arms@),
                out@.len() == i,
                forall|j: int| 0 <= j < i ==> arm_view(out@[j]) == strip_arm(av[j]),
                diags_view(self.errs@) + arms_diags(av.skip(i as int)) == diags_view(errs0)
                    + arms_diags(av),
            decreases arms.len() - i,
        {
            let a = &arms[i];
            let pats2 = clone_pats(&a.pats);
            let body2 = self.visit_expr(&a.body);
            out.push(Arm { pats: pats2, body: body2 });
            i += 1;
            proof {
                assert(av.skip(i - 1)[0] == av[i - 1]);
                assert(av.skip(i - 1).drop_first() =~= av.skip(i as int));
                assert(arms_diags(av.skip(i - 1)) == expr_diags(av[i - 1].body) + arms_diags(
                    av.skip(i as int),
                ));
                assert(arm_view(out@[i - 1]) =~= strip_arm(av[i - 1]));
                assert(diags_view(self.errs@) + arms_diags(av.skip(i as int)) =~= diags_view(
                    errs0,
                ) + arms_diags(av));
            }
        }
        proof {
            assert(av.skip(i as int) =~= Seq::<ArmV>::empty());
            assert(diags_view(self.errs@) =~= diags_view(errs0) + arms_diags(av));
            lemma_strip_arms(av);
            lemma_arms_view(out@);
            assert(arms_view(out@) =~= strip_arms(av));
        }
        out
    }
}

/// The arms' patterns flattened in arm order, freshly copied.
#[verifier::loop_isolation(false)]
fn flatten_pats(arms: &Vec<Arm>) -> (r: Vec<Pat>)
    ensures
        pats_view(r@) == all_pats(arms_view(arms@)),
{
    let ghost av = arms_view(arms@);
    proof {
        lemma_arms_view(arms@);
    }
    let mut flat: Vec<Pat> = Vec::new();
    let mut j: usize = 0;
    proof {
        assert(av.skip(0) =~= av);
        assert(pats_view(flat@) =~= Seq::<PatV>::empty());
    }
    while j < arms.len()
        invariant
            j <= arms.len(),
            av == arms_view(arms@),
            pats_view(flat@) + all_pats(av.skip(j as int)) == all_pats(av),
        decreases arms.len() - j,
    {
        let a = &arms[j];
        let ghost flat_pre = pats_view(flat@);
        let mut t: usize = 0;
        while t < a.pats.len()
            invariant
                t <= a.pats.len(),
                j < arms.len(),
                av == arms_view(arms@),
                a == &arms@[j as int],
                pats_view(flat@) =~= flat_pre + av[j as int].pats.take(t as int),
                pats_view(flat@).len() == flat_pre.len() + t,
                flat_pre + all_pats(av.skip(j as int)) == all_pats(av),
            decreases a.pats.len() - t,
        {
            let ghost flat_old = pats_view(flat@);
            flat.push(clone_pat(&a.pats[t]));
            t += 1;
            proof {
                assert(*a == arms@[j as int]);
                assert(av[j as int] == arm_view(arms@[j as int]));
                assert(av[j as int].pats == pats_view(arms@[j as int].pats@));
                assert(pats_view(flat@) =~= flat_old.push(av[j as int].pats[t - 1]));
                assert(av[j as int].pats.take(t as int) =~= av[j as int].pats.take(t - 1).push(
                    av[j as int].pats[t - 1],
                ));
                assert(flat_old.push(av[j as int].pats[t - 1]) =~= flat_pre + av[j as int].pats.take(
                    t as int,
                ));
                assert(pats_view(flat@) =~= flat_pre + av[j as int].pats.take(t as int));
            }
        }
        j += 1;
        proof {
            assert(av[j - 1].pats.take(av[j - 1].pats.len() as int) =~= av[j - 1].pats);
            assert(av.skip(j - 1)[0] == av[j - 1]);
            assert(av.skip(j - 1).drop_first() =~= av.skip(j as int));
            assert(all_pats(av.skip(j - 1)) == av[j - 1].pats + all_pats(av.skip(j as int)));
            assert(pats_view(flat@) + all_pats(av.skip(j as int)) =~= all_pats(av));
        }
    }
    proof {
        assert(av.skip(j as int) =~= Seq::<ArmV>::empty());
        assert(pats_view(flat@) =~= all_pats(av));
    }
    flat
}

/// The sorted-match checker over one function body: hands back the body with
/// every marker stripped, and the findings of every marked match expression,
/// collected innermost-first; the function's executable semantics are left
/// unchanged.
pub fn check_fn(body: &Expr) -> (r: (Expr, Vec<Diagnostic>))
    ensures
        expr_view(r.0) == strip_expr(expr_view(*body)),
        diags_view(r.1@) == expr_diags(expr_view(*body)),
{
    let mut v = SortedVisitor::new();
    proof {
        assert(diags_view(v.errs@) =~= Seq::<DiagV>::empty());
    }
    let stripped = v.visit_expr(body);
    proof {
        assert(diags_view(v.errs@) =~= expr_diags(expr_view(*body)));
    }
    (stripped, v.errs)
}

/// Whether an expression carries no check marker anywhere.
pub open spec fn no_marks(e: ExprV) -> bool
    decreases e,
{
    match e {
        ExprV::Atom => true,
        ExprV::Compound(es) => no_marks_list(es),
        ExprV::MatchE(b) => !b.marked && no_marks(b.scrutinee) && no_marks_arms(b.arms),
    }
}

pub open spec fn no_marks_list(s: Seq<ExprV>) -> bool
    decreases s,
{
    if s.len() == 0 {
        true
    } else {
        no_marks(s[0]) && no_marks_list(s.drop_first())
    }
}

pub open spec fn no_marks_arms(s: Seq<ArmV>) -> bool
    decreases s,
{
    if s.len() == 0 {
        true
    } else {
        no_marks(s[0].body) && no_marks_arms(s.drop_first())
    }
}

/// Round trip: on a body that carries no marker, the checker's re-emission
/// is the body itself, unchanged.
pub proof fn lemma_strip_identity(e: ExprV)
    ensures
        no_marks(e) ==> strip_expr(e) == e,
    decreases e,
{
    match e {
        ExprV::Atom => {},
        ExprV::Compound(es) => {
            lemma_strip_identity_list(es);
            if no_marks(e) {
                assert(strip_expr(e) =~= e);
            }
        },
        ExprV::MatchE(b) => {
            lemma_strip_identity(b.scrutinee);
            lemma_strip_identity_arms(b.arms);
            if no_marks(e) {
                assert(strip_match(*b) =~= *b);
                assert(strip_expr(e) =~= e);
            }
        },
    }
}

proof fn lemma_strip_identity_list(s: Seq<ExprV>)
    ensures
        no_marks_list(s) ==> strip_exprs(s) == s,
    decreases s,
{
    if s.len() > 0 {
        lemma_strip_identity(s[0]);
        lemma_strip_identity_list(s.drop_first());
        if no_marks_list(s) {
            assert(strip_exprs(s) =~= seq![s[0]] + s.drop_first());
            assert(seq![s[0]] + s.drop_first() =~= s);
        }
    } else {
        assert(strip_exprs(s) =~= s);
    }
}

proof fn lemma_strip_identity_arms(s: Seq<ArmV>)
    ensures
        no_marks_arms(s) ==> strip_arms(s) == s,
    decreases s,
{
    if s.len() > 0 {
        lemma_strip_identity(s[0].body);
        lemma_strip_identity_arms(s.drop_first());
        if no_marks_arms(s) {
            assert(strip_arm(s[0]) =~= s[0]);
            assert(strip_arms(s) =~= seq![s[0]] + s.drop_first());
            assert(seq![s[0]] + s.drop_first() =~= s);
        }
    } else {
        assert(strip_arms(s) =~= s);
    }
}

} // verus!
