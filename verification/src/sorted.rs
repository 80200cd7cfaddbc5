use vstd::prelude::*;

use crate::diag::{diag_view, DiagKind, DiagKindV, DiagV, Diagnostic};
use crate::name::{copy_chars, lex_lt, name_lt};

verus! {

/// One enum variant: its name and the span of the name.
#[derive(Debug, PartialEq)]
pub struct Variant {
    pub name: Vec<char>,
    pub span: u32,
}

/// The mathematical value of a variant.
#[verifier::ext_equal]
pub struct VariantV {
    pub name: Seq<char>,
    pub span: u32,
}

pub open spec fn variant_view(v: Variant) -> VariantV {
    VariantV { name: v.name@, span: v.span }
}

pub open spec fn variants_view(s: Seq<Variant>) -> Seq<VariantV> {
    Seq::new(s.len(), |i: int| variant_view(s[i]))
}

/// An enum definition: its name, the span of the name, and its variants in
/// declaration order.
#[derive(Debug, PartialEq)]
pub struct EnumDef {
    pub name: Vec<char>,
    pub span: u32,
    pub variants: Vec<Variant>,
}

/// The mathematical value of an enum definition.
#[verifier::ext_equal]
pub struct EnumDefV {
    pub name: Seq<char>,
    pub span: u32,
    pub variants: Seq<VariantV>,
}

pub open spec fn enum_view(e: EnumDef) -> EnumDefV {
    EnumDefV { name: e.name@, span: e.span, variants: variants_view(e.variants@) }
}

/// The item the checking annotation sits on: an enum, or anything else.
#[derive(Debug, PartialEq)]
pub enum Item {
    EnumItem(EnumDef),
    OtherItem,
}

/// The mathematical value of the annotated item.
#[verifier::ext_equal]
pub enum ItemV {
    EnumItem(EnumDefV),
    OtherItem,
}

pub open spec fn item_view(i: Item) -> ItemV {
    match i {
        Item::EnumItem(e) => ItemV::EnumItem(enum_view(e)),
        Item::OtherItem => ItemV::OtherItem,
    }
}

/// The position of the first variant, from `i` on, that sorts strictly
/// before its immediate predecessor.
pub open spec fn first_violation_from(vs: Seq<VariantV>, i: int) -> Option<int>
    decreases vs.len() - i,
{
    if i < 1 || i >= vs.len() {
        None
    } else if lex_lt(vs[i].name, vs[i - 1].name) {
        Some(i)
    } else {
        first_violation_from(vs, i + 1)
    }
}

/// The earliest position in `[k, second)` whose variant the offending name
/// sorts before: where the offender ought to stand instead.
pub open spec fn first_greater_from(vs: Seq<VariantV>, off: Seq<char>, k: int, second: int) -> int
    decreases second - k,
{
    if k < 0 || k >= second {
        second
    } else if lex_lt(off, vs[k].name) {
        k
    } else {
        first_greater_from(vs, off, k + 1, second)
    }
}

/// What the sorted-enum check finds: nothing when every variant sorts at or
/// after its predecessor; otherwise one report, for the first out-of-order
/// variant only, naming the earliest variant it should sort before, anchored
/// at the offending variant's name.
pub open spec fn enum_check_spec(vs: Seq<VariantV>) -> Option<DiagV> {
    match first_violation_from(vs, 1) {
        Option::None => Option::None,
        Option::Some(second) => {
            let first = first_greater_from(vs, vs[second].name, 0, second);
            Some(
                DiagV {
                    span: vs[second].span,
                    kind: DiagKindV::OutOfOrder {
                        offender: vs[second].name,
                        before: vs[first].name,
                    },
                },
            )
        },
    }
}

/// The check passes exactly when adjacent variants never descend.
pub proof fn lemma_enum_check_none(vs: Seq<VariantV>)
    ensures
        enum_check_spec(vs) is None <==> (forall|i: int|
            1 <= i < vs.len() ==> !lex_lt(#[trigger] vs[i].name, vs[i - 1].name)),
{
    lemma_first_violation(vs, 1);
}

proof fn lemma_first_violation(vs: Seq<VariantV>, i: int)
    requires
        1 <= i,
    ensures
        first_violation_from(vs, i) is None <==> (forall|j: int|
            i <= j < vs.len() ==> !lex_lt(#[trigger] vs[j].name, vs[j - 1].name)),
    decreases vs.len() - i,
{
    if i < vs.len() {
        lemma_first_violation(vs, i + 1);
    }
}

/// A fresh copy of an enum definition, equal to the original in value.
pub fn clone_enum(e: &EnumDef) -> (r: EnumDef)
    ensures
        enum_view(r) == enum_view(*e),
{
    let mut vars: Vec<Variant> = Vec::new();
    let mut i: usize = 0;
    while i < e.variants.len()
        invariant
            i <= e.variants.len(),
            vars@.len() == i,
            forall|j: int| 0 <= j < i ==> variant_view(vars@[j]) == variant_view(e.variants@[j]),
        decreases e.variants.len() - i,
    {
        let v = Variant { name: copy_chars(&e.variants[i].name), span: e.variants[i].span };
        vars.push(v);
        i += 1;
    }
    let r = EnumDef { name: copy_chars(&e.name), span: e.span, variants: vars };
    proof {
        assert(enum_view(r) =~= enum_view(*e));
    }
    r
}

/// The sorted-enum checker: verifies the variants of an enum definition are
/// in ascending lexicographic order. An enum in order is re-emitted
/// unchanged — the check is read-only, so the round trip is exact. The first
/// out-of-order variant earns the one diagnostic; an item that is not an
/// enum earns a wrong-shape diagnostic at `call_span`, the caller's own
/// position.
#[verifier::loop_isolation(false)]
pub fn sorted_impl(item: &Item, call_span: u32) -> (r: Result<EnumDef, Diagnostic>)
    ensures
        match r {
            Ok(e) => item_view(*item) matches ItemV::EnumItem(ev) && enum_check_spec(ev.variants)
                is None && enum_view(e) == ev,
            Err(d) => match item_view(*item) {
                ItemV::EnumItem(ev) => enum_check_spec(ev.variants) == Some(diag_view(d)),
                ItemV::OtherItem => diag_view(d) == (DiagV {
                    span: call_span,
                    kind: DiagKindV::WrongItemShape,
                }),
            },
        },
{
    let e = match item {
        Item::EnumItem(e) => e,
        Item::OtherItem => {
            return Err(Diagnostic { span: call_span, kind: DiagKind::WrongItemShape });
        },
    };
    let ghost vsv = variants_view(e.variants@);
    let vs = &e.variants;
    let mut second: usize = 1;
    while second < vs.len()
        invariant
            1 <= second,
            vsv == variants_view(e.variants@),
            vs == &e.variants,
            first_violation_from(vsv, 1) == first_violation_from(vsv, second as int),
        decreases vs.len() - second,
    {
        if name_lt(&vs[second].name, &vs[second - 1].name) {
            let off = &vs[second].name;
            let mut first: usize = 0;
            while first < second && !name_lt(off, &vs[first].name)
                invariant
                    0 <= first <= second,
                    second < vs.len(),
                    vsv == variants_view(e.variants@),
                    vs == &e.variants,
                    off == &e.variants@[second as int].name,
                    first_greater_from(vsv, vsv[second as int].name, 0, second as int)
                        == first_greater_from(
                        vsv,
                        vsv[second as int].name,
                        first as int,
                        second as int,
                    ),
                decreases second - first,
            {
                first += 1;
            }
            let d = Diagnostic {
                span: vs[second].span,
                kind: DiagKind::OutOfOrder {
                    offender: copy_chars(&vs[second].name),
                    before: copy_chars(&vs[first].name),
                },
            };
            proof {
                assert(first_violation_from(vsv, 1) == Some(second as int));
                assert(first_greater_from(vsv, vsv[second as int].name, 0, second as int)
                    == first as int);
                assert(enum_check_spec(vsv) == Some(diag_view(d)));
            }
            return Err(d);
        }
        second += 1;
    }
    proof {
        assert(enum_check_spec(vsv) is None);
    }
    Ok(clone_enum(e))
}

} // verus!
