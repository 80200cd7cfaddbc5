use vstd::prelude::*;

use crate::diag::{diag_view, DiagKind, DiagKindV, DiagV, Diagnostic};
use crate::name::{copy_chars, name_concat, name_eq};
use crate::token::{lemma_stream_view, stream_view, LitV, TokV, TokenTree};

verus! {

/// The arguments of one path segment: none, an angle-bracketed list, or a
/// shape the generator does not look into (parenthesized arguments).
#[derive(Debug, PartialEq)]
pub enum TyArgs {
    Missing,
    Angle(Vec<TyArg>),
    Unsupported,
}

/// One angle-bracketed argument: a type, or something else (a lifetime, a
/// constant), which the generator does not look into.
#[derive(Debug, PartialEq)]
pub enum TyArg {
    TypeArg(Ty),
    NonType,
}

/// One segment of a type path: an identifier and its arguments.
#[derive(Debug, PartialEq)]
pub struct PathSeg {
    pub ident: Vec<char>,
    pub args: TyArgs,
}

/// A path type, with or without a qualified-self prefix.
#[derive(Debug, PartialEq)]
pub struct TyPath {
    pub qself: bool,
    pub segments: Vec<PathSeg>,
}

/// A declared field type: a path, or any other shape, which the generator
/// carries through without looking into it.
#[derive(Debug, PartialEq)]
pub enum Ty {
    Path(TyPath),
    Opaque(u32),
}

/// The mathematical value of a type argument list.
#[verifier::ext_equal]
pub enum TyArgsV {
    Missing,
    Angle(Seq<TyArgV>),
    Unsupported,
}

/// The mathematical value of one type argument.
#[verifier::ext_equal]
pub enum TyArgV {
    TypeArg(TyV),
    NonType,
}

/// The mathematical value of one path segment.
#[verifier::ext_equal]
pub struct PathSegV {
    pub ident: Seq<char>,
    pub args: TyArgsV,
}

/// The mathematical value of a path type.
#[verifier::ext_equal]
pub struct TyPathV {
    pub qself: bool,
    pub segments: Seq<PathSegV>,
}

/// The mathematical value of a declared type.
#[verifier::ext_equal]
pub enum TyV {
    Path(TyPathV),
    Opaque(u32),
}

pub open spec fn ty_view(t: Ty) -> TyV
    decreases t,
{
    match t {
        Ty::Path(p) => TyV::Path(TyPathV { qself: p.qself, segments: segs_view(p.segments@) }),
        Ty::Opaque(h) => TyV::Opaque(h),
    }
}

pub open spec fn seg_view(s: PathSeg) -> PathSegV
    decreases s,
{
    PathSegV { ident: s.ident@, args: args_view(s.args) }
}

pub open spec fn args_view(a: TyArgs) -> TyArgsV
    decreases a,
{
    match a {
        TyArgs::Missing => TyArgsV::Missing,
        TyArgs::Angle(v) => TyArgsV::Angle(targs_view(v@)),
        TyArgs::Unsupported => TyArgsV::Unsupported,
    }
}

pub open spec fn targ_view(a: TyArg) -> TyArgV
    decreases a,
{
    match a {
        TyArg::TypeArg(t) => TyArgV::TypeArg(ty_view(t)),
        TyArg::NonType => TyArgV::NonType,
    }
}

pub open spec fn segs_view(s: Seq<PathSeg>) -> Seq<PathSegV>
    decreases s,
{
    if s.len() == 0 {
        Seq::empty()
    } else {
        seq![seg_view(s[0])] + segs_view(s.drop_first())
    }
}

pub open spec fn targs_view(s: Seq<TyArg>) -> Seq<TyArgV>
    decreases s,
{
    if s.len() == 0 {
        Seq::empty()
    } else {
        seq![targ_view(s[0])] + targs_view(s.drop_first())
    }
}

/// `segs_view` maps `seg_view` over the segments, index by index.
pub proof fn lemma_segs_view(s: Seq<PathSeg>)
    ensures
        segs_view(s).len() == s.len(),
        forall|j: int| 0 <= j < s.len() ==> segs_view(s)[j] == seg_view(s[j]),
    decreases s,
{
    if s.len() > 0 {
        lemma_segs_view(s.drop_first());
    }
}

/// `targs_view` maps `targ_view` over the arguments, index by index.
pub proof fn lemma_targs_view(s: Seq<TyArg>)
    ensures
        targs_view(s).len() == s.len(),
        forall|j: int| 0 <= j < s.len() ==> targs_view(s)[j] == targ_view(s[j]),
    decreases s,
{
    if s.len() > 0 {
        lemma_targs_view(s.drop_first());
    }
}

/// A fresh copy of a declared type, equal to the original in value.
#[verifier::loop_isolation(false)]
pub fn clone_ty(t: &Ty) -> (r: Ty)
    ensures
        ty_view(r) == ty_view(*t),
    decreases *t,
{
    match t {
        Ty::Opaque(h) => Ty::Opaque(*h),
        Ty::Path(p) => {
            let mut segs: Vec<PathSeg> = Vec::new();
            let mut i: usize = 0;
            proof {
                lemma_segs_view(p.segments@);
            }
            while i < p.segments.len()
                invariant
                    i <= p.segments.len(),
                    segs@.len() == i,
                    forall|j: int| 0 <= j < i ==> seg_view(segs@[j]) == seg_view(p.segments@[j]),
                decreases p.segments.len() - i,
            {
                let s = clone_seg(&p.segments[i]);
                segs.push(s);
                i += 1;
            }
            proof {
                lemma_segs_view(segs@);
                assert(segs_view(segs@) =~= segs_view(p.segments@));
            }
            Ty::Path(TyPath { qself: p.qself, segments: segs })
        },
    }
}

#[verifier::loop_isolation(false)]
fn clone_seg(s: &PathSeg) -> (r: PathSeg)
    ensures
        seg_view(r) == seg_view(*s),
    decreases *s,
{
    let args = match &s.args {
        TyArgs::Missing => TyArgs::Missing,
        TyArgs::Unsupported => TyArgs::Unsupported,
        TyArgs::Angle(v) => {
            let mut out: Vec<TyArg> = Vec::new();
            let mut i: usize = 0;
            proof {
                lemma_targs_view(v@);
            }
            while i < v.len()
                invariant
                    i <= v.len(),
                    out@.len() == i,
                    forall|j: int| 0 <= j < i ==> targ_view(out@[j]) == targ_view(v@[j]),
                decreases v.len() - i,
            {
                let a = match &v[i] {
                    TyArg::NonType => TyArg::NonType,
                    TyArg::TypeArg(t) => TyArg::TypeArg(clone_ty(t)),
                };
                out.push(a);
                i += 1;
            }
            proof {
                lemma_targs_view(out@);
                assert(targs_view(out@) =~= targs_view(v@));
            }
            TyArgs::Angle(out)
        },
    };
    PathSeg { ident: copy_chars(&s.ident), args }
}

/// The single type argument of a one-segment, one-argument wrapper type named
/// `wrapper` (such as the optional type or the ordered-sequence type), if the
/// declared type has exactly that shape.
pub open spec fn simple_inner_spec(t: TyV, wrapper: Seq<char>) -> Option<TyV> {
    match t {
        TyV::Path(p) => if !p.qself && p.segments.len() == 1 && p.segments[0].ident == wrapper {
            match p.segments[0].args {
                TyArgsV::Angle(args) => if args.len() == 1 {
                    match args[0] {
                        TyArgV::TypeArg(inner) => Some(inner),
                        TyArgV::NonType => None,
                    }
                } else {
                    None
                },
                _ => None,
            }
        } else {
            None
        },
        TyV::Opaque(_) => None,
    }
}

/// Looks through a one-argument wrapper type named `wrapper`, handing back
/// the inner type if the declared type has exactly that shape.
pub fn simple_inner_type<'a>(ty: &'a Ty, wrapper: &Vec<char>) -> (r: Option<&'a Ty>)
    ensures
        match r {
            Some(inner) => simple_inner_spec(ty_view(*ty), wrapper@) == Some(ty_view(*inner)),
            None => simple_inner_spec(ty_view(*ty), wrapper@) is None,
        },
{
    let p = match ty {
        Ty::Path(p) => p,
        Ty::Opaque(_) => {
            return None;
        },
    };
    proof {
        lemma_segs_view(p.segments@);
    }
    if p.qself {
        return None;
    }
    if p.segments.len() != 1 {
        return None;
    }
    let seg = &p.segments[0];
    if !name_eq(&seg.ident, wrapper) {
        return None;
    }
    let angles = match &seg.args {
        TyArgs::Angle(v) => v,
        _ => {
            return None;
        },
    };
    proof {
        lemma_targs_view(angles@);
    }
    if angles.len() != 1 {
        return None;
    }
    match &angles[0] {
        TyArg::TypeArg(inner) => Some(inner),
        TyArg::NonType => None,
    }
}

/// Whether the declared type is the one-argument optional type.
pub open spec fn is_optional(t: TyV) -> bool {
    simple_inner_spec(t, "Option"@) is Some
}

/// Whether the declared type is the one-argument ordered-sequence type.
pub open spec fn is_sequence(t: TyV) -> bool {
    simple_inner_spec(t, "Vec"@) is Some
}

/// The name of the optional wrapper type, as characters.
pub fn option_name() -> (r: Vec<char>)
    ensures
        r@ == "Option"@,
{
    let mut r: Vec<char> = Vec::new();
    r.push('O');
    r.push('p');
    r.push('t');
    r.push('i');
    r.push('o');
    r.push('n');
    proof {
        reveal_strlit("Option");
        assert(r@ =~= "Option"@);
    }
    r
}

/// The name of the ordered-sequence type, as characters.
pub fn vec_name() -> (r: Vec<char>)
    ensures
        r@ == "Vec"@,
{
    let mut r: Vec<char> = Vec::new();
    r.push('V');
    r.push('e');
    r.push('c');
    proof {
        reveal_strlit("Vec");
        assert(r@ =~= "Vec"@);
    }
    r
}

/// Whether the declared field type is the optional wrapper.
pub fn field_is_optional(ty: &Ty) -> (r: bool)
    ensures
        r == is_optional(ty_view(*ty)),
{
    let w = option_name();
    simple_inner_type(ty, &w).is_some()
}

/// The inner type of an optional field.
pub fn optional_type<'a>(ty: &'a Ty) -> (r: &'a Ty)
    requires
        is_optional(ty_view(*ty)),
    ensures
        simple_inner_spec(ty_view(*ty), "Option"@) == Some(ty_view(*r)),
{
    let w = option_name();
    match simple_inner_type(ty, &w) {
        Some(inner) => inner,
        None => unreached(),
    }
}

/// One attribute carried by a field: its path name, its argument tokens
/// (the tokens between the parentheses), and its span.
#[derive(Debug, PartialEq)]
pub struct Attr {
    pub path: Vec<char>,
    pub args: Vec<TokenTree>,
    pub span: u32,
}

/// The mathematical value of an attribute.
#[verifier::ext_equal]
pub struct AttrV {
    pub path: Seq<char>,
    pub args: Seq<TokV>,
    pub span: u32,
}

pub open spec fn attr_view(a: Attr) -> AttrV {
    AttrV { path: a.path@, args: stream_view(a.args@), span: a.span }
}

pub open spec fn attrs_view(s: Seq<Attr>) -> Seq<AttrV> {
    Seq::new(s.len(), |i: int| attr_view(s[i]))
}

/// One named, typed field of the structure definition.
#[derive(Debug, PartialEq)]
pub struct FieldDef {
    pub name: Vec<char>,
    pub name_span: u32,
    pub ty: Ty,
    pub attrs: Vec<Attr>,
}

/// The mathematical value of a field.
#[verifier::ext_equal]
pub struct FieldV {
    pub name: Seq<char>,
    pub name_span: u32,
    pub ty: TyV,
    pub attrs: Seq<AttrV>,
}

pub open spec fn field_view(f: FieldDef) -> FieldV {
    FieldV { name: f.name@, name_span: f.name_span, ty: ty_view(f.ty), attrs: attrs_view(f.attrs@) }
}

pub open spec fn fields_view(s: Seq<FieldDef>) -> Seq<FieldV> {
    Seq::new(s.len(), |i: int| field_view(s[i]))
}

/// The fields of a structure definition: named, unnamed (a tuple structure),
/// or none (a unit structure). Only named fields are accepted.
#[derive(Debug, PartialEq)]
pub enum Fields {
    Named(Vec<FieldDef>),
    Unnamed,
    Unit,
}

/// What kind of item the annotation sits on: a structure, or anything else.
#[derive(Debug, PartialEq)]
pub enum ItemData {
    StructData(Fields),
    NonStruct,
}

/// The structure definition handed to the generator: its name, the span of
/// the name, and its data.
#[derive(Debug, PartialEq)]
pub struct DeriveItem {
    pub name: Vec<char>,
    pub span: u32,
    pub data: ItemData,
}

/// The mathematical value of the fields of an item.
#[verifier::ext_equal]
pub enum FieldsV {
    Named(Seq<FieldV>),
    Unnamed,
    Unit,
}

/// The mathematical value of an item's data.
#[verifier::ext_equal]
pub enum ItemDataV {
    StructData(FieldsV),
    NonStruct,
}

/// The mathematical value of the annotated item.
#[verifier::ext_equal]
pub struct DeriveItemV {
    pub name: Seq<char>,
    pub span: u32,
    pub data: ItemDataV,
}

pub open spec fn item_view(item: DeriveItem) -> DeriveItemV {
    DeriveItemV {
        name: item.name@,
        span: item.span,
        data: match item.data {
            ItemData::StructData(Fields::Named(fs)) => ItemDataV::StructData(
                FieldsV::Named(fields_view(fs@)),
            ),
            ItemData::StructData(Fields::Unnamed) => ItemDataV::StructData(FieldsV::Unnamed),
            ItemData::StructData(Fields::Unit) => ItemDataV::StructData(FieldsV::Unit),
            ItemData::NonStruct => ItemDataV::NonStruct,
        },
    }
}

/// The first attribute whose path is `builder`, looking from position `k` on.
pub open spec fn builder_attr_from(attrs: Seq<AttrV>, k: int) -> Option<AttrV>
    decreases attrs.len() - k,
{
    if k < 0 || k >= attrs.len() {
        None
    } else if attrs[k].path == "builder"@ {
        Some(attrs[k])
    } else {
        builder_attr_from(attrs, k + 1)
    }
}

/// The `each = "<name>"` annotation grammar: exactly the three tokens
/// `each`, `=`, and a string literal. The result is the accumulator name and
/// the span of its literal, which the generated appender's name inherits.
pub open spec fn each_args_spec(args: Seq<TokV>) -> Option<(Seq<char>, u32)> {
    if args.len() == 3 && (args[0] matches TokV::Ident(nm, _) && nm == "each"@) && (args[1] matches
        TokV::Punct('=', _, _)) && (args[2] matches TokV::Literal(LitV::Str(s), sp)) {
        Some((args[2]->Literal_0->Str_0, crate::token::tok_span(args[2])))
    } else {
        None
    }
}

/// How one field is annotated: not at all; with a malformed `builder`
/// attribute (the span is the attribute's); or with `each = "<name>"`.
#[verifier::ext_equal]
pub enum EachV {
    NoAnnotation,
    Malformed(u32),
    EachName(Seq<char>, u32),
}

pub open spec fn field_each(f: FieldV) -> EachV {
    match builder_attr_from(f.attrs, 0) {
        Option::None => EachV::NoAnnotation,
        Option::Some(a) => match each_args_spec(a.args) {
            Option::None => EachV::Malformed(a.span),
            Option::Some((nm, sp)) => EachV::EachName(nm, sp),
        },
    }
}

/// The classification of a field: exactly one of the three applies.
/// An `each`-annotated field is `Each`; an unannotated field of the optional
/// type is `Optional`; any other unannotated field is `Plain`.
#[derive(Clone, Copy, Debug, PartialEq, Eq, Structural)]
pub enum FieldClass {
    Optional,
    Each,
    Plain,
}

pub open spec fn class_of(f: FieldV) -> FieldClass {
    if field_each(f) matches EachV::EachName(_, _) {
        FieldClass::Each
    } else if is_optional(f.ty) {
        FieldClass::Optional
    } else {
        FieldClass::Plain
    }
}

/// The diagnostic a field earns, if any: a malformed annotation is reported
/// at the attribute; an annotation on a field whose declared type is not a
/// one-argument ordered-sequence type is reported at the field's name.
pub open spec fn field_error(f: FieldV) -> Option<DiagV> {
    match field_each(f) {
        EachV::NoAnnotation => None,
        EachV::Malformed(sp) => Some(DiagV { span: sp, kind: DiagKindV::MalformedAnnotation }),
        EachV::EachName(_, _) => if is_sequence(f.ty) {
            None
        } else {
            Some(DiagV { span: f.name_span, kind: DiagKindV::NotSequenceField })
        },
    }
}

/// The first field diagnostic in declaration order, looking from field `i` on.
pub open spec fn first_error_from(fs: Seq<FieldV>, i: int) -> Option<DiagV>
    decreases fs.len() - i,
{
    if i < 0 || i >= fs.len() {
        None
    } else if field_error(fs[i]) is Some {
        field_error(fs[i])
    } else {
        first_error_from(fs, i + 1)
    }
}

/// One slot of the generated builder structure. `init_empty` says how the
/// factory initializes it: an `each`-annotated slot starts as an empty
/// sequence, every other slot starts absent.
#[derive(Debug, PartialEq)]
pub struct SlotDecl {
    pub name: Vec<char>,
    pub name_span: u32,
    pub ty: Ty,
    pub init_empty: bool,
}

/// The mathematical value of a slot declaration.
#[verifier::ext_equal]
pub struct SlotDeclV {
    pub name: Seq<char>,
    pub name_span: u32,
    pub ty: TyV,
    pub init_empty: bool,
}

pub open spec fn slot_view(s: SlotDecl) -> SlotDeclV {
    SlotDeclV { name: s.name@, name_span: s.name_span, ty: ty_view(s.ty), init_empty: s.init_empty }
}

pub open spec fn slots_view(s: Seq<SlotDecl>) -> Seq<SlotDeclV> {
    Seq::new(s.len(), |i: int| slot_view(s[i]))
}

/// Whether a generated method sets its field's whole slot or appends one
/// element to it.
#[derive(Clone, Copy, Debug, PartialEq, Eq, Structural)]
pub enum MethodKind {
    Setter,
    Appender,
}

/// One generated mutation method: it takes one parameter of type `param_ty`,
/// mutates slot `field` of the builder in place and hands the builder back
/// by exclusive reference, so calls can be chained.
#[derive(Debug, PartialEq)]
pub struct BuilderMethod {
    pub name: Vec<char>,
    pub name_span: u32,
    pub field: usize,
    pub kind: MethodKind,
    pub param_ty: Ty,
}

/// The mathematical value of a generated method.
#[verifier::ext_equal]
pub struct BuilderMethodV {
    pub name: Seq<char>,
    pub name_span: u32,
    pub field: int,
    pub kind: MethodKind,
    pub param_ty: TyV,
}

pub open spec fn method_view(m: BuilderMethod) -> BuilderMethodV {
    BuilderMethodV {
        name: m.name@,
        name_span: m.name_span,
        field: m.field as int,
        kind: m.kind,
        param_ty: ty_view(m.param_ty),
    }
}

pub open spec fn methods_view(s: Seq<BuilderMethod>) -> Seq<BuilderMethodV> {
    Seq::new(s.len(), |i: int| method_view(s[i]))
}

/// Everything the generator emits for one structure definition: the builder
/// structure (one slot per source field, in declaration order), a factory on
/// the target type that hands out a freshly initialized builder, the
/// mutation methods, and a finalize operation that follows `classes` field
/// by field in declaration order.
#[derive(Debug, PartialEq)]
pub struct BuilderOutput {
    pub target_name: Vec<char>,
    pub target_span: u32,
    pub builder_name: Vec<char>,
    pub slots: Vec<SlotDecl>,
    pub methods: Vec<BuilderMethod>,
    pub classes: Vec<FieldClass>,
}

/// The mathematical value of the generator's output.
#[verifier::ext_equal]
pub struct BuilderOutV {
    pub target_name: Seq<char>,
    pub target_span: u32,
    pub builder_name: Seq<char>,
    pub slots: Seq<SlotDeclV>,
    pub methods: Seq<BuilderMethodV>,
    pub classes: Seq<FieldClass>,
}

pub open spec fn out_view(o: BuilderOutput) -> BuilderOutV {
    BuilderOutV {
        target_name: o.target_name@,
        target_span: o.target_span,
        builder_name: o.builder_name@,
        slots: slots_view(o.slots@),
        methods: methods_view(o.methods@),
        classes: o.classes@,
    }
}

/// The optional type wrapped around `t`.
pub open spec fn option_wrap(t: TyV) -> TyV {
    TyV::Path(
        TyPathV {
            qself: false,
            segments: seq![
                PathSegV { ident: "Option"@, args: TyArgsV::Angle(seq![TyArgV::TypeArg(t)]) },
            ],
        },
    )
}

/// The inner type of the one-argument optional type.
pub open spec fn option_inner(t: TyV) -> TyV {
    match simple_inner_spec(t, "Option"@) {
        Option::Some(inner) => inner,
        Option::None => TyV::Opaque(0),
    }
}

/// The element type of the one-argument ordered-sequence type.
pub open spec fn sequence_inner(t: TyV) -> TyV {
    match simple_inner_spec(t, "Vec"@) {
        Option::Some(inner) => inner,
        Option::None => TyV::Opaque(0),
    }
}

/// The builder slot generated for one field: an optional field keeps its
/// declared type; any other field's slot wraps the declared type in the
/// optional type.
pub open spec fn slot_of_field(f: FieldV) -> SlotDeclV {
    SlotDeclV {
        name: f.name,
        name_span: f.name_span,
        ty: if is_optional(f.ty) {
            f.ty
        } else {
            option_wrap(f.ty)
        },
        init_empty: class_of(f) == FieldClass::Each,
    }
}

pub open spec fn plain_setter(f: FieldV, i: int) -> BuilderMethodV {
    BuilderMethodV {
        name: f.name,
        name_span: f.name_span,
        field: i,
        kind: MethodKind::Setter,
        param_ty: f.ty,
    }
}

/// The methods generated for field `i`: an optional field gets a setter
/// taking the unwrapped inner type; an `each`-annotated field gets an
/// appender taking one element, plus the whole-sequence setter only when the
/// accumulator name differs from the field name; a plain field gets a setter
/// taking the declared type.
pub open spec fn methods_of_field(f: FieldV, i: int) -> Seq<BuilderMethodV> {
    if is_optional(f.ty) {
        seq![
            BuilderMethodV {
                name: f.name,
                name_span: f.name_span,
                field: i,
                kind: MethodKind::Setter,
                param_ty: option_inner(f.ty),
            },
        ]
    } else {
        match field_each(f) {
            EachV::EachName(nm, sp) => {
                let app = BuilderMethodV {
                    name: nm,
                    name_span: sp,
                    field: i,
                    kind: MethodKind::Appender,
                    param_ty: sequence_inner(f.ty),
                };
                if nm == f.name {
                    seq![app]
                } else {
                    seq![app, plain_setter(f, i)]
                }
            },
            _ => seq![plain_setter(f, i)],
        }
    }
}

/// The methods generated for the fields from position `i` on, in order.
pub open spec fn methods_from(fs: Seq<FieldV>, i: int) -> Seq<BuilderMethodV>
    decreases fs.len() - i,
{
    if i < 0 || i >= fs.len() {
        seq![]
    } else {
        methods_of_field(fs[i], i) + methods_from(fs, i + 1)
    }
}

pub open spec fn classes_of(fs: Seq<FieldV>) -> Seq<FieldClass> {
    Seq::new(fs.len(), |i: int| class_of(fs[i]))
}

pub open spec fn slots_of(fs: Seq<FieldV>) -> Seq<SlotDeclV> {
    Seq::new(fs.len(), |i: int| slot_of_field(fs[i]))
}

/// The output owed for a well-formed structure definition: the builder type
/// named after the target with `Builder` appended, one slot and one
/// classification per field, and the methods in field order.
pub open spec fn output_spec(item: DeriveItemV, fs: Seq<FieldV>) -> BuilderOutV {
    BuilderOutV {
        target_name: item.name,
        target_span: item.span,
        builder_name: item.name + "Builder"@,
        slots: slots_of(fs),
        methods: methods_from(fs, 0),
        classes: classes_of(fs),
    }
}

/// What the generator owes for every input: the full output for a structure
/// definition with named fields whose annotations are all well-formed, or
/// the diagnostic of the first offending field in declaration order, or a
/// wrong-shape diagnostic at the item for anything that is not a structure
/// with named fields.
pub open spec fn derive_spec(item: DeriveItemV) -> Result<BuilderOutV, DiagV> {
    match item.data {
        ItemDataV::StructData(FieldsV::Named(fs)) => match first_error_from(fs, 0) {
            Option::Some(d) => Err(d),
            Option::None => Ok(output_spec(item, fs)),
        },
        _ => Err(DiagV { span: item.span, kind: DiagKindV::WrongItemShape }),
    }
}

fn builder_attr<'a>(f: &'a FieldDef) -> (r: Option<&'a Attr>)
    ensures
        match r {
            Some(a) => builder_attr_from(attrs_view(f.attrs@), 0) == Some(attr_view(*a)),
            None => builder_attr_from(attrs_view(f.attrs@), 0) is None,
        },
{
    let mut bname: Vec<char> = Vec::new();
    bname.push('b');
    bname.push('u');
    bname.push('i');
    bname.push('l');
    bname.push('d');
    bname.push('e');
    bname.push('r');
    proof {
        reveal_strlit("builder");
        assert(bname@ =~= "builder"@);
    }
    let ghost av = attrs_view(f.attrs@);
    let mut k: usize = 0;
    while k < f.attrs.len()
        invariant
            k <= f.attrs.len(),
            av == attrs_view(f.attrs@),
            bname@ == "builder"@,
            builder_attr_from(av, 0) == builder_attr_from(av, k as int),
        decreases f.attrs.len() - k,
    {
        if name_eq(&f.attrs[k].path, &bname) {
            return Some(&f.attrs[k]);
        }
        k += 1;
    }
    None
}

fn parse_each_args(args: &Vec<TokenTree>) -> (r: Option<(Vec<char>, u32)>)
    ensures
        match r {
            Some(p) => each_args_spec(stream_view(args@)) == Some((p.0@, p.1)),
            None => each_args_spec(stream_view(args@)) is None,
        },
{
    proof {
        lemma_stream_view(args@);
    }
    if args.len() != 3 {
        return None;
    }
    let mut ename: Vec<char> = Vec::new();
    ename.push('e');
    ename.push('a');
    ename.push('c');
    ename.push('h');
    proof {
        reveal_strlit("each");
        assert(ename@ =~= "each"@);
    }
    match &args[0] {
        TokenTree::Ident(nm, _) => {
            if !name_eq(nm, &ename) {
                return None;
            }
        },
        _ => {
            return None;
        },
    }
    match &args[1] {
        TokenTree::Punct(c, _, _) => {
            if *c != '=' {
                return None;
            }
        },
        _ => {
            return None;
        },
    }
    match &args[2] {
        TokenTree::Literal(crate::token::Lit::Str(s), sp) => Some((copy_chars(s), *sp)),
        _ => None,
    }
}

fn option_wrap_exec(t: Ty) -> (r: Ty)
    ensures
        ty_view(r) == option_wrap(ty_view(t)),
{
    let ghost tv = ty_view(t);
    let mut targs: Vec<TyArg> = Vec::new();
    targs.push(TyArg::TypeArg(t));
    proof {
        lemma_targs_view(targs@);
        assert(targs_view(targs@) =~= seq![TyArgV::TypeArg(tv)]);
    }
    let seg = PathSeg { ident: option_name(), args: TyArgs::Angle(targs) };
    let mut segs: Vec<PathSeg> = Vec::new();
    segs.push(seg);
    proof {
        lemma_segs_view(segs@);
        assert(segs_view(segs@) =~= seq![
            PathSegV { ident: "Option"@, args: TyArgsV::Angle(seq![TyArgV::TypeArg(tv)]) },
        ]);
    }
    Ty::Path(TyPath { qself: false, segments: segs })
}

/// The name of the builder type: the target's name with `Builder` appended.
pub fn builder_type_name(target: &Vec<char>) -> (r: Vec<char>)
    ensures
        r@ == target@ + "Builder"@,
{
    let mut suffix: Vec<char> = Vec::new();
    suffix.push('B');
    suffix.push('u');
    suffix.push('i');
    suffix.push('l');
    suffix.push('d');
    suffix.push('e');
    suffix.push('r');
    proof {
        reveal_strlit("Builder");
        assert(suffix@ =~= "Builder"@);
    }
    name_concat(target, &suffix)
}

/// The structure-to-builder generator: consumes a structure definition and
/// describes the builder type, its factory, its mutation methods and its
/// finalize step, or reports the first offending field, or the item itself
/// where it is not a structure with named fields.
#[verifier::loop_isolation(false)]
pub fn derive_builder(item: &DeriveItem) -> (r: Result<BuilderOutput, Diagnostic>)
    ensures
        match r {
            Ok(out) => derive_spec(item_view(*item)) == Ok::<BuilderOutV, DiagV>(out_view(out)),
            Err(d) => derive_spec(item_view(*item)) == Err::<BuilderOutV, DiagV>(diag_view(d)),
        },
{
    let fs: &Vec<FieldDef> = match &item.data {
        ItemData::StructData(Fields::Named(fs)) => fs,
        _ => {
            return Err(Diagnostic { span: item.span, kind: DiagKind::WrongItemShape });
        },
    };
    let ghost fsv = fields_view(fs@);
    let vecn = vec_name();
    let mut slots: Vec<SlotDecl> = Vec::new();
    let mut methods: Vec<BuilderMethod> = Vec::new();
    let mut classes: Vec<FieldClass> = Vec::new();
    let mut i: usize = 0;
    while i < fs.len()
        invariant
            i <= fs.len(),
            first_error_from(fsv, 0) == first_error_from(fsv, i as int),
            classes@.len() == i,
            forall|j: int| 0 <= j < i ==> classes@[j] == class_of(fsv[j]),
            slots@.len() == i,
            forall|j: int| 0 <= j < i ==> slot_view(slots@[j]) == slot_of_field(fsv[j]),
            methods_view(methods@) + methods_from(fsv, i as int) == methods_from(fsv, 0),
        decreases fs.len() - i,
    {
        let f = &fs[i];
        let ghost fv = fsv[i as int];
        let ghost ms_pre = methods_view(methods@);
        match builder_attr(f) {
            Some(a) => {
                match parse_each_args(&a.args) {
                    Some((acc_name, acc_span)) => {
                        let elem = match simple_inner_type(&f.ty, &vecn) {
                            Some(elem) => elem,
                            None => {
                                let d = Diagnostic {
                                    span: f.name_span,
                                    kind: DiagKind::NotSequenceField,
                                };
                                proof {
                                    assert(field_error(fv) == Some(diag_view(d)));
                                }
                                return Err(d);
                            },
                        };
                        proof {
                            assert(field_each(fv) == EachV::EachName(acc_name@, acc_span));
                            assert(field_error(fv) is None);
                            assert(class_of(fv) == FieldClass::Each);
                            reveal_strlit("Vec");
                            reveal_strlit("Option");
                            assert("Vec"@.len() == 3 && "Option"@.len() == 6);
                            assert(!is_optional(fv.ty));
                        }
                        let sep_setter = !name_eq(&acc_name, &f.name);
                        let app = BuilderMethod {
                            name: acc_name,
                            name_span: acc_span,
                            field: i,
                            kind: MethodKind::Appender,
                            param_ty: clone_ty(elem),
                        };
                        methods.push(app);
                        if sep_setter {
                            let set = BuilderMethod {
                                name: copy_chars(&f.name),
                                name_span: f.name_span,
                                field: i,
                                kind: MethodKind::Setter,
                                param_ty: clone_ty(&f.ty),
                            };
                            methods.push(set);
                        }
                        proof {
                            assert(methods_view(methods@) =~= ms_pre + methods_of_field(
                                fv,
                                i as int,
                            ));
                        }
                        let slot = SlotDecl {
                            name: copy_chars(&f.name),
                            name_span: f.name_span,
                            ty: option_wrap_exec(clone_ty(&f.ty)),
                            init_empty: true,
                        };
                        slots.push(slot);
                        classes.push(FieldClass::Each);
                    },
                    None => {
                        let d = Diagnostic { span: a.span, kind: DiagKind::MalformedAnnotation };
                        proof {
                            assert(field_each(fv) == EachV::Malformed(a.span));
                            assert(field_error(fv) == Some(diag_view(d)));
                        }
                        return Err(d);
                    },
                }
            },
            None => {
                proof {
                    assert(field_each(fv) == EachV::NoAnnotation);
                    assert(field_error(fv) is None);
                }
                if field_is_optional(&f.ty) {
                    proof {
                        assert(class_of(fv) == FieldClass::Optional);
                    }
                    let inner = optional_type(&f.ty);
                    let set = BuilderMethod {
                        name: copy_chars(&f.name),
                        name_span: f.name_span,
                        field: i,
                        kind: MethodKind::Setter,
                        param_ty: clone_ty(inner),
                    };
                    methods.push(set);
                    let slot = SlotDecl {
                        name: copy_chars(&f.name),
                        name_span: f.name_span,
                        ty: clone_ty(&f.ty),
                        init_empty: false,
                    };
                    slots.push(slot);
                    classes.push(FieldClass::Optional);
                } else {
                    proof {
                        assert(class_of(fv) == FieldClass::Plain);
                    }
                    let set = BuilderMethod {
                        name: copy_chars(&f.name),
                        name_span: f.name_span,
                        field: i,
                        kind: MethodKind::Setter,
                        param_ty: clone_ty(&f.ty),
                    };
                    methods.push(set);
                    let slot = SlotDecl {
                        name: copy_chars(&f.name),
                        name_span: f.name_span,
                        ty: option_wrap_exec(clone_ty(&f.ty)),
                        init_empty: false,
                    };
                    slots.push(slot);
                    classes.push(FieldClass::Plain);
                }
                proof {
                    assert(methods_view(methods@) =~= ms_pre + methods_of_field(fv, i as int));
                }
            },
        }
        i += 1;
        proof {
            assert(methods_view(methods@) + methods_from(fsv, i as int) =~= methods_from(fsv, 0));
        }
    }
    let out = BuilderOutput {
        target_name: copy_chars(&item.name),
        target_span: item.span,
        builder_name: builder_type_name(&item.name),
        slots,
        methods,
        classes,
    };
    proof {
        assert(first_error_from(fsv, 0) is None);
        assert(methods_view(out.methods@) =~= methods_from(fsv, 0));
        assert(slots_view(out.slots@) =~= slots_of(fsv));
        assert(out.classes@ =~= classes_of(fsv));
        assert(out_view(out) =~= output_spec(item_view(*item), fsv));
    }
    Ok(out)
}

} // verus!
