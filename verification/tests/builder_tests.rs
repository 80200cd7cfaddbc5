use macrokit::builder::{
    derive_builder, Attr, DeriveItem, FieldClass, FieldDef, Fields, ItemData, MethodKind, PathSeg,
    Ty, TyArg, TyArgs, TyPath,
};
use macrokit::builder_state::{Built, BuilderState};
use macrokit::diag::DiagKind;
use macrokit::token::{Lit, TokenTree};

fn chars(s: &str) -> Vec<char> {
    s.chars().collect()
}

fn simple_ty(name: &str) -> Ty {
    Ty::Path(TyPath {
        qself: false,
        segments: vec![PathSeg { ident: chars(name), args: TyArgs::Missing }],
    })
}

fn wrap_ty(wrapper: &str, inner: Ty) -> Ty {
    Ty::Path(TyPath {
        qself: false,
        segments: vec![PathSeg {
            ident: chars(wrapper),
            args: TyArgs::Angle(vec![TyArg::TypeArg(inner)]),
        }],
    })
}

fn each_attr(name: &str, span: u32) -> Attr {
    Attr {
        path: chars("builder"),
        args: vec![
            TokenTree::Ident(chars("each"), span),
            TokenTree::Punct('=', false, span),
            TokenTree::Literal(Lit::Str(chars(name)), span),
        ],
        span,
    }
}

fn field(name: &str, span: u32, ty: Ty, attrs: Vec<Attr>) -> FieldDef {
    FieldDef { name: chars(name), name_span: span, ty, attrs }
}

fn named_struct(name: &str, fields: Vec<FieldDef>) -> DeriveItem {
    DeriveItem { name: chars(name), span: 1, data: ItemData::StructData(Fields::Named(fields)) }
}

#[test]
fn builder_for_plain_each_and_optional_fields() {
    let item = named_struct(
        "Command",
        vec![
            field("executable", 10, simple_ty("String"), vec![]),
            field("args", 11, wrap_ty("Vec", simple_ty("String")), vec![each_attr("arg", 12)]),
            field("current_dir", 13, wrap_ty("Option", simple_ty("String")), vec![]),
        ],
    );
    let out = derive_builder(&item).unwrap();
    assert_eq!(out.target_name, chars("Command"));
    assert_eq!(out.builder_name, chars("CommandBuilder"));
    assert_eq!(out.classes, vec![FieldClass::Plain, FieldClass::Each, FieldClass::Optional]);
    assert_eq!(out.slots.len(), 3);
    assert_eq!(out.slots[0].ty, wrap_ty("Option", simple_ty("String")));
    assert!(!out.slots[0].init_empty);
    assert_eq!(out.slots[1].ty, wrap_ty("Option", wrap_ty("Vec", simple_ty("String"))));
    assert!(out.slots[1].init_empty);
    assert_eq!(out.slots[2].ty, wrap_ty("Option", simple_ty("String")));
    assert!(!out.slots[2].init_empty);
    assert_eq!(out.methods.len(), 4);
    assert_eq!(out.methods[0].name, chars("executable"));
    assert_eq!(out.methods[0].kind, MethodKind::Setter);
    assert_eq!(out.methods[0].param_ty, simple_ty("String"));
    assert_eq!(out.methods[0].field, 0);
    assert_eq!(out.methods[1].name, chars("arg"));
    assert_eq!(out.methods[1].kind, MethodKind::Appender);
    assert_eq!(out.methods[1].param_ty, simple_ty("String"));
    assert_eq!(out.methods[1].field, 1);
    assert_eq!(out.methods[1].name_span, 12);
    assert_eq!(out.methods[2].name, chars("args"));
    assert_eq!(out.methods[2].kind, MethodKind::Setter);
    assert_eq!(out.methods[2].param_ty, wrap_ty("Vec", simple_ty("String")));
    assert_eq!(out.methods[3].name, chars("current_dir"));
    assert_eq!(out.methods[3].kind, MethodKind::Setter);
    assert_eq!(out.methods[3].param_ty, simple_ty("String"));
}

#[test]
fn each_with_field_name_omits_the_whole_sequence_setter() {
    let item = named_struct(
        "S",
        vec![field("args", 5, wrap_ty("Vec", simple_ty("u32")), vec![each_attr("args", 6)])],
    );
    let out = derive_builder(&item).unwrap();
    assert_eq!(out.methods.len(), 1);
    assert_eq!(out.methods[0].kind, MethodKind::Appender);
    assert_eq!(out.methods[0].name, chars("args"));
}

#[test]
fn non_struct_is_rejected_at_the_item() {
    let item = DeriveItem { name: chars("E"), span: 7, data: ItemData::NonStruct };
    let err = derive_builder(&item).unwrap_err();
    assert_eq!(err.kind, DiagKind::WrongItemShape);
    assert_eq!(err.span, 7);
}

#[test]
fn tuple_struct_is_rejected_at_the_item() {
    let item = DeriveItem {
        name: chars("T"),
        span: 9,
        data: ItemData::StructData(Fields::Unnamed),
    };
    let err = derive_builder(&item).unwrap_err();
    assert_eq!(err.kind, DiagKind::WrongItemShape);
    assert_eq!(err.span, 9);
}

#[test]
fn malformed_annotation_is_reported_at_the_attribute() {
    let bad = Attr {
        path: chars("builder"),
        args: vec![
            TokenTree::Ident(chars("every"), 40),
            TokenTree::Punct('=', false, 41),
            TokenTree::Literal(Lit::Str(chars("arg")), 42),
        ],
        span: 39,
    };
    let item = named_struct(
        "S",
        vec![field("args", 5, wrap_ty("Vec", simple_ty("u32")), vec![bad])],
    );
    let err = derive_builder(&item).unwrap_err();
    assert_eq!(err.kind, DiagKind::MalformedAnnotation);
    assert_eq!(err.span, 39);
}

#[test]
fn annotation_on_non_sequence_field_is_rejected() {
    let item = named_struct(
        "S",
        vec![field("name", 21, simple_ty("String"), vec![each_attr("part", 22)])],
    );
    let err = derive_builder(&item).unwrap_err();
    assert_eq!(err.kind, DiagKind::NotSequenceField);
    assert_eq!(err.span, 21);
}

#[test]
fn first_offending_field_wins() {
    let item = named_struct(
        "S",
        vec![
            field("a", 31, simple_ty("String"), vec![each_attr("x", 32)]),
            field("b", 33, simple_ty("String"), vec![each_attr("y", 34)]),
        ],
    );
    let err = derive_builder(&item).unwrap_err();
    assert_eq!(err.span, 31);
}

#[test]
fn finalize_succeeds_exactly_when_every_plain_field_is_set() {
    let classes = vec![FieldClass::Plain, FieldClass::Plain];
    let names = vec![chars("a"), chars("b")];
    let mut b = BuilderState::new(classes, names);
    assert_eq!(b.build().unwrap_err(), chars("a"));
    b.set(0, 1);
    assert_eq!(b.build().unwrap_err(), chars("b"));
    b.set(1, 2);
    assert_eq!(b.build().unwrap(), vec![Built::Val(1), Built::Val(2)]);
}

#[test]
fn setter_called_twice_keeps_the_last_value() {
    let mut b = BuilderState::new(vec![FieldClass::Plain], vec![chars("n")]);
    b.set(0, 4);
    b.set(0, 9);
    assert_eq!(b.build().unwrap(), vec![Built::Val(9)]);
}

#[test]
fn missing_field_error_names_the_first_unset_in_declaration_order() {
    let classes = vec![FieldClass::Plain, FieldClass::Plain, FieldClass::Plain];
    let names = vec![chars("first"), chars("second"), chars("third")];
    let mut b = BuilderState::new(classes, names);
    b.set(1, 7);
    assert_eq!(b.build().unwrap_err(), chars("first"));
    b.set(0, 7);
    assert_eq!(b.build().unwrap_err(), chars("third"));
}

#[test]
fn each_field_with_no_appends_yields_an_empty_sequence() {
    let classes = vec![FieldClass::Each, FieldClass::Plain];
    let names = vec![chars("args"), chars("exe")];
    let mut b = BuilderState::new(classes, names);
    b.set(1, 3);
    assert_eq!(b.build().unwrap(), vec![Built::ListVal(vec![]), Built::Val(3)]);
}

#[test]
fn appender_accumulates_elements_in_order() {
    let mut b = BuilderState::new(vec![FieldClass::Each], vec![chars("args")]);
    b.append(0, 1);
    b.append(0, 2);
    b.append(0, 3);
    assert_eq!(b.build().unwrap(), vec![Built::ListVal(vec![1, 2, 3])]);
}

#[test]
fn whole_sequence_setter_replaces_accumulated_elements() {
    let mut b = BuilderState::new(vec![FieldClass::Each], vec![chars("args")]);
    b.append(0, 1);
    b.set_all(0, vec![8, 9]);
    assert_eq!(b.build().unwrap(), vec![Built::ListVal(vec![8, 9])]);
}

#[test]
fn optional_field_never_blocks_finalize() {
    let mut b = BuilderState::new(vec![FieldClass::Optional], vec![chars("dir")]);
    assert_eq!(b.build().unwrap(), vec![Built::OptVal(None)]);
    b.set(0, 5);
    assert_eq!(b.build().unwrap(), vec![Built::OptVal(Some(5))]);
}
