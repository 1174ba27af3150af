use bpf_verifier::ast::clang_ast::{Node, QualType};
use bpf_verifier::ast::convert::{convert_translation_unit, parse_c_type, ConvertError};
use bpf_verifier::ast::fstar_ast::{CType, Expr, IntWidth, Stmt};

fn node(kind: &str) -> Node {
    Node {
        id: None,
        kind: kind.to_string(),
        name: None,
        ty: None,
        opcode: None,
        value: None,
        referenced_decl: None,
        has_init: None,
        section_name: None,
        is_implicit: None,
        cast_kind: None,
        inner: vec![],
        loc: None,
        range: None,
    }
}

fn typed(mut n: Node, ty: &str) -> Node {
    n.ty = Some(QualType { qual_type: ty.to_string(), desugared_type: None });
    n
}

fn named(mut n: Node, name: &str) -> Node {
    n.name = Some(name.to_string());
    n
}

fn with(mut n: Node, inner: Vec<Node>) -> Node {
    n.inner = inner;
    n
}

fn section(name: &str) -> Node {
    let mut n = node("SectionAttr");
    n.section_name = Some(name.to_string());
    n
}

fn int_lit(v: &str) -> Node {
    let mut n = typed(node("IntegerLiteral"), "int");
    n.value = Some(v.to_string());
    n
}

/// `SEC(sec) int name(void *ctx) { return v; }`
fn prog_fn(name: &str, sec: &str, v: &str) -> Node {
    with(
        typed(named(node("FunctionDecl"), name), "int (void *)"),
        vec![
            typed(named(node("ParmVarDecl"), "ctx"), "void *"),
            with(node("CompoundStmt"), vec![with(node("ReturnStmt"), vec![int_lit(v)])]),
            section(sec),
        ],
    )
}

#[test]
fn c_types_parse() {
    assert!(matches!(parse_c_type("int"), Ok(CType::CInt(IntWidth::W32))));
    assert!(matches!(parse_c_type(" const __u64 "), Ok(CType::CUInt(IntWidth::W64))));
    assert!(matches!(parse_c_type("unsigned char"), Ok(CType::CUInt(IntWidth::W8))));
    assert!(matches!(parse_c_type("_Bool"), Ok(CType::CBool)));
    match parse_c_type("struct xdp_md *") {
        Ok(CType::CPtr(inner)) => assert!(matches!(*inner, CType::CStruct(_))),
        other => panic!("unexpected {other:?}"),
    }
    match parse_c_type("int[4]") {
        Ok(CType::CArray(inner, 4)) => assert!(matches!(*inner, CType::CInt(IntWidth::W32))),
        other => panic!("unexpected {other:?}"),
    }
    match parse_c_type("void **") {
        Ok(CType::CPtr(inner)) => assert!(matches!(*inner, CType::CPtr(_))),
        other => panic!("unexpected {other:?}"),
    }
}

#[test]
fn translation_unit_with_one_programme() {
    let root = with(node("TranslationUnitDecl"), vec![prog_fn("xdp_pass", "xdp", "2"), prog_fn("lic", "license", "0")]);
    let obj = convert_translation_unit(&root, "prog.bpf.c").unwrap();
    assert_eq!(obj.source_file, "prog.bpf.c");
    assert!(obj.maps.is_empty());
    assert_eq!(obj.progs.len(), 1);
    let p = &obj.progs[0];
    assert_eq!(p.name, "xdp_pass");
    assert_eq!(p.section, "xdp");
    assert_eq!(p.param_name, "ctx");
    assert!(matches!(&p.param_type, CType::CPtr(t) if matches!(**t, CType::CVoid)));
    assert!(matches!(p.return_type, CType::CInt(IntWidth::W32)));
    assert_eq!(p.body.len(), 1);
    assert!(matches!(&p.body[0], Stmt::Return(Some(Expr::IntLit(2, IntWidth::W32)))));
}

#[test]
fn duplicate_sections_keep_the_first() {
    let root = with(node("TranslationUnitDecl"), vec![prog_fn("a", "xdp", "1"), prog_fn("b", "xdp", "2")]);
    let obj = convert_translation_unit(&root, "p.c").unwrap();
    assert_eq!(obj.progs.len(), 1);
    assert_eq!(obj.progs[0].name, "a");
}

#[test]
fn root_must_be_a_translation_unit() {
    let root = node("FunctionDecl");
    match convert_translation_unit(&root, "p.c") {
        Err(e) => {
            assert!(matches!(&e, ConvertError::NotTranslationUnit(k) if k == "FunctionDecl"));
            assert_eq!(e.message(), "Expected TranslationUnitDecl, got FunctionDecl");
        }
        Ok(_) => panic!("expected an error"),
    }
}

#[test]
fn bad_integer_literal_is_an_error() {
    let root = with(node("TranslationUnitDecl"), vec![prog_fn("a", "xdp", "nine")]);
    match convert_translation_unit(&root, "p.c") {
        Err(ConvertError::InFunction(name, inner)) => {
            assert_eq!(name, "a");
            assert!(matches!(*inner, ConvertError::BadIntegerLiteral(ref v) if v == "nine"));
        }
        other => panic!("unexpected {other:?}"),
    }
}
