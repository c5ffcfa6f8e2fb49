use limit_stream::codegen::formatter::Formatter;
use limit_stream::codegen::rust::Rust;
use limit_stream::codegen::{format_idl, idl2rust, Codegen};
use limit_stream::parser::{macrod_def, POut};

fn fmt(src: &str) -> String {
    let mut f = Formatter { tab_size: 4, indent: 0 };
    format_idl(src, &mut f).unwrap()
}

fn lower(src: &str) -> (String, Rust) {
    let mut rs = Rust { tab_size: 2, indent: 0, enum_id: 0, codegen_regester: vec![] };
    let out = idl2rust(src, &mut rs).unwrap();
    (out, rs)
}

#[test]
fn format_struct_canonical() {
    let out = fmt("struct  User{name:string=0,age:uint=1}");
    assert_eq!(out, "struct User {\n    name: string = 0,\n    age: uint = 1,\n}");
}

#[test]
fn format_is_idempotent_on_structs() {
    let once = fmt("struct User { name: string = 0, age: uint = 1, }");
    assert_eq!(fmt(&once), once);
}

#[test]
fn format_is_idempotent_on_sessions() {
    let once = fmt("channel a = recv int -> offer | x | recv Done -> end");
    assert_eq!(fmt(&once), once);
}

#[test]
fn format_is_idempotent_on_comments_and_annotations() {
    let once = fmt("/// doc\n#[v = 1]\n#[on]\nenum E { A(int) = 0, B(\"s\") }");
    assert_eq!(fmt(&once), once);
}

#[test]
fn format_is_idempotent_on_mixed_documents() {
    let src = "struct A { }\nchannel c = send A -> end\nenum U { X(A) = 0, Y(bool) }";
    let once = fmt(src);
    assert_eq!(fmt(&once), once);
}

#[test]
fn format_reemits_escaped_strings() {
    let once = fmt("#[label = \"a\\\\b\\n\"]\nstruct A { }");
    assert!(once.contains("\"a\\\\b\\n\""));
    assert_eq!(fmt(&once), once);
}

#[test]
fn lowering_registers_branch_alias_then_union() {
    let (out, rs) = lower("channel sum = recv int -> offer | sum | recv Done -> send int -> end");
    assert_eq!(rs.codegen_regester.len(), 2);
    assert_eq!(rs.enum_id, 2);
    assert_eq!(
        rs.codegen_regester[0],
        "pub type E0 = Next<Recv<Done>, Next<Send<int>, Endpoint>>;\n"
    );
    assert_eq!(rs.codegen_regester[1], "pub enum E1 {\n  Tsum(sum),\n  TE0(E0),\n}\n");
    assert!(out.contains("pub type sum = Next<Recv<int>, Offer<E1>>;"));
}

#[test]
fn lowering_simple_session() {
    let (out, rs) = lower("channel a = recv int -> send int -> end");
    assert_eq!(rs.codegen_regester.len(), 0);
    assert!(out.contains("pub type a = Next<Recv<int>, Next<Send<int>, Endpoint>>;"));
}

#[test]
fn lowering_struct_and_enum() {
    let (out, _) = lower("struct User { name: string = 0 }\nenum U { A(User) = 3 }");
    assert!(out.contains("pub struct User {"));
    assert!(out.contains("pub   name: string,\n"));
    assert!(out.contains("enum U {"));
    assert!(out.contains("A(User) = 3,\n"));
}

#[test]
fn registry_is_deterministic_across_fresh_contexts() {
    let src = "channel a = offer | x | y -> choose | p | q -> end";
    let (out1, rs1) = lower(src);
    let (out2, rs2) = lower(src);
    assert_eq!(out1, out2);
    assert_eq!(rs1.codegen_regester, rs2.codegen_regester);
    assert_eq!(rs1.enum_id, rs2.enum_id);
    assert_eq!(rs1.enum_id, 2);
}

#[test]
fn format_parse_error_is_reported() {
    let mut f = Formatter { tab_size: 4, indent: 0 };
    assert!(format_idl("channel = end", &mut f).is_err());
}

#[test]
fn formatter_context_methods() {
    let f = Formatter { tab_size: 3, indent: 1 };
    assert_eq!(f.get_tab(), "   ");
    let deeper = f.append_indent();
    assert_eq!(deeper.indent, 2);
    assert_eq!(deeper.get_tab(), "      ");
}

#[test]
fn rust_context_registers() {
    let mut rs = Rust { tab_size: 2, indent: 0, enum_id: 0, codegen_regester: vec![] };
    let n1 = rs.anonymous_session_register("Next<Recv<int>, Endpoint>");
    let n2 = rs.anonymous_union_register(&vec!["a".to_string(), "b".to_string()]);
    assert_eq!(n1, "E0");
    assert_eq!(n2, "E1");
    assert_eq!(rs.codegen_regester.len(), 2);
    assert_eq!(rs.codegen_regester[0], "pub type E0 = Next<Recv<int>, Endpoint>;\n");
    assert_eq!(rs.codegen_regester[1], "pub enum E1 {\n  Ta(a),\n  Tb(b),\n}\n");
}

#[test]
fn format_then_lower_pipeline() {
    let src = "channel ping = send int -> recv int -> end";
    let formatted = fmt(src);
    let (out, _) = lower(&formatted);
    assert!(out.contains("pub type ping = Next<Send<int>, Next<Recv<int>, Endpoint>>;"));
}

#[test]
fn rust_backend_appends_discarded() {
    let (out, _) = lower("/// doc\n#[v = 1]\nchannel a = end");
    assert!(!out.contains("doc"));
    assert!(out.contains("pub type a = Endpoint;"));
}

#[test]
fn synthetic_names_count_nested_registrations() {
    // Inside the branch session, the choose union registers first; then
    // the branch session itself registers as an alias; then the outer
    // union.
    let (out, rs) = lower("channel a = offer | x | recv int -> choose | p | q -> end");
    assert_eq!(rs.enum_id, 3);
    assert_eq!(rs.codegen_regester.len(), 3);
    assert!(rs.codegen_regester[0].starts_with("pub enum E0 {"));
    assert_eq!(
        rs.codegen_regester[1],
        "pub type E1 = Next<Recv<int>, Next<Choose<E0>, Endpoint>>;\n"
    );
    assert_eq!(rs.codegen_regester[2], "pub enum E2 {\n  Tx(x),\n  TE1(E1),\n}\n");
    assert!(out.contains("Offer<E2>"));
}

#[test]
fn generate_through_the_codegen_trait() {
    let src = "channel sum = recv int -> offer | sum | recv Done -> send int -> end";
    match macrod_def(src, 0) {
        POut::Got(ast, _) => {
            let mut f = Formatter { tab_size: 4, indent: 0 };
            let formatted = ast.generate(&mut f);
            assert!(formatted.starts_with("channel sum =\n"));
            let mut rs = Rust { tab_size: 2, indent: 0, enum_id: 0, codegen_regester: vec![] };
            let lowered = ast.generate(&mut rs);
            assert_eq!(lowered, "pub type sum = Next<Recv<int>, Offer<E1>>;\n");
            assert_eq!(rs.codegen_regester.len(), 2);
        }
        other => panic!("unexpected: {:?}", other),
    }
}
