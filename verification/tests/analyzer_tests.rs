use limit_stream::ast::{GetFields, GetName, TypeOrName};
use limit_stream::parser::parse;
use limit_stream::type_checker::{ir2graph, ring_checker, Error};

#[test]
fn mutual_references_form_a_cycle() {
    let defs = parse("struct A { x: B }\nstruct B { y: A }").unwrap();
    assert_eq!(ring_checker(&defs).unwrap(), true);
}

#[test]
fn a_chain_has_no_cycle() {
    let defs = parse("struct A { x: B }\nstruct B { y: C }\nstruct C { z: int }").unwrap();
    assert_eq!(ring_checker(&defs).unwrap(), false);
}

#[test]
fn self_reference_is_a_cycle() {
    let defs = parse("struct A { x: A }").unwrap();
    assert_eq!(ring_checker(&defs).unwrap(), true);
}

#[test]
fn session_references_count() {
    let defs = parse("channel a = send b -> end\nchannel b = send a -> end").unwrap();
    assert_eq!(ring_checker(&defs).unwrap(), true);
}

#[test]
fn unresolved_name_is_reported() {
    let defs = parse("struct A { x: Missing }").unwrap();
    match ring_checker(&defs) {
        Err(Error::NameIsNotFound(n)) => assert_eq!(n, "Missing"),
        other => panic!("expected a name resolution error, got {:?}", other),
    }
}

#[test]
fn graph_builds_for_resolved_defs() {
    let defs = parse("struct A { x: int }\nstruct B { y: A }").unwrap();
    assert!(ir2graph(&defs).is_ok());
}

#[test]
fn union_name_branches_contribute_no_fields() {
    let defs = parse("channel a = offer | other | recv int -> end").unwrap();
    let fields = defs[0].get_fields();
    // The bare branch name is not traversed; only the nested session's
    // reference shows up.
    assert_eq!(fields, vec![TypeOrName::Type(Box::new(
        limit_stream::ast::Type::SimpleType(limit_stream::ast::SimpleType::Int),
    ))]);
}

#[test]
fn get_name_returns_declared_names() {
    let defs = parse("struct A { }\nenum B { X(int) }\nchannel c = end").unwrap();
    let names: Vec<&str> = defs.iter().map(|d| d.0.body.get_name()).collect();
    assert_eq!(names, vec!["A", "B", "c"]);
}

#[test]
fn get_fields_in_declaration_order() {
    let defs = parse("struct A { x: B, y: int, z: C }").unwrap();
    let fields = defs[0].get_fields();
    assert_eq!(fields.len(), 3);
    assert_eq!(fields[0], TypeOrName::Name("B".to_string()));
    assert_eq!(fields[2], TypeOrName::Name("C".to_string()));
}

#[test]
fn definitions_project_to_types() {
    let defs = parse("channel a = end\nstruct B { }").unwrap();
    let mut it = defs.into_iter();
    let d0 = *it.next().unwrap().0.body;
    let d1 = *it.next().unwrap().0.body;
    match limit_stream::ast::Type::from(d0) {
        limit_stream::ast::Type::SessionType(st) => assert_eq!(st.0.len(), 1),
        other => panic!("expected a session type, got {:?}", other),
    }
    match limit_stream::ast::Type::from(d1) {
        limit_stream::ast::Type::Struct(sd) => assert_eq!(sd.name, "B"),
        other => panic!("expected a struct, got {:?}", other),
    }
}
