use limit_stream::ast::{
    Append, Constant, Def, EnumDef, EnumItem, Macro, MacrodDef, Session, SessionDef,
    SessionOrName, SessionType, SimpleType, StructDef, StructItem, Type, TypeOrName,
};
use limit_stream::grammar::Expected;
use limit_stream::parser::{parse, ParseError};

fn step(s: Session) -> Macro<Session> {
    Macro { appends: vec![], body: Box::new(s) }
}

fn simple(t: SimpleType) -> TypeOrName {
    TypeOrName::Type(Box::new(Type::SimpleType(t)))
}

fn plain<T>(body: T) -> Macro<T> {
    Macro { appends: vec![], body: Box::new(body) }
}

#[test]
fn session_def_parses_in_order() {
    let r = parse("channel a = recv int -> send int -> end").unwrap();
    let expected = vec![MacrodDef(plain(Def::SessionDef(SessionDef {
        name: "a".to_string(),
        session: plain(SessionType(vec![
            step(Session::Recv(simple(SimpleType::Int))),
            step(Session::Send(simple(SimpleType::Int))),
            step(Session::Endpoint),
        ])),
    })))];
    assert_eq!(r, expected);
}

#[test]
fn struct_def_two_tagged_fields() {
    let r = parse("struct User { name: string = 0, age: uint = 1 }").unwrap();
    let expected = vec![MacrodDef(plain(Def::StructDef(StructDef {
        name: "User".to_string(),
        items: vec![
            plain(StructItem("name".to_string(), simple(SimpleType::String), Some(0))),
            plain(StructItem("age".to_string(), simple(SimpleType::Uint), Some(1))),
        ],
    })))];
    assert_eq!(r, expected);
}

#[test]
fn enum_def_two_variants_with_names() {
    let r = parse("enum usertype { Admin(user) = 0, Visitor(visitor) = 2 }").unwrap();
    let expected = vec![MacrodDef(plain(Def::EnumDef(EnumDef {
        name: "usertype".to_string(),
        items: vec![
            plain(EnumItem("Admin".to_string(), TypeOrName::Name("user".to_string()), Some(0))),
            plain(EnumItem("Visitor".to_string(), TypeOrName::Name("visitor".to_string()), Some(2))),
        ],
    })))];
    assert_eq!(r, expected);
}

#[test]
fn empty_struct_body_is_valid() {
    let r = parse("struct A { }").unwrap();
    let expected = vec![MacrodDef(plain(Def::StructDef(StructDef {
        name: "A".to_string(),
        items: vec![],
    })))];
    assert_eq!(r, expected);
}

#[test]
fn missing_channel_name_fails_after_keyword() {
    let e = parse("channel = recv int -> end").unwrap_err();
    assert_eq!(e, ParseError { position: 8, expected: Expected::Name });
}

#[test]
fn leftover_text_is_an_error() {
    let e = parse("struct A { } junk").unwrap_err();
    assert_eq!(e.expected, Expected::Definition);
    assert_eq!(e.position, 13);
}

#[test]
fn empty_input_is_an_error() {
    let e = parse("   \n  ").unwrap_err();
    assert_eq!(e.expected, Expected::Definition);
}

#[test]
fn trailing_whitespace_is_consumed() {
    assert!(parse("struct A { }  \n\t ").is_ok());
}

#[test]
fn offer_union_with_nested_session() {
    let r = parse("channel sum = recv int -> offer | sum | recv Done -> send int -> end").unwrap();
    match &*r[0].0.body {
        Def::SessionDef(sd) => {
            let steps = &sd.session.body.0;
            assert_eq!(steps.len(), 2);
            match &*steps[1].body {
                Session::Offer(u) => {
                    assert_eq!(u.0.len(), 2);
                    assert_eq!(u.0[0], SessionOrName::Name("sum".to_string()));
                    match &u.0[1] {
                        SessionOrName::Session(st) => assert_eq!(st.0.len(), 3),
                        other => panic!("expected a nested session, got {:?}", other),
                    }
                },
                other => panic!("expected an offer, got {:?}", other),
            }
        },
        other => panic!("expected a session definition, got {:?}", other),
    }
}

#[test]
fn union_requires_two_branches() {
    let e = parse("channel a = offer | b -> end").unwrap_err();
    assert_eq!(e.expected, Expected::UnionBranch);
}

#[test]
fn numbers_decimal_hex_octal() {
    let r = parse("struct N { a: int = 10, b: uint = 0x1F, c: bool = 0o17 }").unwrap();
    match &*r[0].0.body {
        Def::StructDef(sd) => {
            assert_eq!(sd.items[0].body.2, Some(10));
            assert_eq!(sd.items[1].body.2, Some(0x1F));
            assert_eq!(sd.items[2].body.2, Some(0o17));
        },
        _ => panic!("expected a struct"),
    }
}

#[test]
fn constants_in_annotations() {
    let r = parse("#[version = 2]\n#[active]\n#[label = \"a\\nb\"]\nstruct A { }").unwrap();
    let appends = &r[0].0.appends;
    assert_eq!(appends.len(), 3);
    match &appends[0] {
        Append::Annotation(a) => {
            assert_eq!(a.0, "version");
            assert_eq!(a.1, Constant::Uint(2));
        },
        other => panic!("expected an annotation, got {:?}", other),
    }
    match &appends[1] {
        Append::Annotation(a) => {
            assert_eq!(a.0, "active");
            assert_eq!(a.1, Constant::Bool(true));
        },
        other => panic!("expected an annotation, got {:?}", other),
    }
    match &appends[2] {
        Append::Annotation(a) => {
            assert_eq!(a.1, Constant::String("a\nb".to_string()));
        },
        other => panic!("expected an annotation, got {:?}", other),
    }
}

#[test]
fn signed_constant_field_types() {
    let r = parse("channel a = recv +5 -> send -3 -> end").unwrap();
    match &*r[0].0.body {
        Def::SessionDef(sd) => {
            match &*sd.session.body.0[0].body {
                Session::Recv(TypeOrName::Type(t)) => {
                    assert_eq!(**t, Type::Constant(Constant::Int(5)));
                },
                other => panic!("expected a recv of a constant, got {:?}", other),
            }
            match &*sd.session.body.0[1].body {
                Session::Send(TypeOrName::Type(t)) => {
                    assert_eq!(**t, Type::Constant(Constant::Int(-3)));
                },
                other => panic!("expected a send of a constant, got {:?}", other),
            }
        },
        _ => panic!("expected a session definition"),
    }
}

#[test]
fn float_literal_keeps_digits() {
    let r = parse("#[x = +1.50]\nstruct A { }").unwrap();
    match &r[0].0.appends[0] {
        Append::Annotation(a) => match &a.1 {
            Constant::Float(f) => {
                assert!(!f.neg);
                assert_eq!(f.whole, "1");
                assert_eq!(f.frac, "50");
            },
            other => panic!("expected a float, got {:?}", other),
        },
        other => panic!("expected an annotation, got {:?}", other),
    }
}

#[test]
fn unterminated_string_fails() {
    let e = parse("#[x = \"abc]\nstruct A { }").unwrap_err();
    assert_eq!(e.expected, Expected::CloseQuote);
}

#[test]
fn bad_escape_fails() {
    let e = parse("#[x = \"a\\qb\"]\nstruct A { }").unwrap_err();
    assert_eq!(e.expected, Expected::Escape);
}

#[test]
fn missing_colon_in_struct_item() {
    let e = parse("struct A { name string }").unwrap_err();
    assert_eq!(e.expected, Expected::Colon);
}

#[test]
fn comments_attach_to_their_owner() {
    let r = parse("/// doc\n// note\nstruct A { // inner\n x: int }").unwrap();
    let appends = &r[0].0.appends;
    assert_eq!(appends[0], Append::DocsComment("/// doc".to_string()));
    assert_eq!(appends[1], Append::LineComment("// note".to_string()));
    match &*r[0].0.body {
        Def::StructDef(sd) => {
            assert_eq!(sd.items[0].appends[0], Append::LineComment("// inner".to_string()));
        },
        _ => panic!("expected a struct"),
    }
}

#[test]
fn keywords_never_swallowed_into_names() {
    // "fri" ends where the keyword "end" begins; the rest cannot parse.
    let e = parse("struct friend { }").unwrap_err();
    assert_eq!(e.expected, Expected::OpenBrace);
}

#[test]
fn trailing_comma_allowed() {
    let r = parse("struct A { x: int, }").unwrap();
    match &*r[0].0.body {
        Def::StructDef(sd) => assert_eq!(sd.items.len(), 1),
        _ => panic!("expected a struct"),
    }
}

#[test]
fn step_order_matches_source_order() {
    let r = parse("channel a = send bool -> recv string -> end").unwrap();
    match &*r[0].0.body {
        Def::SessionDef(sd) => {
            let steps = &sd.session.body.0;
            assert_eq!(*steps[0].body, Session::Send(simple(SimpleType::Bool)));
            assert_eq!(*steps[1].body, Session::Recv(simple(SimpleType::String)));
            assert_eq!(*steps[2].body, Session::Endpoint);
        },
        _ => panic!("expected a session definition"),
    }
}
