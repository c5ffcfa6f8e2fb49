use limit_stream::ast::{Constant, FloatLit, SimpleType};
use limit_stream::grammar::Expected;
use limit_stream::parser::{
    annotation, annotation_body, append, bool_lit, constant, docu_comment, double_lit, false_lit,
    int_lit, line_comment, name, number, number_dec, number_hex, number_oct, parse_str,
    signed_number, simple_type, string_lit, true_lit, uint_lit, ws, POut,
};

#[test]
fn ws_skips_all_whitespace() {
    assert_eq!(ws(" \t\r\n x", 0), 5);
    assert_eq!(ws("abc", 1), 1);
}

#[test]
fn name_scans_maximal_run() {
    assert_eq!(name("User age", 0), POut::Got("User".to_string(), 4));
    // a keyword starting inside the run ends the name
    assert_eq!(name("friend", 0), POut::Got("fri".to_string(), 3));
    // a digit is the start of a constant, so it ends the name
    assert_eq!(name("x1", 0), POut::Got("x".to_string(), 1));
    // a name cannot start at a keyword
    assert_eq!(name("recv x", 0), POut::Miss);
    assert_eq!(name(": x", 0), POut::Miss);
}

#[test]
fn numbers_in_three_radixes() {
    assert_eq!(number("129", 0), POut::Got(129, 3));
    assert_eq!(number_dec("42x", 0), POut::Got(42, 2));
    assert_eq!(number_hex("0xfF", 0), POut::Got(255, 4));
    assert_eq!(number_oct("0o17", 0), POut::Got(15, 4));
    assert_eq!(number_hex("17", 0), POut::Miss);
    assert_eq!(number("0x", 0), POut::Got(0, 1));
    // a value past u64 is no match
    assert_eq!(number("99999999999999999999999999", 0), POut::Miss);
}

#[test]
fn signed_and_unsigned_literals() {
    assert_eq!(int_lit("+12", 0), POut::Got(12, 3));
    assert_eq!(int_lit("-12", 0), POut::Got(-12, 3));
    assert_eq!(int_lit("12", 0), POut::Miss);
    assert_eq!(int_lit("-9223372036854775808", 0), POut::Got(i64::MIN, 20));
    assert_eq!(int_lit("-9223372036854775809", 0), POut::Miss);
    assert_eq!(uint_lit("7rest", 0), POut::Got(7, 1));
    assert_eq!(signed_number("-0x10", 0), POut::Got("-0x10".to_string(), 5));
}

#[test]
fn doubles_require_sign_and_dot() {
    assert_eq!(
        double_lit("+1.50", 0),
        POut::Got(FloatLit { neg: false, whole: "1".to_string(), frac: "50".to_string() }, 5)
    );
    assert_eq!(double_lit("1.5", 0), POut::Miss);
    assert_eq!(double_lit("+1", 0), POut::Miss);
}

#[test]
fn strings_escape_and_commit() {
    assert_eq!(string_lit("\"a\\tb\"", 0), POut::Got("a\tb".to_string(), 6));
    assert_eq!(string_lit("x", 0), POut::Miss);
    assert_eq!(string_lit("\"abc", 0), POut::Fail(4, Expected::CloseQuote));
    assert_eq!(parse_str("ab\" rest", 0), POut::Got("ab".to_string(), 3));
}

#[test]
fn booleans_as_prefixes() {
    assert_eq!(true_lit("trueX", 0), POut::Got(true, 4));
    assert_eq!(false_lit("false", 0), POut::Got(false, 5));
    assert_eq!(bool_lit("maybe", 0), POut::Miss);
}

#[test]
fn constant_prefers_strings_then_numbers() {
    assert_eq!(constant("\"s\"", 0), POut::Got(Constant::String("s".to_string()), 3));
    assert_eq!(constant("+1.5", 0), POut::Got(
        Constant::Float(FloatLit { neg: false, whole: "1".to_string(), frac: "5".to_string() }),
        4,
    ));
    assert_eq!(constant("+15", 0), POut::Got(Constant::Int(15), 3));
    assert_eq!(constant("15", 0), POut::Got(Constant::Uint(15), 2));
    assert_eq!(constant("true", 0), POut::Got(Constant::Bool(true), 4));
}

#[test]
fn simple_types_by_keyword() {
    assert_eq!(simple_type("uint", 0), POut::Got(SimpleType::Uint, 4));
    assert_eq!(simple_type("int", 0), POut::Got(SimpleType::Int, 3));
    assert_eq!(simple_type("user", 0), POut::Miss);
}

#[test]
fn comments_keep_marker_and_drop_newline() {
    assert_eq!(docu_comment("/// doc\nrest", 0), POut::Got("/// doc".to_string(), 8));
    assert_eq!(line_comment("// c", 0), POut::Got("// c".to_string(), 4));
    assert_eq!(docu_comment("// c\n", 0), POut::Miss);
}

#[test]
fn annotations_with_and_without_values() {
    match annotation("#[k = 3]", 0) {
        POut::Got(a, 8) => {
            assert_eq!(a.0, "k");
            assert_eq!(a.1, Constant::Uint(3));
        }
        other => panic!("unexpected: {:?}", other),
    }
    match annotation_body("flag]", 0) {
        POut::Got(a, 4) => {
            assert_eq!(a.0, "flag");
            assert_eq!(a.1, Constant::Bool(true));
        }
        other => panic!("unexpected: {:?}", other),
    }
    assert_eq!(annotation("#x", 0), POut::Fail(1, Expected::OpenBracket));
    match append("/// d\n", 0) {
        POut::Got(_, 6) => {}
        other => panic!("unexpected: {:?}", other),
    }
}
