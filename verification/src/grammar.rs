//! The IDL grammar as a mathematical function: a recursive-descent parser
//! over `Seq<char>`, written entirely in spec mode. The executable parser
//! proves, production by production, that it returns exactly what these
//! functions describe.
//!
//! Conventions shared by every production:
//! - `Got(v, next)` means the production matched, producing `v`, with `next`
//!   the first position after the consumed text.
//! - `Miss` means the production does not start here; nothing is consumed
//!   and the caller may try an alternative.
//! - `Fail(at, exp)` means the production committed (its leading keyword or
//!   opening token matched) and then found `exp` missing at `at`; the whole
//!   parse stops there.
//! - Keywords match as plain prefixes, as the grammar defines them.
//! - Each production whose recursion is not structurally obvious carries a
//!   defensive bounds test on the position returned by a sub-parse; the
//!   tests are part of the definition (and of the executable code), and a
//!   sub-parse never actually moves backwards or past the end.
use vstd::prelude::*;

use crate::ast::SimpleType;
use crate::ast::SpecAnnotation;
use crate::ast::SpecAppend;
use crate::ast::SpecConstant;
use crate::ast::SpecDef;
use crate::ast::SpecEnumDef;
use crate::ast::SpecEnumItem;
use crate::ast::SpecFloatLit;
use crate::ast::SpecMacro;
use crate::ast::SpecSession;
use crate::ast::SpecSessionDef;
use crate::ast::SpecSessionOrName;
use crate::ast::SpecSessionType;
use crate::ast::SpecSessionUnion;
use crate::ast::SpecStructDef;
use crate::ast::SpecStructItem;
use crate::ast::SpecType;
use crate::ast::SpecTypeOrName;

verus! {

/// What a failed parse expected at the failure position.
#[derive(Debug, Clone, Copy, PartialEq, Eq, Structural)]
pub enum Expected {
    Definition,
    Name,
    Equals,
    Colon,
    OpenBrace,
    CommaOrCloseBrace,
    OpenParen,
    CloseParen,
    OpenBracket,
    CloseBracket,
    SessionStep,
    UnionBranch,
    TypeRef,
    Constant,
    Unsigned,
    CloseQuote,
    Escape,
}

/// Outcome of one spec-level production.
pub enum SpOut<T> {
    Got(T, int),
    Miss,
    Fail(int, Expected),
}

// ---------------------------------------------------------------------------
// Character classes and scanners
// ---------------------------------------------------------------------------
pub open spec fn is_ws_char(c: char) -> bool {
    c == ' ' || c == '\t' || c == '\r' || c == '\n'
}

pub open spec fn is_dec_digit(c: char) -> bool {
    '0' <= c && c <= '9'
}

pub open spec fn is_hex_digit(c: char) -> bool {
    is_dec_digit(c) || ('a' <= c && c <= 'f') || ('A' <= c && c <= 'F')
}

pub open spec fn is_oct_digit(c: char) -> bool {
    '0' <= c && c <= '7'
}

/// One of the structural symbols that end a name.
pub open spec fn is_symbol_char(c: char) -> bool {
    c == '#' || c == '[' || c == ']' || c == '{' || c == '}' || c == '(' || c == ')' || c == ','
        || c == ':' || c == '=' || c == '|'
}


// ---------------------------------------------------------------------------
// Keywords and fixed tokens, with definitional contents
// ---------------------------------------------------------------------------
pub open spec fn kw_end() -> Seq<char> {
    seq!['e', 'n', 'd']
}

pub open spec fn kw_recv() -> Seq<char> {
    seq!['r', 'e', 'c', 'v']
}

pub open spec fn kw_send() -> Seq<char> {
    seq!['s', 'e', 'n', 'd']
}

pub open spec fn kw_offer() -> Seq<char> {
    seq!['o', 'f', 'f', 'e', 'r']
}

pub open spec fn kw_choose() -> Seq<char> {
    seq!['c', 'h', 'o', 'o', 's', 'e']
}

pub open spec fn kw_channel() -> Seq<char> {
    seq!['c', 'h', 'a', 'n', 'n', 'e', 'l']
}

pub open spec fn kw_struct() -> Seq<char> {
    seq!['s', 't', 'r', 'u', 'c', 't']
}

pub open spec fn kw_enum() -> Seq<char> {
    seq!['e', 'n', 'u', 'm']
}

pub open spec fn kw_bool() -> Seq<char> {
    seq!['b', 'o', 'o', 'l']
}

pub open spec fn kw_int() -> Seq<char> {
    seq!['i', 'n', 't']
}

pub open spec fn kw_uint() -> Seq<char> {
    seq!['u', 'i', 'n', 't']
}

pub open spec fn kw_float() -> Seq<char> {
    seq!['f', 'l', 'o', 'a', 't']
}

pub open spec fn kw_double() -> Seq<char> {
    seq!['d', 'o', 'u', 'b', 'l', 'e']
}

pub open spec fn kw_string() -> Seq<char> {
    seq!['s', 't', 'r', 'i', 'n', 'g']
}

pub open spec fn kw_true() -> Seq<char> {
    seq!['t', 'r', 'u', 'e']
}

pub open spec fn kw_false() -> Seq<char> {
    seq!['f', 'a', 'l', 's', 'e']
}

pub open spec fn tok_arrow() -> Seq<char> {
    seq!['-', '>']
}

pub open spec fn tok_docs() -> Seq<char> {
    seq!['/', '/', '/']
}

pub open spec fn tok_line() -> Seq<char> {
    seq!['/', '/']
}

pub open spec fn tok_hex_prefix() -> Seq<char> {
    seq!['0', 'x']
}

pub open spec fn tok_oct_prefix() -> Seq<char> {
    seq!['0', 'o']
}

/// Does the literal `lit` stand at `pos` in `s`?
pub open spec fn lit_at(s: Seq<char>, pos: int, lit: Seq<char>) -> bool {
    0 <= pos && pos + lit.len() <= s.len() && s.subrange(pos, pos + lit.len()) == lit
}

/// First position at or after `pos` that does not hold whitespace.
pub open spec fn skip_ws(s: Seq<char>, pos: int) -> int
    decreases s.len() - pos,
{
    if 0 <= pos && pos < s.len() && is_ws_char(s[pos]) {
        skip_ws(s, pos + 1)
    } else {
        pos
    }
}

/// First position at or after `pos` that holds a newline or the end.
pub open spec fn line_end(s: Seq<char>, pos: int) -> int
    decreases s.len() - pos,
{
    if 0 <= pos && pos < s.len() && s[pos] != '\n' {
        line_end(s, pos + 1)
    } else {
        pos
    }
}

/// End of the run of decimal digits starting at `pos`.
pub open spec fn dec_end(s: Seq<char>, pos: int) -> int
    decreases s.len() - pos,
{
    if 0 <= pos && pos < s.len() && is_dec_digit(s[pos]) {
        dec_end(s, pos + 1)
    } else {
        pos
    }
}

pub open spec fn hex_end(s: Seq<char>, pos: int) -> int
    decreases s.len() - pos,
{
    if 0 <= pos && pos < s.len() && is_hex_digit(s[pos]) {
        hex_end(s, pos + 1)
    } else {
        pos
    }
}

pub open spec fn oct_end(s: Seq<char>, pos: int) -> int
    decreases s.len() - pos,
{
    if 0 <= pos && pos < s.len() && is_oct_digit(s[pos]) {
        oct_end(s, pos + 1)
    } else {
        pos
    }
}

pub proof fn lemma_dec_end_bounds(s: Seq<char>, pos: int)
    requires
        0 <= pos <= s.len(),
    ensures
        pos <= dec_end(s, pos) <= s.len(),
    decreases s.len() - pos,
{
    if pos < s.len() && is_dec_digit(s[pos]) {
        lemma_dec_end_bounds(s, pos + 1);
    }
}

// ---------------------------------------------------------------------------
// Names
// ---------------------------------------------------------------------------
/// Is the run of characters starting at `pos` blocked from belonging to a
/// name? A name may not contain, at any position, the start of a keyword,
/// whitespace, a structural symbol, a simple-type keyword, or the start of
/// a constant literal.
pub open spec fn name_blocked_at(s: Seq<char>, pos: int) -> bool {
    ||| (0 <= pos && pos < s.len() && (is_ws_char(s[pos]) || is_symbol_char(s[pos])))
    ||| lit_at(s, pos, tok_arrow())
    ||| lit_at(s, pos, kw_end())
    ||| lit_at(s, pos, kw_recv())
    ||| lit_at(s, pos, kw_send())
    ||| lit_at(s, pos, kw_offer())
    ||| lit_at(s, pos, kw_choose())
    ||| lit_at(s, pos, kw_channel())
    ||| lit_at(s, pos, kw_struct())
    ||| lit_at(s, pos, kw_enum())
    ||| lit_at(s, pos, kw_bool())
    ||| lit_at(s, pos, kw_int())
    ||| lit_at(s, pos, kw_uint())
    ||| lit_at(s, pos, kw_float())
    ||| lit_at(s, pos, kw_double())
    ||| lit_at(s, pos, kw_string())
    ||| lit_at(s, pos, kw_true())
    ||| lit_at(s, pos, kw_false())
    ||| (0 <= pos && pos < s.len() && (s[pos] == '"' || is_dec_digit(s[pos])))
    ||| (0 <= pos && pos < s.len() && (s[pos] == '+' || s[pos] == '-') && pos + 1 < s.len()
        && is_dec_digit(s[pos + 1]))
}

/// End of the maximal unblocked run starting at `pos`.
pub open spec fn name_end(s: Seq<char>, pos: int) -> int
    decreases s.len() - pos,
{
    if 0 <= pos && pos < s.len() && !name_blocked_at(s, pos) {
        name_end(s, pos + 1)
    } else {
        pos
    }
}

/// `name`: a maximal, non-empty unblocked run.
pub open spec fn sp_name(s: Seq<char>, pos: int) -> SpOut<Seq<char>> {
    let e: int = name_end(s, pos);
    if 0 <= pos && pos < e {
        SpOut::Got(s.subrange(pos, e), e)
    } else {
        SpOut::Miss
    }
}

// ---------------------------------------------------------------------------
// Numbers
// ---------------------------------------------------------------------------
pub open spec fn dec_digit_val(c: char) -> nat {
    ((c as int) - ('0' as int)) as nat
}

pub open spec fn hex_digit_val(c: char) -> nat {
    if is_dec_digit(c) {
        dec_digit_val(c)
    } else if 'a' <= c && c <= 'f' {
        ((c as int) - ('a' as int) + 10) as nat
    } else {
        ((c as int) - ('A' as int) + 10) as nat
    }
}

/// Value of the digits `s[pos..end]` in the given base.
pub open spec fn digits_val(s: Seq<char>, pos: int, end: int, base: nat) -> nat
    decreases end - pos,
{
    if pos < end {
        digits_val(s, pos, end - 1, base) * base + (if base == 16 {
            hex_digit_val(s[end - 1])
        } else {
            dec_digit_val(s[end - 1])
        })
    } else {
        0
    }
}

/// Hex digits after a `0x` prefix. A value that does not fit in `u64` is
/// no match, like any other unparseable number.
pub open spec fn sp_number_hex(s: Seq<char>, pos: int) -> SpOut<u64> {
    if lit_at(s, pos, tok_hex_prefix()) && pos + 2 < s.len() && is_hex_digit(s[pos + 2]) {
        let e: int = hex_end(s, pos + 2);
        let v: nat = digits_val(s, pos + 2, e, 16);
        if v <= u64::MAX {
            SpOut::Got(v as u64, e)
        } else {
            SpOut::Miss
        }
    } else {
        SpOut::Miss
    }
}

/// Octal digits after a `0o` prefix.
pub open spec fn sp_number_oct(s: Seq<char>, pos: int) -> SpOut<u64> {
    if lit_at(s, pos, tok_oct_prefix()) && pos + 2 < s.len() && is_oct_digit(s[pos + 2]) {
        let e: int = oct_end(s, pos + 2);
        let v: nat = digits_val(s, pos + 2, e, 8);
        if v <= u64::MAX {
            SpOut::Got(v as u64, e)
        } else {
            SpOut::Miss
        }
    } else {
        SpOut::Miss
    }
}

/// Decimal digits.
pub open spec fn sp_number_dec(s: Seq<char>, pos: int) -> SpOut<u64> {
    if 0 <= pos && pos < s.len() && is_dec_digit(s[pos]) {
        let e: int = dec_end(s, pos);
        let v: nat = digits_val(s, pos, e, 10);
        if v <= u64::MAX {
            SpOut::Got(v as u64, e)
        } else {
            SpOut::Miss
        }
    } else {
        SpOut::Miss
    }
}

/// `number`: `0x` + hex digits, `0o` + octal digits, or decimal digits;
/// the radix prefix decides.
pub open spec fn sp_number(s: Seq<char>, pos: int) -> SpOut<u64> {
    if lit_at(s, pos, tok_hex_prefix()) && pos + 2 < s.len() && is_hex_digit(s[pos + 2]) {
        sp_number_hex(s, pos)
    } else if lit_at(s, pos, tok_oct_prefix()) && pos + 2 < s.len() && is_oct_digit(s[pos + 2]) {
        sp_number_oct(s, pos)
    } else {
        sp_number_dec(s, pos)
    }
}

/// `signed_number`: the text of an explicit sign followed by a number.
pub open spec fn sp_signed_number(s: Seq<char>, pos: int) -> SpOut<Seq<char>> {
    if 0 <= pos && pos < s.len() && (s[pos] == '+' || s[pos] == '-') {
        match sp_number(s, pos + 1) {
            SpOut::Got(_, e) => SpOut::Got(s.subrange(pos, e), e),
            _ => SpOut::Miss,
        }
    } else {
        SpOut::Miss
    }
}

/// `uint_lit`: an unsigned number, no sign allowed.
pub open spec fn sp_uint(s: Seq<char>, pos: int) -> SpOut<u64> {
    sp_number(s, pos)
}

/// `int_lit`: an explicit `+` or `-`, then a number in `i64` range.
pub open spec fn sp_int(s: Seq<char>, pos: int) -> SpOut<i64> {
    if 0 <= pos && pos < s.len() && (s[pos] == '+' || s[pos] == '-') {
        let neg: bool = s[pos] == '-';
        match sp_number(s, pos + 1) {
            SpOut::Got(v, e) => {
                if neg {
                    if v <= 0x8000_0000_0000_0000u64 {
                        SpOut::Got((-(v as int)) as i64, e)
                    } else {
                        SpOut::Miss
                    }
                } else {
                    if v <= i64::MAX {
                        SpOut::Got(v as i64, e)
                    } else {
                        SpOut::Miss
                    }
                }
            },
            _ => SpOut::Miss,
        }
    } else {
        SpOut::Miss
    }
}

/// `double_lit`: sign, decimal digits, a dot, decimal digits. The digits
/// are kept as written.
pub open spec fn sp_double(s: Seq<char>, pos: int) -> SpOut<SpecFloatLit> {
    if 0 <= pos && pos < s.len() && (s[pos] == '+' || s[pos] == '-') {
        let neg: bool = s[pos] == '-';
        let d1: int = dec_end(s, pos + 1);
        if d1 > pos + 1 && d1 < s.len() && s[d1] == '.' {
            let d2: int = dec_end(s, d1 + 1);
            if d2 > d1 + 1 {
                SpOut::Got(
                    SpecFloatLit {
                        neg,
                        whole: s.subrange(pos + 1, d1),
                        frac: s.subrange(d1 + 1, d2),
                    },
                    d2,
                )
            } else {
                SpOut::Miss
            }
        } else {
            SpOut::Miss
        }
    } else {
        SpOut::Miss
    }
}

/// Body of a string literal, after the opening quote: characters up to the
/// closing quote, with `\\ \" \n \r \t` escapes. Once the opening quote has
/// been read there is no going back: a bad escape or a missing closing
/// quote fails the whole parse.
pub open spec fn sp_str_body(s: Seq<char>, pos: int) -> SpOut<Seq<char>>
    decreases s.len() - pos,
{
    if !(0 <= pos && pos < s.len()) {
        SpOut::Fail(pos, Expected::CloseQuote)
    } else if s[pos] == '"' {
        SpOut::Got(Seq::empty(), pos + 1)
    } else if s[pos] == '\\' {
        if pos + 1 < s.len() && (s[pos + 1] == '\\' || s[pos + 1] == '"' || s[pos + 1] == 'n'
            || s[pos + 1] == 'r' || s[pos + 1] == 't') {
            let c: char = if s[pos + 1] == '\\' {
                '\\'
            } else if s[pos + 1] == '"' {
                '"'
            } else if s[pos + 1] == 'n' {
                '\n'
            } else if s[pos + 1] == 'r' {
                '\r'
            } else {
                '\t'
            };
            match sp_str_body(s, pos + 2) {
                SpOut::Got(t, e) => SpOut::Got(seq![c] + t, e),
                r => r,
            }
        } else {
            SpOut::Fail(pos, Expected::Escape)
        }
    } else {
        match sp_str_body(s, pos + 1) {
            SpOut::Got(t, e) => SpOut::Got(seq![s[pos]] + t, e),
            r => r,
        }
    }
}

/// `string_lit`: a double-quoted, escaped string.
pub open spec fn sp_string(s: Seq<char>, pos: int) -> SpOut<Seq<char>> {
    if 0 <= pos && pos < s.len() && s[pos] == '"' {
        sp_str_body(s, pos + 1)
    } else {
        SpOut::Miss
    }
}

/// `bool_lit`: `true` or `false`, as prefixes.
pub open spec fn sp_bool(s: Seq<char>, pos: int) -> SpOut<bool> {
    if lit_at(s, pos, kw_true()) {
        SpOut::Got(true, pos + 4)
    } else if lit_at(s, pos, kw_false()) {
        SpOut::Got(false, pos + 5)
    } else {
        SpOut::Miss
    }
}

/// `constant`: string, float, signed int, unsigned int or boolean, tried in
/// that order.
pub open spec fn sp_constant(s: Seq<char>, pos: int) -> SpOut<SpecConstant> {
    match sp_string(s, pos) {
        SpOut::Got(v, e) => SpOut::Got(SpecConstant::String(v), e),
        SpOut::Fail(at, exp) => SpOut::Fail(at, exp),
        SpOut::Miss => match sp_double(s, pos) {
            SpOut::Got(v, e) => SpOut::Got(SpecConstant::Float(v), e),
            _ => match sp_int(s, pos) {
                SpOut::Got(v, e) => SpOut::Got(SpecConstant::Int(v), e),
                _ => match sp_uint(s, pos) {
                    SpOut::Got(v, e) => SpOut::Got(SpecConstant::Uint(v), e),
                    _ => match sp_bool(s, pos) {
                        SpOut::Got(v, e) => SpOut::Got(SpecConstant::Bool(v), e),
                        _ => SpOut::Miss,
                    },
                },
            },
        },
    }
}

/// `simple_type`: one of the six scalar keywords, as prefixes.
pub open spec fn sp_simple_type(s: Seq<char>, pos: int) -> SpOut<SimpleType> {
    if lit_at(s, pos, kw_bool()) {
        SpOut::Got(SimpleType::Bool, pos + 4)
    } else if lit_at(s, pos, kw_int()) {
        SpOut::Got(SimpleType::Int, pos + 3)
    } else if lit_at(s, pos, kw_uint()) {
        SpOut::Got(SimpleType::Uint, pos + 4)
    } else if lit_at(s, pos, kw_float()) {
        SpOut::Got(SimpleType::Float, pos + 5)
    } else if lit_at(s, pos, kw_double()) {
        SpOut::Got(SimpleType::Double, pos + 6)
    } else if lit_at(s, pos, kw_string()) {
        SpOut::Got(SimpleType::String, pos + 6)
    } else {
        SpOut::Miss
    }
}

} // verus!

verus! {

// ---------------------------------------------------------------------------
// Comments and annotations
// ---------------------------------------------------------------------------
/// The inside of an annotation: a name, optionally `= constant`. A bare
/// name stands for the value `true`.
pub open spec fn sp_annotation_body(s: Seq<char>, pos: int) -> SpOut<SpecAnnotation> {
    match sp_name(s, pos) {
        SpOut::Miss => SpOut::Miss,
        SpOut::Fail(at, exp) => SpOut::Fail(at, exp),
        SpOut::Got(nm, p3) => {
            let p4: int = skip_ws(s, p3);
            if 0 <= p4 && p4 < s.len() && s[p4] == '=' {
                let p5: int = skip_ws(s, p4 + 1);
                match sp_constant(s, p5) {
                    SpOut::Got(c, p6) => SpOut::Got(SpecAnnotation { name: nm, value: c }, p6),
                    SpOut::Fail(at, exp) => SpOut::Fail(at, exp),
                    SpOut::Miss => SpOut::Got(
                        SpecAnnotation { name: nm, value: SpecConstant::Bool(true) },
                        p3,
                    ),
                }
            } else {
                SpOut::Got(SpecAnnotation { name: nm, value: SpecConstant::Bool(true) }, p3)
            }
        },
    }
}

/// `#[ ... ]`. The `#` commits: anything malformed past it fails the
/// parse.
pub open spec fn sp_annotation(s: Seq<char>, pos: int) -> SpOut<SpecAnnotation> {
    if !(0 <= pos && pos < s.len() && s[pos] == '#') {
        SpOut::Miss
    } else {
        let p1: int = skip_ws(s, pos + 1);
        if !(0 <= p1 && p1 < s.len() && s[p1] == '[') {
            SpOut::Fail(p1, Expected::OpenBracket)
        } else {
            let p2: int = skip_ws(s, p1 + 1);
            match sp_annotation_body(s, p2) {
                SpOut::Miss => SpOut::Fail(p2, Expected::Name),
                SpOut::Fail(at, exp) => SpOut::Fail(at, exp),
                SpOut::Got(a, p) => {
                    let p7: int = skip_ws(s, p);
                    if 0 <= p7 && p7 < s.len() && s[p7] == ']' {
                        SpOut::Got(a, p7 + 1)
                    } else {
                        SpOut::Fail(p7, Expected::CloseBracket)
                    }
                },
            }
        }
    }
}

/// A doc comment: `///` to the end of the line, marker kept, newline
/// consumed but not kept.
pub open spec fn sp_docu_comment(s: Seq<char>, pos: int) -> SpOut<Seq<char>> {
    if lit_at(s, pos, tok_docs()) {
        let e: int = line_end(s, pos);
        SpOut::Got(s.subrange(pos, e), if e < s.len() {
            e + 1
        } else {
            e
        })
    } else {
        SpOut::Miss
    }
}

/// A line comment: `//` to the end of the line.
pub open spec fn sp_line_comment(s: Seq<char>, pos: int) -> SpOut<Seq<char>> {
    if lit_at(s, pos, tok_line()) {
        let e: int = line_end(s, pos);
        SpOut::Got(s.subrange(pos, e), if e < s.len() {
            e + 1
        } else {
            e
        })
    } else {
        SpOut::Miss
    }
}

/// One append at `pos` (which the caller has already moved past
/// whitespace): a doc comment, a line comment, or an annotation. Comments
/// keep their marker and run to the end of the line; the newline is
/// consumed but not kept.
pub open spec fn sp_append_at(s: Seq<char>, pos: int) -> SpOut<SpecAppend> {
    match sp_docu_comment(s, pos) {
        SpOut::Got(t, e) => SpOut::Got(SpecAppend::DocsComment(t), e),
        _ => match sp_line_comment(s, pos) {
            SpOut::Got(t, e) => SpOut::Got(SpecAppend::LineComment(t), e),
            _ => match sp_annotation(s, pos) {
                SpOut::Got(a, e) => SpOut::Got(SpecAppend::Annotation(a), e),
                SpOut::Fail(at, exp) => SpOut::Fail(at, exp),
                SpOut::Miss => SpOut::Miss,
            },
        },
    }
}

/// Zero or more appends, each preceded by skippable whitespace. Returns
/// the position after the last append (trailing whitespace unconsumed).
pub open spec fn sp_appends(s: Seq<char>, pos: int, acc: Seq<SpecAppend>) -> SpOut<
    Seq<SpecAppend>,
>
    decreases s.len() - pos,
{
    let p: int = skip_ws(s, pos);
    match sp_append_at(s, p) {
        SpOut::Miss => SpOut::Got(acc, pos),
        SpOut::Fail(at, exp) => SpOut::Fail(at, exp),
        SpOut::Got(a, p2) => {
            if p2 <= pos || p2 > s.len() {
                SpOut::Got(acc.push(a), p2)
            } else {
                sp_appends(s, p2, acc.push(a))
            }
        },
    }
}

// ---------------------------------------------------------------------------
// Session types and type references (one mutually recursive family)
// ---------------------------------------------------------------------------
/// One session step. The step keyword commits.
pub open spec fn sp_session(s: Seq<char>, pos: int) -> SpOut<SpecSession>
    decreases s.len() - pos, 0int,
{
    if lit_at(s, pos, kw_end()) {
        SpOut::Got(SpecSession::Endpoint, pos + 3)
    } else if lit_at(s, pos, kw_offer()) {
        match sp_session_union(s, pos + 5) {
            SpOut::Got(u, e) => SpOut::Got(SpecSession::Offer(u), e),
            SpOut::Fail(at, exp) => SpOut::Fail(at, exp),
            SpOut::Miss => SpOut::Miss,
        }
    } else if lit_at(s, pos, kw_choose()) {
        match sp_session_union(s, pos + 6) {
            SpOut::Got(u, e) => SpOut::Got(SpecSession::Choose(u), e),
            SpOut::Fail(at, exp) => SpOut::Fail(at, exp),
            SpOut::Miss => SpOut::Miss,
        }
    } else if lit_at(s, pos, kw_recv()) {
        let p: int = skip_ws(s, pos + 4);
        if p < pos + 4 || p > s.len() {
            SpOut::Fail(p, Expected::TypeRef)
        } else {
            match sp_type_or_name(s, p) {
                SpOut::Got(t, e) => SpOut::Got(SpecSession::Recv(t), e),
                SpOut::Fail(at, exp) => SpOut::Fail(at, exp),
                SpOut::Miss => SpOut::Fail(p, Expected::TypeRef),
            }
        }
    } else if lit_at(s, pos, kw_send()) {
        let p: int = skip_ws(s, pos + 4);
        if p < pos + 4 || p > s.len() {
            SpOut::Fail(p, Expected::TypeRef)
        } else {
            match sp_type_or_name(s, p) {
                SpOut::Got(t, e) => SpOut::Got(SpecSession::Send(t), e),
                SpOut::Fail(at, exp) => SpOut::Fail(at, exp),
                SpOut::Miss => SpOut::Fail(p, Expected::TypeRef),
            }
        }
    } else {
        SpOut::Miss
    }
}

/// A session type: one or more annotated steps separated by `->`.
pub open spec fn sp_session_type(s: Seq<char>, pos: int) -> SpOut<SpecSessionType>
    decreases s.len() - pos, 1int,
{
    match sp_appends(s, pos, Seq::empty()) {
        SpOut::Fail(at, exp) => SpOut::Fail(at, exp),
        SpOut::Miss => SpOut::Miss,
        SpOut::Got(apps, p1) => {
            let p2: int = skip_ws(s, p1);
            if p2 < pos || p2 > s.len() {
                SpOut::Miss
            } else {
                match sp_session(s, p2) {
                    SpOut::Miss => SpOut::Miss,
                    SpOut::Fail(at, exp) => SpOut::Fail(at, exp),
                    SpOut::Got(st, p3) => {
                        let step = SpecMacro { appends: apps, body: st };
                        if p3 <= pos || p3 > s.len() {
                            SpOut::Got(SpecSessionType { steps: seq![step] }, p3)
                        } else {
                            match sp_steps(s, p3, seq![step]) {
                                SpOut::Got(steps, e) => SpOut::Got(
                                    SpecSessionType { steps },
                                    e,
                                ),
                                SpOut::Fail(at, exp) => SpOut::Fail(at, exp),
                                SpOut::Miss => SpOut::Miss,
                            }
                        }
                    },
                }
            }
        },
    }
}

/// Further `-> step` tails after the first step. An `->` commits the step
/// after it.
pub open spec fn sp_steps(
    s: Seq<char>,
    pos: int,
    acc: Seq<SpecMacro<SpecSession>>,
) -> SpOut<Seq<SpecMacro<SpecSession>>>
    decreases s.len() - pos, 0int,
{
    let p: int = skip_ws(s, pos);
    if lit_at(s, p, tok_arrow()) {
        match sp_appends(s, p + 2, Seq::empty()) {
            SpOut::Fail(at, exp) => SpOut::Fail(at, exp),
            SpOut::Miss => SpOut::Got(acc, pos),
            SpOut::Got(apps, q1) => {
                let q2: int = skip_ws(s, q1);
                if q2 <= pos || q2 > s.len() {
                    SpOut::Fail(q2, Expected::SessionStep)
                } else {
                    match sp_session(s, q2) {
                        SpOut::Miss => SpOut::Fail(q2, Expected::SessionStep),
                        SpOut::Fail(at, exp) => SpOut::Fail(at, exp),
                        SpOut::Got(st, q3) => {
                            let step = SpecMacro { appends: apps, body: st };
                            if q3 <= pos || q3 > s.len() {
                                SpOut::Got(acc.push(step), q3)
                            } else {
                                sp_steps(s, q3, acc.push(step))
                            }
                        },
                    }
                }
            },
        }
    } else {
        SpOut::Got(acc, pos)
    }
}

/// A union after `offer` or `choose`: two to ten branches, each introduced
/// by `|`. The keyword has committed already, so a malformed union fails.
pub open spec fn sp_session_union(s: Seq<char>, pos: int) -> SpOut<SpecSessionUnion>
    decreases s.len() - pos, 0int,
{
    let p: int = skip_ws(s, pos);
    if !(0 <= p && p < s.len() && s[p] == '|') {
        SpOut::Fail(p, Expected::UnionBranch)
    } else {
        let p2: int = skip_ws(s, p + 1);
        if p2 <= pos || p2 > s.len() {
            SpOut::Fail(p2, Expected::UnionBranch)
        } else {
            match sp_session_or_name(s, p2) {
                SpOut::Miss => SpOut::Fail(p2, Expected::UnionBranch),
                SpOut::Fail(at, exp) => SpOut::Fail(at, exp),
                SpOut::Got(b1, p3) => {
                    let q: int = skip_ws(s, p3);
                    if !(0 <= q && q < s.len() && s[q] == '|') {
                        SpOut::Fail(q, Expected::UnionBranch)
                    } else {
                        let q2: int = skip_ws(s, q + 1);
                        if q2 <= pos || q2 > s.len() {
                            SpOut::Fail(q2, Expected::UnionBranch)
                        } else {
                            match sp_session_or_name(s, q2) {
                                SpOut::Miss => SpOut::Fail(q2, Expected::UnionBranch),
                                SpOut::Fail(at, exp) => SpOut::Fail(at, exp),
                                SpOut::Got(b2, q3) => {
                                    if q3 <= pos || q3 > s.len() {
                                        SpOut::Got(
                                            SpecSessionUnion { branches: seq![b1, b2] },
                                            q3,
                                        )
                                    } else {
                                        match sp_union_more(s, q3, seq![b1, b2]) {
                                            SpOut::Got(bs, e) => SpOut::Got(
                                                SpecSessionUnion { branches: bs },
                                                e,
                                            ),
                                            SpOut::Fail(at, exp) => SpOut::Fail(at, exp),
                                            SpOut::Miss => SpOut::Miss,
                                        }
                                    }
                                },
                            }
                        }
                    }
                },
            }
        }
    }
}

/// Branches three to ten of a union; stops before an eleventh `|`.
pub open spec fn sp_union_more(
    s: Seq<char>,
    pos: int,
    acc: Seq<SpecSessionOrName>,
) -> SpOut<Seq<SpecSessionOrName>>
    decreases s.len() - pos, 0int,
{
    if acc.len() >= 10 {
        SpOut::Got(acc, pos)
    } else {
        let p: int = skip_ws(s, pos);
        if 0 <= p && p < s.len() && s[p] == '|' {
            let p2: int = skip_ws(s, p + 1);
            if p2 <= pos || p2 > s.len() {
                SpOut::Fail(p2, Expected::UnionBranch)
            } else {
                match sp_session_or_name(s, p2) {
                    SpOut::Miss => SpOut::Fail(p2, Expected::UnionBranch),
                    SpOut::Fail(at, exp) => SpOut::Fail(at, exp),
                    SpOut::Got(b, p3) => {
                        if p3 <= pos || p3 > s.len() {
                            SpOut::Got(acc.push(b), p3)
                        } else {
                            sp_union_more(s, p3, acc.push(b))
                        }
                    },
                }
            }
        } else {
            SpOut::Got(acc, pos)
        }
    }
}

/// A union branch: an inline session type, or a bare session name.
pub open spec fn sp_session_or_name(s: Seq<char>, pos: int) -> SpOut<SpecSessionOrName>
    decreases s.len() - pos, 3int,
{
    match sp_session_type(s, pos) {
        SpOut::Got(t, e) => SpOut::Got(SpecSessionOrName::Session(t), e),
        SpOut::Fail(at, exp) => SpOut::Fail(at, exp),
        SpOut::Miss => match sp_name(s, pos) {
            SpOut::Got(n, e) => SpOut::Got(SpecSessionOrName::Name(n), e),
            _ => SpOut::Miss,
        },
    }
}

/// An inline type literal: a session type, a simple scalar, or a constant.
pub open spec fn sp_type(s: Seq<char>, pos: int) -> SpOut<SpecType>
    decreases s.len() - pos, 2int,
{
    match sp_session_type(s, pos) {
        SpOut::Got(t, e) => SpOut::Got(SpecType::SessionType(t), e),
        SpOut::Fail(at, exp) => SpOut::Fail(at, exp),
        SpOut::Miss => match sp_simple_type(s, pos) {
            SpOut::Got(t, e) => SpOut::Got(SpecType::SimpleType(t), e),
            _ => match sp_constant(s, pos) {
                SpOut::Got(c, e) => SpOut::Got(SpecType::Constant(c), e),
                SpOut::Fail(at, exp) => SpOut::Fail(at, exp),
                SpOut::Miss => SpOut::Miss,
            },
        },
    }
}

/// An inline type literal, or a bare identifier resolved later.
pub open spec fn sp_type_or_name(s: Seq<char>, pos: int) -> SpOut<SpecTypeOrName>
    decreases s.len() - pos, 3int,
{
    match sp_type(s, pos) {
        SpOut::Got(t, e) => SpOut::Got(SpecTypeOrName::Type(t), e),
        SpOut::Fail(at, exp) => SpOut::Fail(at, exp),
        SpOut::Miss => match sp_name(s, pos) {
            SpOut::Got(n, e) => SpOut::Got(SpecTypeOrName::Name(n), e),
            _ => SpOut::Miss,
        },
    }
}

} // verus!

verus! {

// ---------------------------------------------------------------------------
// Struct and enum bodies
// ---------------------------------------------------------------------------
/// `name : type-or-name (= uint)?`. A missing name is a miss (the caller
/// decides); past the name, the item commits.
pub open spec fn sp_struct_item(s: Seq<char>, pos: int) -> SpOut<SpecStructItem> {
    match sp_name(s, pos) {
        SpOut::Miss => SpOut::Miss,
        SpOut::Fail(at, exp) => SpOut::Fail(at, exp),
        SpOut::Got(nm, p1) => {
            let p2: int = skip_ws(s, p1);
            if !(0 <= p2 && p2 < s.len() && s[p2] == ':') {
                SpOut::Fail(p2, Expected::Colon)
            } else {
                let p3: int = skip_ws(s, p2 + 1);
                match sp_type_or_name(s, p3) {
                    SpOut::Miss => SpOut::Fail(p3, Expected::TypeRef),
                    SpOut::Fail(at, exp) => SpOut::Fail(at, exp),
                    SpOut::Got(t, p4) => {
                        let p5: int = skip_ws(s, p4);
                        if 0 <= p5 && p5 < s.len() && s[p5] == '=' {
                            let p6: int = skip_ws(s, p5 + 1);
                            match sp_uint(s, p6) {
                                SpOut::Got(v, p7) => SpOut::Got(
                                    SpecStructItem { name: nm, ty: t, tag: Some(v) },
                                    p7,
                                ),
                                _ => SpOut::Fail(p6, Expected::Unsigned),
                            }
                        } else {
                            SpOut::Got(SpecStructItem { name: nm, ty: t, tag: None }, p4)
                        }
                    },
                }
            }
        },
    }
}

/// `name ( type-or-name ) (= uint)?`.
pub open spec fn sp_enum_item(s: Seq<char>, pos: int) -> SpOut<SpecEnumItem> {
    match sp_name(s, pos) {
        SpOut::Miss => SpOut::Miss,
        SpOut::Fail(at, exp) => SpOut::Fail(at, exp),
        SpOut::Got(nm, p1) => {
            let p2: int = skip_ws(s, p1);
            if !(0 <= p2 && p2 < s.len() && s[p2] == '(') {
                SpOut::Fail(p2, Expected::OpenParen)
            } else {
                let p3: int = skip_ws(s, p2 + 1);
                match sp_type_or_name(s, p3) {
                    SpOut::Miss => SpOut::Fail(p3, Expected::TypeRef),
                    SpOut::Fail(at, exp) => SpOut::Fail(at, exp),
                    SpOut::Got(t, p4) => {
                        let p5: int = skip_ws(s, p4);
                        if !(0 <= p5 && p5 < s.len() && s[p5] == ')') {
                            SpOut::Fail(p5, Expected::CloseParen)
                        } else {
                            let q: int = skip_ws(s, p5 + 1);
                            if 0 <= q && q < s.len() && s[q] == '=' {
                                let q2: int = skip_ws(s, q + 1);
                                match sp_uint(s, q2) {
                                    SpOut::Got(v, q3) => SpOut::Got(
                                        SpecEnumItem { name: nm, ty: t, tag: Some(v) },
                                        q3,
                                    ),
                                    _ => SpOut::Fail(q2, Expected::Unsigned),
                                }
                            } else {
                                SpOut::Got(
                                    SpecEnumItem { name: nm, ty: t, tag: None },
                                    p5 + 1,
                                )
                            }
                        }
                    },
                }
            }
        },
    }
}

/// The items of a struct body, after the opening brace: a comma-separated
/// list with an optional trailing comma, each item carrying its own
/// appends, closed by `}`.
pub open spec fn sp_struct_items(
    s: Seq<char>,
    pos: int,
    acc: Seq<SpecMacro<SpecStructItem>>,
) -> SpOut<Seq<SpecMacro<SpecStructItem>>>
    decreases s.len() - pos,
{
    let p: int = skip_ws(s, pos);
    if 0 <= p && p < s.len() && s[p] == '}' {
        SpOut::Got(acc, p + 1)
    } else {
        match sp_appends(s, pos, Seq::empty()) {
            SpOut::Fail(at, exp) => SpOut::Fail(at, exp),
            SpOut::Miss => SpOut::Got(acc, pos),
            SpOut::Got(apps, q1) => {
                let q2: int = skip_ws(s, q1);
                match sp_struct_item(s, q2) {
                    SpOut::Miss => SpOut::Fail(q2, Expected::Name),
                    SpOut::Fail(at, exp) => SpOut::Fail(at, exp),
                    SpOut::Got(item, q3) => {
                        let m = SpecMacro { appends: apps, body: item };
                        let q4: int = skip_ws(s, q3);
                        if 0 <= q4 && q4 < s.len() && s[q4] == ',' {
                            if q4 < pos {
                                SpOut::Got(acc.push(m), q4 + 1)
                            } else {
                                sp_struct_items(s, q4 + 1, acc.push(m))
                            }
                        } else if 0 <= q4 && q4 < s.len() && s[q4] == '}' {
                            SpOut::Got(acc.push(m), q4 + 1)
                        } else {
                            SpOut::Fail(q4, Expected::CommaOrCloseBrace)
                        }
                    },
                }
            },
        }
    }
}

/// The items of an enum body, after the opening brace.
pub open spec fn sp_enum_items(
    s: Seq<char>,
    pos: int,
    acc: Seq<SpecMacro<SpecEnumItem>>,
) -> SpOut<Seq<SpecMacro<SpecEnumItem>>>
    decreases s.len() - pos,
{
    let p: int = skip_ws(s, pos);
    if 0 <= p && p < s.len() && s[p] == '}' {
        SpOut::Got(acc, p + 1)
    } else {
        match sp_appends(s, pos, Seq::empty()) {
            SpOut::Fail(at, exp) => SpOut::Fail(at, exp),
            SpOut::Miss => SpOut::Got(acc, pos),
            SpOut::Got(apps, q1) => {
                let q2: int = skip_ws(s, q1);
                match sp_enum_item(s, q2) {
                    SpOut::Miss => SpOut::Fail(q2, Expected::Name),
                    SpOut::Fail(at, exp) => SpOut::Fail(at, exp),
                    SpOut::Got(item, q3) => {
                        let m = SpecMacro { appends: apps, body: item };
                        let q4: int = skip_ws(s, q3);
                        if 0 <= q4 && q4 < s.len() && s[q4] == ',' {
                            if q4 < pos {
                                SpOut::Got(acc.push(m), q4 + 1)
                            } else {
                                sp_enum_items(s, q4 + 1, acc.push(m))
                            }
                        } else if 0 <= q4 && q4 < s.len() && s[q4] == '}' {
                            SpOut::Got(acc.push(m), q4 + 1)
                        } else {
                            SpOut::Fail(q4, Expected::CommaOrCloseBrace)
                        }
                    },
                }
            },
        }
    }
}

// ---------------------------------------------------------------------------
// Definitions
// ---------------------------------------------------------------------------
/// `channel name = session-type`, entered at the `channel` keyword.
pub open spec fn sp_session_def(s: Seq<char>, pos: int) -> SpOut<SpecSessionDef> {
    if !lit_at(s, pos, kw_channel()) {
        SpOut::Miss
    } else {
        sp_session_def_tail(s, pos)
    }
}

pub open spec fn sp_session_def_tail(s: Seq<char>, pos: int) -> SpOut<SpecSessionDef> {
    let p1: int = skip_ws(s, pos + 7);
    match sp_name(s, p1) {
        SpOut::Miss => SpOut::Fail(p1, Expected::Name),
        SpOut::Fail(at, exp) => SpOut::Fail(at, exp),
        SpOut::Got(nm, p2) => {
            let p3: int = skip_ws(s, p2);
            if !(0 <= p3 && p3 < s.len() && s[p3] == '=') {
                SpOut::Fail(p3, Expected::Equals)
            } else {
                match sp_appends(s, p3 + 1, Seq::empty()) {
                    SpOut::Fail(at, exp) => SpOut::Fail(at, exp),
                    SpOut::Miss => SpOut::Fail(p3 + 1, Expected::SessionStep),
                    SpOut::Got(apps, q1) => {
                        let q2: int = skip_ws(s, q1);
                        match sp_session_type(s, q2) {
                            SpOut::Miss => SpOut::Fail(q2, Expected::SessionStep),
                            SpOut::Fail(at, exp) => SpOut::Fail(at, exp),
                            SpOut::Got(st, q3) => SpOut::Got(
                                SpecSessionDef {
                                    name: nm,
                                    session: SpecMacro { appends: apps, body: st },
                                },
                                q3,
                            ),
                        }
                    },
                }
            }
        },
    }
}

/// `struct name { items }`, entered at the `struct` keyword.
pub open spec fn sp_struct_def(s: Seq<char>, pos: int) -> SpOut<SpecStructDef> {
    if !lit_at(s, pos, kw_struct()) {
        SpOut::Miss
    } else {
        sp_struct_def_tail(s, pos)
    }
}

pub open spec fn sp_struct_def_tail(s: Seq<char>, pos: int) -> SpOut<SpecStructDef> {
    let p1: int = skip_ws(s, pos + 6);
    match sp_name(s, p1) {
        SpOut::Miss => SpOut::Fail(p1, Expected::Name),
        SpOut::Fail(at, exp) => SpOut::Fail(at, exp),
        SpOut::Got(nm, p2) => {
            let p3: int = skip_ws(s, p2);
            if !(0 <= p3 && p3 < s.len() && s[p3] == '{') {
                SpOut::Fail(p3, Expected::OpenBrace)
            } else {
                match sp_struct_items(s, p3 + 1, Seq::empty()) {
                    SpOut::Got(items, p4) => SpOut::Got(
                        SpecStructDef { name: nm, items },
                        p4,
                    ),
                    SpOut::Fail(at, exp) => SpOut::Fail(at, exp),
                    SpOut::Miss => SpOut::Fail(p3 + 1, Expected::Name),
                }
            }
        },
    }
}

/// `enum name { items }`, entered at the `enum` keyword.
pub open spec fn sp_enum_def(s: Seq<char>, pos: int) -> SpOut<SpecEnumDef> {
    if !lit_at(s, pos, kw_enum()) {
        SpOut::Miss
    } else {
        sp_enum_def_tail(s, pos)
    }
}

pub open spec fn sp_enum_def_tail(s: Seq<char>, pos: int) -> SpOut<SpecEnumDef> {
    let p1: int = skip_ws(s, pos + 4);
    match sp_name(s, p1) {
        SpOut::Miss => SpOut::Fail(p1, Expected::Name),
        SpOut::Fail(at, exp) => SpOut::Fail(at, exp),
        SpOut::Got(nm, p2) => {
            let p3: int = skip_ws(s, p2);
            if !(0 <= p3 && p3 < s.len() && s[p3] == '{') {
                SpOut::Fail(p3, Expected::OpenBrace)
            } else {
                match sp_enum_items(s, p3 + 1, Seq::empty()) {
                    SpOut::Got(items, p4) => SpOut::Got(SpecEnumDef { name: nm, items }, p4),
                    SpOut::Fail(at, exp) => SpOut::Fail(at, exp),
                    SpOut::Miss => SpOut::Fail(p3 + 1, Expected::Name),
                }
            }
        },
    }
}

/// One definition, decided by its leading keyword.
pub open spec fn sp_def(s: Seq<char>, pos: int) -> SpOut<SpecDef> {
    if lit_at(s, pos, kw_channel()) {
        match sp_session_def(s, pos) {
            SpOut::Got(d, e) => SpOut::Got(SpecDef::SessionDef(d), e),
            SpOut::Fail(at, exp) => SpOut::Fail(at, exp),
            SpOut::Miss => SpOut::Miss,
        }
    } else if lit_at(s, pos, kw_struct()) {
        match sp_struct_def(s, pos) {
            SpOut::Got(d, e) => SpOut::Got(SpecDef::StructDef(d), e),
            SpOut::Fail(at, exp) => SpOut::Fail(at, exp),
            SpOut::Miss => SpOut::Miss,
        }
    } else if lit_at(s, pos, kw_enum()) {
        match sp_enum_def(s, pos) {
            SpOut::Got(d, e) => SpOut::Got(SpecDef::EnumDef(d), e),
            SpOut::Fail(at, exp) => SpOut::Fail(at, exp),
            SpOut::Miss => SpOut::Miss,
        }
    } else {
        SpOut::Miss
    }
}

/// One annotated definition: appends, then a definition.
pub open spec fn sp_macrod_def(s: Seq<char>, pos: int) -> SpOut<SpecMacro<SpecDef>> {
    match sp_appends(s, pos, Seq::empty()) {
        SpOut::Fail(at, exp) => SpOut::Fail(at, exp),
        SpOut::Miss => SpOut::Miss,
        SpOut::Got(apps, p1) => {
            let p2: int = skip_ws(s, p1);
            match sp_def(s, p2) {
                SpOut::Miss => SpOut::Miss,
                SpOut::Fail(at, exp) => SpOut::Fail(at, exp),
                SpOut::Got(d, p3) => SpOut::Got(SpecMacro { appends: apps, body: d }, p3),
            }
        },
    }
}

/// As many annotated definitions as will parse.
pub open spec fn sp_defs(
    s: Seq<char>,
    pos: int,
    acc: Seq<SpecMacro<SpecDef>>,
) -> SpOut<Seq<SpecMacro<SpecDef>>>
    decreases s.len() - pos,
{
    match sp_macrod_def(s, pos) {
        SpOut::Miss => SpOut::Got(acc, pos),
        SpOut::Fail(at, exp) => SpOut::Fail(at, exp),
        SpOut::Got(md, p2) => {
            if p2 <= pos || p2 > s.len() {
                SpOut::Got(acc.push(md), p2)
            } else {
                sp_defs(s, p2, acc.push(md))
            }
        },
    }
}

/// Outcome of parsing a whole document.
pub enum SpParse {
    Parsed(Seq<SpecMacro<SpecDef>>),
    Error(int, Expected),
}

/// A whole document: at least one definition, and nothing but whitespace
/// after the last one. Anything left over is an error, never a partial
/// parse.
pub open spec fn sp_parse(s: Seq<char>) -> SpParse {
    match sp_defs(s, 0, Seq::empty()) {
        SpOut::Fail(at, exp) => SpParse::Error(at, exp),
        SpOut::Miss => SpParse::Error(0, Expected::Definition),
        SpOut::Got(defs, p) => {
            let p2: int = skip_ws(s, p);
            if p2 == s.len() && defs.len() > 0 {
                SpParse::Parsed(defs)
            } else {
                SpParse::Error(p2, Expected::Definition)
            }
        },
    }
}

} // verus!

verus! {

pub proof fn lemma_dec_end_digits(s: Seq<char>, pos: int)
    requires
        0 <= pos,
    ensures
        forall|k: int| pos <= k < dec_end(s, pos) ==> is_dec_digit(s[k]),
    decreases s.len() - pos,
{
    if 0 <= pos && pos < s.len() && is_dec_digit(s[pos]) {
        lemma_dec_end_digits(s, pos + 1);
    }
}

pub proof fn lemma_hex_end_digits(s: Seq<char>, pos: int)
    requires
        0 <= pos,
    ensures
        forall|k: int| pos <= k < hex_end(s, pos) ==> is_hex_digit(s[k]),
    decreases s.len() - pos,
{
    if 0 <= pos && pos < s.len() && is_hex_digit(s[pos]) {
        lemma_hex_end_digits(s, pos + 1);
    }
}

pub proof fn lemma_oct_end_digits(s: Seq<char>, pos: int)
    requires
        0 <= pos,
    ensures
        forall|k: int| pos <= k < oct_end(s, pos) ==> is_oct_digit(s[k]),
    decreases s.len() - pos,
{
    if 0 <= pos && pos < s.len() && is_oct_digit(s[pos]) {
        lemma_oct_end_digits(s, pos + 1);
    }
}

/// Appending digits never lowers the value of a digit run.
pub proof fn lemma_digits_val_mono(s: Seq<char>, pos: int, i: int, e: int, base: nat)
    requires
        pos <= i <= e,
        base >= 1,
    ensures
        digits_val(s, pos, e, base) >= digits_val(s, pos, i, base),
    decreases e - i,
{
    if i < e {
        lemma_digits_val_mono(s, pos, i, e - 1, base);
        let prev = digits_val(s, pos, e - 1, base);
        assert(prev * base >= prev) by (nonlinear_arith)
            requires
                base >= 1,
                prev >= 0,
        ;
    }
}

} // verus!

verus! {

/// The lengths of the keywords and fixed tokens.
pub proof fn lemma_token_lens()
    ensures
        kw_end().len() == 3,
        kw_recv().len() == 4,
        kw_send().len() == 4,
        kw_offer().len() == 5,
        kw_choose().len() == 6,
        kw_channel().len() == 7,
        kw_struct().len() == 6,
        kw_enum().len() == 4,
        kw_bool().len() == 4,
        kw_int().len() == 3,
        kw_uint().len() == 4,
        kw_float().len() == 5,
        kw_double().len() == 6,
        kw_string().len() == 6,
        kw_true().len() == 4,
        kw_false().len() == 5,
        tok_arrow().len() == 2,
        tok_docs().len() == 3,
        tok_line().len() == 2,
        tok_hex_prefix().len() == 2,
        tok_oct_prefix().len() == 2,
{
}

} // verus!

verus! {

/// Total consumption: a document parses only if, after the last
/// definition, nothing but whitespace remains — any leftover text is an
/// error, never a partial parse. Conversely, a parse that stops short of
/// the end (or matches no definition at all) is an error carrying the
/// position where it stopped.
pub proof fn lemma_parse_total_consumption(s: Seq<char>)
    ensures
        (sp_parse(s) matches SpParse::Parsed(ds) ==> (sp_defs(s, 0, Seq::empty())
            matches SpOut::Got(ds2, p) && ds2 == ds && ds.len() > 0 && skip_ws(s, p) == s.len())),
        (sp_defs(s, 0, Seq::empty()) matches SpOut::Got(ds2, p) ==> (skip_ws(s, p) != s.len()
            ==> sp_parse(s) == SpParse::Error(skip_ws(s, p), Expected::Definition))),
{
}

} // verus!

verus! {

// ---------------------------------------------------------------------------
// Order preservation: the list-building productions only ever append to
// what they have already parsed, so struct and enum items and session
// steps stand in the tree exactly in declaration order, and definitions
// in document order.
// ---------------------------------------------------------------------------
#[verifier::rlimit(100)]
pub proof fn lemma_steps_preserve_order(s: Seq<char>, pos: int, acc: Seq<SpecMacro<SpecSession>>)
    ensures
        sp_steps(s, pos, acc) matches SpOut::Got(steps, _) ==> steps.len() >= acc.len()
            && steps.subrange(0, acc.len() as int) == acc,
    decreases s.len() - pos, 0int,
{
    let p: int = skip_ws(s, pos);
    if lit_at(s, p, tok_arrow()) {
        match sp_appends(s, p + 2, Seq::empty()) {
            SpOut::Got(apps, q1) => {
                let q2: int = skip_ws(s, q1);
                if q2 <= pos || q2 > s.len() {
                } else {
                    match sp_session(s, q2) {
                        SpOut::Got(st, q3) => {
                            let step = SpecMacro { appends: apps, body: st };
                            if q3 <= pos || q3 > s.len() {
                                assert(acc.push(step).subrange(0, acc.len() as int) =~= acc);
                            } else {
                                lemma_steps_preserve_order(s, q3, acc.push(step));
                                match sp_steps(s, q3, acc.push(step)) {
                                    SpOut::Got(steps, _) => {
                                        assert(steps.subrange(0, acc.len() as int)
                                            =~= steps.subrange(
                                            0,
                                            acc.push(step).len() as int,
                                        ).subrange(0, acc.len() as int));
                                        assert(acc.push(step).subrange(0, acc.len() as int)
                                            =~= acc);
                                    },
                                    _ => {},
                                }
                            }
                        },
                        _ => {},
                    }
                }
            },
            _ => {},
        }
    } else {
        assert(acc.subrange(0, acc.len() as int) =~= acc);
    }
}

#[verifier::rlimit(60)]
pub proof fn lemma_struct_items_preserve_order(
    s: Seq<char>,
    pos: int,
    acc: Seq<SpecMacro<SpecStructItem>>,
)
    ensures
        sp_struct_items(s, pos, acc) matches SpOut::Got(items, _) ==> items.len() >= acc.len()
            && items.subrange(0, acc.len() as int) == acc,
    decreases s.len() - pos,
{
    let p: int = skip_ws(s, pos);
    if 0 <= p && p < s.len() && s[p] == '}' {
        assert(acc.subrange(0, acc.len() as int) =~= acc);
    } else {
        match sp_appends(s, pos, Seq::empty()) {
            SpOut::Miss => {
                assert(acc.subrange(0, acc.len() as int) =~= acc);
            },
            SpOut::Fail(_, _) => {},
            SpOut::Got(apps, q1) => {
                let q2: int = skip_ws(s, q1);
                match sp_struct_item(s, q2) {
                    SpOut::Got(item, q3) => {
                        let m = SpecMacro { appends: apps, body: item };
                        let q4: int = skip_ws(s, q3);
                        if 0 <= q4 && q4 < s.len() && s[q4] == ',' {
                            if q4 < pos {
                                assert(acc.push(m).subrange(0, acc.len() as int) =~= acc);
                            } else {
                                lemma_struct_items_preserve_order(s, q4 + 1, acc.push(m));
                                match sp_struct_items(s, q4 + 1, acc.push(m)) {
                                    SpOut::Got(items, _) => {
                                        assert(items.subrange(0, acc.len() as int)
                                            =~= items.subrange(
                                            0,
                                            acc.push(m).len() as int,
                                        ).subrange(0, acc.len() as int));
                                        assert(acc.push(m).subrange(0, acc.len() as int) =~= acc);
                                    },
                                    _ => {},
                                }
                            }
                        } else if 0 <= q4 && q4 < s.len() && s[q4] == '}' {
                            assert(acc.push(m).subrange(0, acc.len() as int) =~= acc);
                        }
                    },
                    _ => {},
                }
            },
        }
    }
}

pub proof fn lemma_defs_preserve_order(s: Seq<char>, pos: int, acc: Seq<SpecMacro<SpecDef>>)
    ensures
        sp_defs(s, pos, acc) matches SpOut::Got(ds, _) ==> ds.len() >= acc.len() && ds.subrange(
            0,
            acc.len() as int,
        ) == acc,
    decreases s.len() - pos,
{
    match sp_macrod_def(s, pos) {
        SpOut::Miss => {
            assert(acc.subrange(0, acc.len() as int) =~= acc);
        },
        SpOut::Fail(_, _) => {},
        SpOut::Got(md, p2) => {
            if p2 <= pos || p2 > s.len() {
                assert(acc.push(md).subrange(0, acc.len() as int) =~= acc);
            } else {
                lemma_defs_preserve_order(s, p2, acc.push(md));
                match sp_defs(s, p2, acc.push(md)) {
                    SpOut::Got(ds, _) => {
                        assert(ds.subrange(0, acc.len() as int) =~= ds.subrange(
                            0,
                            acc.push(md).len() as int,
                        ).subrange(0, acc.len() as int));
                        assert(acc.push(md).subrange(0, acc.len() as int) =~= acc);
                    },
                    _ => {},
                }
            }
        },
    }
}

} // verus!

verus! {

#[verifier::rlimit(60)]
pub proof fn lemma_enum_items_preserve_order(
    s: Seq<char>,
    pos: int,
    acc: Seq<SpecMacro<SpecEnumItem>>,
)
    ensures
        sp_enum_items(s, pos, acc) matches SpOut::Got(items, _) ==> items.len() >= acc.len()
            && items.subrange(0, acc.len() as int) == acc,
    decreases s.len() - pos,
{
    let p: int = skip_ws(s, pos);
    if 0 <= p && p < s.len() && s[p] == '}' {
        assert(acc.subrange(0, acc.len() as int) =~= acc);
    } else {
        match sp_appends(s, pos, Seq::empty()) {
            SpOut::Miss => {
                assert(acc.subrange(0, acc.len() as int) =~= acc);
            },
            SpOut::Fail(_, _) => {},
            SpOut::Got(apps, q1) => {
                let q2: int = skip_ws(s, q1);
                match sp_enum_item(s, q2) {
                    SpOut::Got(item, q3) => {
                        let m = SpecMacro { appends: apps, body: item };
                        let q4: int = skip_ws(s, q3);
                        if 0 <= q4 && q4 < s.len() && s[q4] == ',' {
                            if q4 < pos {
                                assert(acc.push(m).subrange(0, acc.len() as int) =~= acc);
                            } else {
                                lemma_enum_items_preserve_order(s, q4 + 1, acc.push(m));
                                match sp_enum_items(s, q4 + 1, acc.push(m)) {
                                    SpOut::Got(items, _) => {
                                        assert(items.subrange(0, acc.len() as int)
                                            =~= items.subrange(
                                            0,
                                            acc.push(m).len() as int,
                                        ).subrange(0, acc.len() as int));
                                        assert(acc.push(m).subrange(0, acc.len() as int) =~= acc);
                                    },
                                    _ => {},
                                }
                            }
                        } else if 0 <= q4 && q4 < s.len() && s[q4] == '}' {
                            assert(acc.push(m).subrange(0, acc.len() as int) =~= acc);
                        }
                    },
                    _ => {},
                }
            },
        }
    }
}

} // verus!
