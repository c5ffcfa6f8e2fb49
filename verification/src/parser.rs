//! The executable parser. Every function returns exactly what the
//! corresponding spec-level production in `grammar` describes; the
//! top-level `parse` either consumes the whole document or reports the
//! position where parsing stopped and what was expected there.
use vstd::prelude::*;

use crate::ast::Annotation;
use crate::ast::Append;
use crate::ast::Constant;
use crate::ast::FloatLit;
use crate::ast::SimpleType;
use crate::ast::view_appends;
use crate::ast::lemma_view_appends_push;
use crate::ast::SpecAppend;
use crate::ast::SpecMacro;
use crate::ast::SpecSession;
use crate::ast::SpecSessionOrName;
use crate::ast::Macro;
use crate::ast::Session;
use crate::ast::SessionType;
use crate::ast::SessionUnion;
use crate::ast::SessionOrName;
use crate::ast::TypeOrName;
use crate::ast::Type;
use crate::ast::view_step_macro;
use crate::ast::view_steps;
use crate::ast::view_branches;
use crate::ast::lemma_view_steps_push;
use crate::ast::lemma_view_branches_push;
use crate::ast::lemma_view_branches_len;
use crate::ast::StructItem;
use crate::ast::EnumItem;
use crate::ast::StructDef;
use crate::ast::EnumDef;
use crate::ast::SessionDef;
use crate::ast::Def;
use crate::ast::MacrodDef;
use crate::ast::SpecStructItem;
use crate::ast::SpecEnumItem;
use crate::ast::SpecDef;
use crate::ast::view_struct_items;
use crate::ast::view_enum_items;
use crate::ast::view_defs;
use crate::ast::lemma_view_struct_items_push;
use crate::ast::lemma_view_enum_items_push;
use crate::ast::lemma_view_defs_push;
use crate::ast::lemma_view_defs_len;
use crate::grammar::Expected;
use crate::grammar::SpOut;
use crate::grammar::SpParse;
use crate::grammar::lit_at;
use crate::grammar::is_ws_char;
use crate::grammar::is_dec_digit;
use crate::grammar::is_hex_digit;
use crate::grammar::is_oct_digit;
use crate::grammar::is_symbol_char;
use crate::grammar::skip_ws;
use crate::grammar::line_end;
use crate::grammar::dec_end;
use crate::grammar::hex_end;
use crate::grammar::oct_end;
use crate::grammar::name_end;
use crate::grammar::name_blocked_at;
use crate::grammar::dec_digit_val;
use crate::grammar::hex_digit_val;
use crate::grammar::digits_val;
use crate::grammar::sp_name;
use crate::grammar::sp_number;
use crate::grammar::sp_uint;
use crate::grammar::sp_int;
use crate::grammar::sp_double;
use crate::grammar::sp_str_body;
use crate::grammar::sp_string;
use crate::grammar::sp_bool;
use crate::grammar::sp_constant;
use crate::grammar::sp_simple_type;
use crate::grammar::sp_annotation;
use crate::grammar::sp_annotation_body;
use crate::grammar::sp_docu_comment;
use crate::grammar::sp_line_comment;
use crate::grammar::sp_number_dec;
use crate::grammar::sp_number_hex;
use crate::grammar::sp_number_oct;
use crate::grammar::sp_signed_number;
use crate::grammar::sp_append_at;
use crate::grammar::sp_appends;
use crate::grammar::sp_session;
use crate::grammar::sp_session_type;
use crate::grammar::sp_steps;
use crate::grammar::sp_session_union;
use crate::grammar::sp_union_more;
use crate::grammar::sp_session_or_name;
use crate::grammar::sp_type;
use crate::grammar::sp_type_or_name;
use crate::grammar::sp_struct_item;
use crate::grammar::sp_enum_item;
use crate::grammar::sp_struct_items;
use crate::grammar::sp_enum_items;
use crate::grammar::sp_session_def;
use crate::grammar::sp_struct_def;
use crate::grammar::sp_enum_def;
use crate::grammar::sp_def;
use crate::grammar::sp_macrod_def;
use crate::grammar::sp_defs;
use crate::grammar::sp_parse;
use crate::grammar::kw_end;
use crate::grammar::kw_recv;
use crate::grammar::kw_send;
use crate::grammar::kw_offer;
use crate::grammar::kw_choose;
use crate::grammar::kw_channel;
use crate::grammar::kw_struct;
use crate::grammar::kw_enum;
use crate::grammar::kw_bool;
use crate::grammar::kw_int;
use crate::grammar::kw_uint;
use crate::grammar::kw_float;
use crate::grammar::kw_double;
use crate::grammar::kw_string;
use crate::grammar::kw_true;
use crate::grammar::kw_false;
use crate::grammar::tok_arrow;
use crate::grammar::tok_docs;
use crate::grammar::tok_line;
use crate::grammar::tok_hex_prefix;
use crate::grammar::tok_oct_prefix;
use crate::grammar::lemma_dec_end_digits;
use crate::grammar::lemma_hex_end_digits;
use crate::grammar::lemma_oct_end_digits;
use crate::grammar::lemma_digits_val_mono;
use crate::grammar::lemma_dec_end_bounds;
use crate::grammar::lemma_token_lens;

verus! {

/// Outcome of one executable production; mirrors `SpOut`.
#[derive(Debug, PartialEq)]
pub enum POut<T> {
    Got(T, usize),
    Miss,
    Fail(usize, Expected),
}

impl<T: View> View for POut<T> {
    type V = SpOut<T::V>;

    open spec fn view(&self) -> SpOut<T::V> {
        match self {
            POut::Got(v, n) => SpOut::Got(v@, *n as int),
            POut::Miss => SpOut::Miss,
            POut::Fail(at, exp) => SpOut::Fail(*at as int, *exp),
        }
    }
}

/// Where a parse failed, and what was expected there. Positions count
/// characters, not bytes.
#[derive(Debug, Clone, Copy, PartialEq, Eq, Structural)]
pub struct ParseError {
    pub position: usize,
    pub expected: Expected,
}

/// The string-literal views used by the executable code are the keyword
/// sequences of the grammar.
pub proof fn lemma_keyword_views()
    ensures
        "end"@ == kw_end(),
        "recv"@ == kw_recv(),
        "send"@ == kw_send(),
        "offer"@ == kw_offer(),
        "choose"@ == kw_choose(),
        "channel"@ == kw_channel(),
        "struct"@ == kw_struct(),
        "enum"@ == kw_enum(),
        "bool"@ == kw_bool(),
        "int"@ == kw_int(),
        "uint"@ == kw_uint(),
        "float"@ == kw_float(),
        "double"@ == kw_double(),
        "string"@ == kw_string(),
        "true"@ == kw_true(),
        "false"@ == kw_false(),
        "->"@ == tok_arrow(),
        "///"@ == tok_docs(),
        "//"@ == tok_line(),
        "0x"@ == tok_hex_prefix(),
        "0o"@ == tok_oct_prefix(),
{
    reveal_strlit("end");
    reveal_strlit("recv");
    reveal_strlit("send");
    reveal_strlit("offer");
    reveal_strlit("choose");
    reveal_strlit("channel");
    reveal_strlit("struct");
    reveal_strlit("enum");
    reveal_strlit("bool");
    reveal_strlit("int");
    reveal_strlit("uint");
    reveal_strlit("float");
    reveal_strlit("double");
    reveal_strlit("string");
    reveal_strlit("true");
    reveal_strlit("false");
    reveal_strlit("->");
    reveal_strlit("///");
    reveal_strlit("//");
    reveal_strlit("0x");
    reveal_strlit("0o");
    assert("end"@ =~= kw_end());
    assert("recv"@ =~= kw_recv());
    assert("send"@ =~= kw_send());
    assert("offer"@ =~= kw_offer());
    assert("choose"@ =~= kw_choose());
    assert("channel"@ =~= kw_channel());
    assert("struct"@ =~= kw_struct());
    assert("enum"@ =~= kw_enum());
    assert("bool"@ =~= kw_bool());
    assert("int"@ =~= kw_int());
    assert("uint"@ =~= kw_uint());
    assert("float"@ =~= kw_float());
    assert("double"@ =~= kw_double());
    assert("string"@ =~= kw_string());
    assert("true"@ =~= kw_true());
    assert("false"@ =~= kw_false());
    assert("->"@ =~= tok_arrow());
    assert("///"@ =~= tok_docs());
    assert("//"@ =~= tok_line());
    assert("0x"@ =~= tok_hex_prefix());
    assert("0o"@ =~= tok_oct_prefix());
}

// ---------------------------------------------------------------------------
// Character classes
// ---------------------------------------------------------------------------
fn ch_is_ws(c: char) -> (b: bool)
    ensures
        b == is_ws_char(c),
{
    c == ' ' || c == '\t' || c == '\r' || c == '\n'
}

fn ch_is_dec(c: char) -> (b: bool)
    ensures
        b == is_dec_digit(c),
{
    '0' <= c && c <= '9'
}

fn ch_is_hex(c: char) -> (b: bool)
    ensures
        b == is_hex_digit(c),
{
    ch_is_dec(c) || ('a' <= c && c <= 'f') || ('A' <= c && c <= 'F')
}

fn ch_is_oct(c: char) -> (b: bool)
    ensures
        b == is_oct_digit(c),
{
    '0' <= c && c <= '7'
}

fn ch_is_symbol(c: char) -> (b: bool)
    ensures
        b == is_symbol_char(c),
{
    c == '#' || c == '[' || c == ']' || c == '{' || c == '}' || c == '(' || c == ')' || c == ','
        || c == ':' || c == '=' || c == '|'
}

// ---------------------------------------------------------------------------
// Scanners
// ---------------------------------------------------------------------------
/// Does `lit` stand at `pos` in `s`?
fn ex_lit_at(s: &str, pos: usize, lit: &str) -> (b: bool)
    ensures
        b == lit_at(s@, pos as int, lit@),
        s@.len() <= usize::MAX,
{
    let n: usize = s.unicode_len();
    let m: usize = lit.unicode_len();
    if m > n || pos > n - m {
        assert(!lit_at(s@, pos as int, lit@));
        return false;
    }
    let mut j: usize = 0;
    while j < m
        invariant
            0 <= j <= m,
            pos + m <= n,
            n == s@.len(),
            m == lit@.len(),
            forall|k: int| 0 <= k < j ==> s@[pos + k] == lit@[k],
        decreases m - j,
    {
        if s.get_char(pos + j) != lit.get_char(j) {
            assert(s@.subrange(pos as int, pos + m) != lit@) by {
                assert(s@.subrange(pos as int, pos + m)[j as int] != lit@[j as int]);
            }
            return false;
        }
        j += 1;
    }
    assert(s@.subrange(pos as int, pos + m) =~= lit@);
    true
}

/// Skip the whitespace characters at `pos`.
pub fn ws(s: &str, pos: usize) -> (r: usize)
    ensures
        r as int == skip_ws(s@, pos as int),
        r <= s@.len() || r == pos,
        r >= pos,
{
    let n: usize = s.unicode_len();
    let mut cur: usize = pos;
    while cur < n && ch_is_ws(s.get_char(cur))
        invariant
            n == s@.len(),
            skip_ws(s@, pos as int) == skip_ws(s@, cur as int),
            cur >= pos,
            cur <= n || cur == pos,
        decreases n - cur,
    {
        cur += 1;
    }
    cur
}

fn ex_line_end(s: &str, pos: usize) -> (r: usize)
    ensures
        r as int == line_end(s@, pos as int),
        r <= s@.len() || r == pos,
        r >= pos,
{
    let n: usize = s.unicode_len();
    let mut cur: usize = pos;
    while cur < n && s.get_char(cur) != '\n'
        invariant
            n == s@.len(),
            line_end(s@, pos as int) == line_end(s@, cur as int),
            cur >= pos,
            cur <= n || cur == pos,
        decreases n - cur,
    {
        cur += 1;
    }
    cur
}

fn ex_dec_end(s: &str, pos: usize) -> (r: usize)
    ensures
        r as int == dec_end(s@, pos as int),
        r <= s@.len() || r == pos,
        r >= pos,
{
    let n: usize = s.unicode_len();
    let mut cur: usize = pos;
    while cur < n && ch_is_dec(s.get_char(cur))
        invariant
            n == s@.len(),
            dec_end(s@, pos as int) == dec_end(s@, cur as int),
            cur >= pos,
            cur <= n || cur == pos,
        decreases n - cur,
    {
        cur += 1;
    }
    cur
}

fn ex_hex_end(s: &str, pos: usize) -> (r: usize)
    ensures
        r as int == hex_end(s@, pos as int),
        r <= s@.len() || r == pos,
        r >= pos,
{
    let n: usize = s.unicode_len();
    let mut cur: usize = pos;
    while cur < n && ch_is_hex(s.get_char(cur))
        invariant
            n == s@.len(),
            hex_end(s@, pos as int) == hex_end(s@, cur as int),
            cur >= pos,
            cur <= n || cur == pos,
        decreases n - cur,
    {
        cur += 1;
    }
    cur
}

fn ex_oct_end(s: &str, pos: usize) -> (r: usize)
    ensures
        r as int == oct_end(s@, pos as int),
        r <= s@.len() || r == pos,
        r >= pos,
{
    let n: usize = s.unicode_len();
    let mut cur: usize = pos;
    while cur < n && ch_is_oct(s.get_char(cur))
        invariant
            n == s@.len(),
            oct_end(s@, pos as int) == oct_end(s@, cur as int),
            cur >= pos,
            cur <= n || cur == pos,
        decreases n - cur,
    {
        cur += 1;
    }
    cur
}

} // verus!

verus! {

/// A matched production never points past the end of the input.
pub open spec fn pout_in_bounds<T>(r: POut<T>, s: Seq<char>) -> bool {
    match r {
        POut::Got(_, n) => n <= s.len(),
        _ => true,
    }
}

/// A matched production moved forward.
pub open spec fn pout_past<T>(r: POut<T>, pos: int) -> bool {
    match r {
        POut::Got(_, n) => n > pos,
        _ => true,
    }
}

// ---------------------------------------------------------------------------
// Names
// ---------------------------------------------------------------------------
fn ex_blocked(s: &str, pos: usize) -> (b: bool)
    ensures
        b == name_blocked_at(s@, pos as int),
{
    proof {
        lemma_keyword_views();
    }
    let n: usize = s.unicode_len();
    if pos < n {
        let c = s.get_char(pos);
        if ch_is_ws(c) || ch_is_symbol(c) || c == '"' || ch_is_dec(c) {
            return true;
        }
        if (c == '+' || c == '-') && pos + 1 < n && ch_is_dec(s.get_char(pos + 1)) {
            return true;
        }
    }
    ex_lit_at(s, pos, "->") || ex_lit_at(s, pos, "end") || ex_lit_at(s, pos, "recv")
        || ex_lit_at(s, pos, "send") || ex_lit_at(s, pos, "offer") || ex_lit_at(s, pos, "choose")
        || ex_lit_at(s, pos, "channel") || ex_lit_at(s, pos, "struct") || ex_lit_at(s, pos, "enum")
        || ex_lit_at(s, pos, "bool") || ex_lit_at(s, pos, "int") || ex_lit_at(s, pos, "uint")
        || ex_lit_at(s, pos, "float") || ex_lit_at(s, pos, "double") || ex_lit_at(s, pos, "string")
        || ex_lit_at(s, pos, "true") || ex_lit_at(s, pos, "false")
}

fn ex_name_end(s: &str, pos: usize) -> (r: usize)
    ensures
        r as int == name_end(s@, pos as int),
        r <= s@.len() || r == pos,
        r >= pos,
{
    let n: usize = s.unicode_len();
    let mut cur: usize = pos;
    loop
        invariant
            n == s@.len(),
            name_end(s@, pos as int) == name_end(s@, cur as int),
            cur >= pos,
            cur <= n || cur == pos,
        decreases n - cur,
    {
        if cur >= n {
            return cur;
        }
        if ex_blocked(s, cur) {
            return cur;
        }
        cur += 1;
    }
}

/// `name`: a maximal, non-empty run not blocked by keywords, whitespace,
/// symbols or constants.
pub fn name(s: &str, pos: usize) -> (r: POut<String>)
    ensures
        r@ == sp_name(s@, pos as int),
        pout_in_bounds(r, s@),
{
    let e: usize = ex_name_end(s, pos);
    if e > pos {
        POut::Got(s.substring_char(pos, e).to_owned(), e)
    } else {
        POut::Miss
    }
}

// ---------------------------------------------------------------------------
// Numbers
// ---------------------------------------------------------------------------
fn ex_digit_val(c: char, base: u64) -> (v: u64)
    requires
        base == 16 ==> is_hex_digit(c),
        base != 16 ==> is_dec_digit(c),
    ensures
        base == 16 ==> v as nat == hex_digit_val(c),
        base != 16 ==> v as nat == dec_digit_val(c),
        v < 16,
{
    let u = c as u32;
    if base == 16 && !('0' <= c && c <= '9') {
        if 'a' <= c && c <= 'f' {
            ((u - 97 + 10) as u64)
        } else {
            ((u - 65 + 10) as u64)
        }
    } else {
        ((u - 48) as u64)
    }
}

/// Value of the digit run `s[start..e]`, or `None` past `u64::MAX`.
fn ex_accum(s: &str, start: usize, e: usize, base: u64) -> (r: Option<u64>)
    requires
        start <= e <= s@.len(),
        base == 10 || base == 16 || base == 8,
        forall|k: int|
            start <= k < e ==> (if base == 16 {
                is_hex_digit(s@[k])
            } else {
                is_dec_digit(s@[k])
            }),
    ensures
        match r {
            Some(v) => v as nat == digits_val(s@, start as int, e as int, base as nat),
            None => digits_val(s@, start as int, e as int, base as nat) > u64::MAX,
        },
{
    let mut acc: u64 = 0;
    let mut i: usize = start;
    while i < e
        invariant
            start <= i <= e <= s@.len(),
            base == 10 || base == 16 || base == 8,
            forall|k: int|
                start <= k < e ==> (if base == 16 {
                    is_hex_digit(s@[k])
                } else {
                    is_dec_digit(s@[k])
                }),
            acc as nat == digits_val(s@, start as int, i as int, base as nat),
        decreases e - i,
    {
        let d = ex_digit_val(s.get_char(i), base);
        let stepped = match acc.checked_mul(base) {
            Some(m) => m.checked_add(d),
            None => None,
        };
        proof {
            assert(digits_val(s@, start as int, i + 1 as int, base as nat) == digits_val(
                s@,
                start as int,
                i as int,
                base as nat,
            ) * (base as nat) + (if base == 16 {
                hex_digit_val(s@[i as int])
            } else {
                dec_digit_val(s@[i as int])
            }));
        }
        match stepped {
            Some(v) => {
                acc = v;
            },
            None => {
                proof {
                    lemma_digits_val_mono(s@, start as int, i + 1, e as int, base as nat);
                }
                return None;
            },
        }
        i += 1;
    }
    Some(acc)
}

/// `number`: hex with `0x`, octal with `0o`, else decimal.
pub fn number(s: &str, pos: usize) -> (r: POut<u64>)
    ensures
        r@ == sp_number(s@, pos as int),
        pout_in_bounds(r, s@),
        pout_past(r, pos as int),
{
    proof {
        lemma_keyword_views();
    }
    let n: usize = s.unicode_len();
    if ex_lit_at(s, pos, "0x") && pos + 2 < n && ch_is_hex(s.get_char(pos + 2)) {
        let e: usize = ex_hex_end(s, pos + 2);
        proof {
            lemma_hex_end_digits(s@, pos + 2 as int);
        }
        match ex_accum(s, pos + 2, e, 16) {
            Some(v) => POut::Got(v, e),
            None => POut::Miss,
        }
    } else if ex_lit_at(s, pos, "0o") && pos + 2 < n && ch_is_oct(s.get_char(pos + 2)) {
        let e: usize = ex_oct_end(s, pos + 2);
        proof {
            lemma_oct_end_digits(s@, pos + 2 as int);
            assert(forall|k: int| pos + 2 <= k < e ==> is_dec_digit(s@[k]));
        }
        match ex_accum(s, pos + 2, e, 8) {
            Some(v) => POut::Got(v, e),
            None => POut::Miss,
        }
    } else if pos < n && ch_is_dec(s.get_char(pos)) {
        let e: usize = ex_dec_end(s, pos);
        proof {
            lemma_dec_end_digits(s@, pos as int);
            assert(dec_end(s@, pos as int) == dec_end(s@, pos + 1));
            lemma_dec_end_bounds(s@, pos + 1);
        }
        match ex_accum(s, pos, e, 10) {
            Some(v) => POut::Got(v, e),
            None => POut::Miss,
        }
    } else {
        POut::Miss
    }
}

/// `uint_lit`: an unsigned number.
pub fn uint_lit(s: &str, pos: usize) -> (r: POut<u64>)
    ensures
        r@ == sp_uint(s@, pos as int),
        pout_in_bounds(r, s@),
        pout_past(r, pos as int),
{
    number(s, pos)
}

/// `int_lit`: a number with an explicit sign, within `i64` range.
pub fn int_lit(s: &str, pos: usize) -> (r: POut<i64>)
    ensures
        r@ == sp_int(s@, pos as int),
        pout_in_bounds(r, s@),
{
    let n: usize = s.unicode_len();
    if pos < n {
        let c = s.get_char(pos);
        if c == '+' || c == '-' {
            let neg = c == '-';
            match number(s, pos + 1) {
                POut::Got(v, e) => {
                    if neg {
                        if v <= 0x8000_0000_0000_0000u64 {
                            if v == 0x8000_0000_0000_0000u64 {
                                POut::Got(i64::MIN, e)
                            } else {
                                POut::Got(-(v as i64), e)
                            }
                        } else {
                            POut::Miss
                        }
                    } else {
                        if v <= 0x7FFF_FFFF_FFFF_FFFFu64 {
                            POut::Got(v as i64, e)
                        } else {
                            POut::Miss
                        }
                    }
                },
                _ => POut::Miss,
            }
        } else {
            POut::Miss
        }
    } else {
        POut::Miss
    }
}

/// `double_lit`: sign, decimal digits, a dot, decimal digits, all kept as
/// written.
pub fn double_lit(s: &str, pos: usize) -> (r: POut<FloatLit>)
    ensures
        r@ == sp_double(s@, pos as int),
        pout_in_bounds(r, s@),
{
    let n: usize = s.unicode_len();
    if pos < n {
        let c = s.get_char(pos);
        if c == '+' || c == '-' {
            let neg = c == '-';
            let d1: usize = ex_dec_end(s, pos + 1);
            if d1 > pos + 1 && d1 < n && s.get_char(d1) == '.' {
                let d2: usize = ex_dec_end(s, d1 + 1);
                if d2 > d1 + 1 {
                    POut::Got(
                        FloatLit {
                            neg,
                            whole: s.substring_char(pos + 1, d1).to_owned(),
                            frac: s.substring_char(d1 + 1, d2).to_owned(),
                        },
                        d2,
                    )
                } else {
                    POut::Miss
                }
            } else {
                POut::Miss
            }
        } else {
            POut::Miss
        }
    } else {
        POut::Miss
    }
}

} // verus!

verus! {

// ---------------------------------------------------------------------------
// Remaining literal parsers
// ---------------------------------------------------------------------------
/// `number_hex`: hex digits after a `0x` prefix.
pub fn number_hex(s: &str, pos: usize) -> (r: POut<u64>)
    ensures
        r@ == sp_number_hex(s@, pos as int),
        pout_in_bounds(r, s@),
        pout_past(r, pos as int),
{
    proof {
        lemma_keyword_views();
    }
    let n: usize = s.unicode_len();
    if ex_lit_at(s, pos, "0x") && pos + 2 < n && ch_is_hex(s.get_char(pos + 2)) {
        let e: usize = ex_hex_end(s, pos + 2);
        proof {
            lemma_hex_end_digits(s@, pos + 2 as int);
        }
        match ex_accum(s, pos + 2, e, 16) {
            Some(v) => POut::Got(v, e),
            None => POut::Miss,
        }
    } else {
        POut::Miss
    }
}

/// `number_oct`: octal digits after a `0o` prefix.
pub fn number_oct(s: &str, pos: usize) -> (r: POut<u64>)
    ensures
        r@ == sp_number_oct(s@, pos as int),
        pout_in_bounds(r, s@),
        pout_past(r, pos as int),
{
    proof {
        lemma_keyword_views();
    }
    let n: usize = s.unicode_len();
    if ex_lit_at(s, pos, "0o") && pos + 2 < n && ch_is_oct(s.get_char(pos + 2)) {
        let e: usize = ex_oct_end(s, pos + 2);
        proof {
            lemma_oct_end_digits(s@, pos + 2 as int);
            assert(forall|k: int| pos + 2 <= k < e ==> is_dec_digit(s@[k]));
        }
        match ex_accum(s, pos + 2, e, 8) {
            Some(v) => POut::Got(v, e),
            None => POut::Miss,
        }
    } else {
        POut::Miss
    }
}

/// `number_dec`: decimal digits.
pub fn number_dec(s: &str, pos: usize) -> (r: POut<u64>)
    ensures
        r@ == sp_number_dec(s@, pos as int),
        pout_in_bounds(r, s@),
        pout_past(r, pos as int),
{
    let n: usize = s.unicode_len();
    if pos < n && ch_is_dec(s.get_char(pos)) {
        let e: usize = ex_dec_end(s, pos);
        proof {
            lemma_dec_end_digits(s@, pos as int);
            assert(dec_end(s@, pos as int) == dec_end(s@, pos + 1));
            lemma_dec_end_bounds(s@, pos + 1);
        }
        match ex_accum(s, pos, e, 10) {
            Some(v) => POut::Got(v, e),
            None => POut::Miss,
        }
    } else {
        POut::Miss
    }
}

/// `signed_number`: the text of a sign followed by a number.
pub fn signed_number(s: &str, pos: usize) -> (r: POut<String>)
    ensures
        r@ == sp_signed_number(s@, pos as int),
        pout_in_bounds(r, s@),
{
    let n: usize = s.unicode_len();
    if pos < n {
        let c = s.get_char(pos);
        if c == '+' || c == '-' {
            match number(s, pos + 1) {
                POut::Got(_, e) => {
                    POut::Got(s.substring_char(pos, e).to_owned(), e)
                },
                _ => POut::Miss,
            }
        } else {
            POut::Miss
        }
    } else {
        POut::Miss
    }
}

/// `parse_str`: the body of a string literal, after the opening quote;
/// consumes the closing quote. Unterminated text or a bad escape fails
/// the whole parse.
pub fn parse_str(s: &str, pos: usize) -> (r: POut<String>)
    ensures
        r@ == sp_str_body(s@, pos as int),
        pout_in_bounds(r, s@),
{
    let n: usize = s.unicode_len();
    let mut acc = String::new();
    let mut cur: usize = pos;
    loop
        invariant
            n == s@.len(),
            cur >= pos,
            sp_str_body(s@, pos as int) == (match sp_str_body(s@, cur as int) {
                SpOut::Got(t, e) => SpOut::Got(acc@ + t, e),
                SpOut::Miss => SpOut::Miss,
                SpOut::Fail(at, exp) => SpOut::Fail(at, exp),
            }),
        decreases n - cur,
    {
        if cur >= n {
            return POut::Fail(cur, Expected::CloseQuote);
        }
        let c = s.get_char(cur);
        if c == '"' {
            proof {
                assert(acc@ + Seq::<char>::empty() =~= acc@);
            }
            return POut::Got(acc, cur + 1);
        }
        if c == '\\' {
            if cur + 1 < n {
                let ghost acc0: Seq<char> = acc@;
                let c2 = s.get_char(cur + 1);
                if c2 == '\\' {
                    acc.append("\\");
                    proof {
                        reveal_strlit("\\");
                        assert("\\"@ =~= seq!['\\']);
                    }
                } else if c2 == '"' {
                    acc.append("\"");
                    proof {
                        reveal_strlit("\"");
                        assert("\""@ =~= seq!['"']);
                    }
                } else if c2 == 'n' {
                    acc.append("\n");
                    proof {
                        reveal_strlit("\n");
                        assert("\n"@ =~= seq!['\n']);
                    }
                } else if c2 == 'r' {
                    acc.append("\r");
                    proof {
                        reveal_strlit("\r");
                        assert("\r"@ =~= seq!['\r']);
                    }
                } else if c2 == 't' {
                    acc.append("\t");
                    proof {
                        reveal_strlit("\t");
                        assert("\t"@ =~= seq!['\t']);
                    }
                } else {
                    return POut::Fail(cur, Expected::Escape);
                }
                proof {
                    let m: char = if s@[cur + 1] == '\\' {
                        '\\'
                    } else if s@[cur + 1] == '"' {
                        '"'
                    } else if s@[cur + 1] == 'n' {
                        '\n'
                    } else if s@[cur + 1] == 'r' {
                        '\r'
                    } else {
                        '\t'
                    };
                    assert(acc@ == acc0 + seq![m]);
                    assert forall|t: Seq<char>| true implies (acc0 + (seq![m] + t)) =~= (acc@
                        + t) by {}
                }
                cur += 2;
            } else {
                return POut::Fail(cur, Expected::Escape);
            }
        } else {
            let ghost acc0: Seq<char> = acc@;
            let one = s.substring_char(cur, cur + 1);
            acc.append(one);
            proof {
                assert(one@ =~= seq![s@[cur as int]]);
                assert(acc@ == acc0 + seq![s@[cur as int]]);
                assert forall|t: Seq<char>| true implies (acc0 + (seq![s@[cur as int]] + t)) =~= (
                acc@ + t) by {}
            }
            cur += 1;
        }
    }
}

/// `string_lit`: a double-quoted, escaped string.
pub fn string_lit(s: &str, pos: usize) -> (r: POut<String>)
    ensures
        r@ == sp_string(s@, pos as int),
        pout_in_bounds(r, s@),
{
    let n: usize = s.unicode_len();
    if pos < n && s.get_char(pos) == '"' {
        parse_str(s, pos + 1)
    } else {
        POut::Miss
    }
}

/// `true_lit`: the keyword `true`, as a prefix.
pub fn true_lit(s: &str, pos: usize) -> (r: POut<bool>)
    ensures
        (r matches POut::Got(v, e) ==> v == true && lit_at(s@, pos as int, kw_true()) && e == pos
            + 4),
        (r is Miss <==> !lit_at(s@, pos as int, kw_true())),
        !(r is Fail),
        pout_in_bounds(r, s@),
{
    proof {
        lemma_token_lens();
        lemma_keyword_views();
    }
    if ex_lit_at(s, pos, "true") {
        POut::Got(true, pos + 4)
    } else {
        POut::Miss
    }
}

/// `false_lit`: the keyword `false`, as a prefix.
pub fn false_lit(s: &str, pos: usize) -> (r: POut<bool>)
    ensures
        (r matches POut::Got(v, e) ==> v == false && lit_at(s@, pos as int, kw_false()) && e == pos
            + 5),
        (r is Miss <==> !lit_at(s@, pos as int, kw_false())),
        !(r is Fail),
        pout_in_bounds(r, s@),
{
    proof {
        lemma_token_lens();
        lemma_keyword_views();
    }
    if ex_lit_at(s, pos, "false") {
        POut::Got(false, pos + 5)
    } else {
        POut::Miss
    }
}

/// `bool_lit`: `true` or `false`.
pub fn bool_lit(s: &str, pos: usize) -> (r: POut<bool>)
    ensures
        r@ == sp_bool(s@, pos as int),
        pout_in_bounds(r, s@),
{
    proof {
        lemma_keyword_views();
    }
    match true_lit(s, pos) {
        POut::Got(v, e) => POut::Got(v, e),
        _ => match false_lit(s, pos) {
            POut::Got(v, e) => POut::Got(v, e),
            _ => POut::Miss,
        },
    }
}

/// `constant`: string, float, signed int, unsigned int or boolean.
pub fn constant(s: &str, pos: usize) -> (r: POut<Constant>)
    ensures
        r@ == sp_constant(s@, pos as int),
        pout_in_bounds(r, s@),
{
    match string_lit(s, pos) {
        POut::Got(v, e) => POut::Got(Constant::String(v), e),
        POut::Fail(at, exp) => POut::Fail(at, exp),
        POut::Miss => match double_lit(s, pos) {
            POut::Got(v, e) => POut::Got(Constant::Float(v), e),
            _ => match int_lit(s, pos) {
                POut::Got(v, e) => POut::Got(Constant::Int(v), e),
                _ => match uint_lit(s, pos) {
                    POut::Got(v, e) => POut::Got(Constant::Uint(v), e),
                    _ => match bool_lit(s, pos) {
                        POut::Got(v, e) => POut::Got(Constant::Bool(v), e),
                        _ => POut::Miss,
                    },
                },
            },
        },
    }
}

/// `simple_type`: one of the six scalar keywords.
pub fn simple_type(s: &str, pos: usize) -> (r: POut<SimpleType>)
    ensures
        r@ == sp_simple_type(s@, pos as int),
        pout_in_bounds(r, s@),
{
    proof {
        lemma_token_lens();
        lemma_keyword_views();
    }
    if ex_lit_at(s, pos, "bool") {
        POut::Got(SimpleType::Bool, pos + 4)
    } else if ex_lit_at(s, pos, "int") {
        POut::Got(SimpleType::Int, pos + 3)
    } else if ex_lit_at(s, pos, "uint") {
        POut::Got(SimpleType::Uint, pos + 4)
    } else if ex_lit_at(s, pos, "float") {
        POut::Got(SimpleType::Float, pos + 5)
    } else if ex_lit_at(s, pos, "double") {
        POut::Got(SimpleType::Double, pos + 6)
    } else if ex_lit_at(s, pos, "string") {
        POut::Got(SimpleType::String, pos + 6)
    } else {
        POut::Miss
    }
}

} // verus!

verus! {

// ---------------------------------------------------------------------------
// Comments, annotations, appends
// ---------------------------------------------------------------------------
/// `docu_comment`: `///` to the end of the line, marker kept.
pub fn docu_comment(s: &str, pos: usize) -> (r: POut<String>)
    ensures
        r@ == sp_docu_comment(s@, pos as int),
        pout_in_bounds(r, s@),
{
    proof {
        lemma_keyword_views();
        lemma_token_lens();
    }
    if ex_lit_at(s, pos, "///") {
        let n: usize = s.unicode_len();
        let e: usize = ex_line_end(s, pos);
        let text = s.substring_char(pos, e).to_owned();
        if e < n {
            POut::Got(text, e + 1)
        } else {
            POut::Got(text, e)
        }
    } else {
        POut::Miss
    }
}

/// `line_comment`: `//` to the end of the line, marker kept.
pub fn line_comment(s: &str, pos: usize) -> (r: POut<String>)
    ensures
        r@ == sp_line_comment(s@, pos as int),
        pout_in_bounds(r, s@),
{
    proof {
        lemma_keyword_views();
        lemma_token_lens();
    }
    if ex_lit_at(s, pos, "//") {
        let n: usize = s.unicode_len();
        let e: usize = ex_line_end(s, pos);
        let text = s.substring_char(pos, e).to_owned();
        if e < n {
            POut::Got(text, e + 1)
        } else {
            POut::Got(text, e)
        }
    } else {
        POut::Miss
    }
}

/// `annotation_body`: a name, optionally `= constant`; a bare name means
/// the value `true`.
pub fn annotation_body(s: &str, pos: usize) -> (r: POut<Annotation>)
    ensures
        r@ == sp_annotation_body(s@, pos as int),
        pout_in_bounds(r, s@),
{
    let n: usize = s.unicode_len();
    match name(s, pos) {
        POut::Miss => POut::Miss,
        POut::Fail(at, exp) => POut::Fail(at, exp),
        POut::Got(nm, p3) => {
            let p4: usize = ws(s, p3);
            if p4 < n && s.get_char(p4) == '=' {
                let p5: usize = ws(s, p4 + 1);
                match constant(s, p5) {
                    POut::Got(c, p6) => POut::Got(Annotation(nm, c), p6),
                    POut::Fail(at, exp) => POut::Fail(at, exp),
                    POut::Miss => POut::Got(Annotation(nm, Constant::Bool(true)), p3),
                }
            } else {
                POut::Got(Annotation(nm, Constant::Bool(true)), p3)
            }
        },
    }
}

/// `annotation`: `#[ ... ]`. The `#` commits.
pub fn annotation(s: &str, pos: usize) -> (r: POut<Annotation>)
    ensures
        r@ == sp_annotation(s@, pos as int),
        pout_in_bounds(r, s@),
{
    let n: usize = s.unicode_len();
    if !(pos < n && s.get_char(pos) == '#') {
        return POut::Miss;
    }
    let p1: usize = ws(s, pos + 1);
    if !(p1 < n && s.get_char(p1) == '[') {
        return POut::Fail(p1, Expected::OpenBracket);
    }
    let p2: usize = ws(s, p1 + 1);
    match annotation_body(s, p2) {
        POut::Miss => POut::Fail(p2, Expected::Name),
        POut::Fail(at, exp) => POut::Fail(at, exp),
        POut::Got(a, p) => {
            let p7: usize = ws(s, p);
            if p7 < n && s.get_char(p7) == ']' {
                POut::Got(a, p7 + 1)
            } else {
                POut::Fail(p7, Expected::CloseBracket)
            }
        },
    }
}

/// `append`: a doc comment, a line comment, or an annotation.
pub fn append(s: &str, pos: usize) -> (r: POut<Append>)
    ensures
        r@ == sp_append_at(s@, pos as int),
        pout_in_bounds(r, s@),
{
    match docu_comment(s, pos) {
        POut::Got(t, e) => POut::Got(Append::DocsComment(t), e),
        _ => match line_comment(s, pos) {
            POut::Got(t, e) => POut::Got(Append::LineComment(t), e),
            _ => match annotation(s, pos) {
                POut::Got(a, e) => POut::Got(Append::Annotation(a), e),
                POut::Fail(at, exp) => POut::Fail(at, exp),
                POut::Miss => POut::Miss,
            },
        },
    }
}

/// Zero or more appends, each preceded by skippable whitespace.
fn p_appends(s: &str, pos: usize) -> (r: POut<Vec<Append>>)
    ensures
        (match r {
            POut::Got(v, nn) => sp_appends(s@, pos as int, Seq::empty()) == SpOut::Got(
                view_appends(v@),
                nn as int,
            ),
            POut::Miss => sp_appends(s@, pos as int, Seq::empty()) is Miss,
            POut::Fail(at, exp) => sp_appends(s@, pos as int, Seq::empty())
                == SpOut::<Seq<SpecAppend>>::Fail(at as int, exp),
        }),
        pout_in_bounds(r, s@) || (r matches POut::Got(_, nn) && nn == pos),
{
    let n: usize = s.unicode_len();
    let mut acc: Vec<Append> = Vec::new();
    let mut cur: usize = pos;
    loop
        invariant
            n == s@.len(),
            cur <= n || cur == pos,
            sp_appends(s@, pos as int, Seq::empty()) == sp_appends(
                s@,
                cur as int,
                view_appends(acc@),
            ),
        decreases n - cur,
    {
        let p: usize = ws(s, cur);
        match append(s, p) {
            POut::Miss => {
                return POut::Got(acc, cur);
            },
            POut::Fail(at, exp) => {
                return POut::Fail(at, exp);
            },
            POut::Got(a, p2) => {
                proof {
                    lemma_view_appends_push(acc@, a);
                }
                if p2 <= cur || p2 > n {
                    acc.push(a);
                    return POut::Got(acc, p2);
                }
                acc.push(a);
                cur = p2;
            },
        }
    }
}

} // verus!

verus! {

// ---------------------------------------------------------------------------
// Session types and type references
// ---------------------------------------------------------------------------
/// `session`: one session step, decided and committed by its keyword.
#[verifier::rlimit(60)]
pub fn session(s: &str, pos: usize) -> (r: POut<Session>)
    ensures
        r@ == sp_session(s@, pos as int),
        pout_in_bounds(r, s@),
    decreases s@.len() - pos, 0int,
{
    proof {
        lemma_keyword_views();
        lemma_token_lens();
    }
    let n: usize = s.unicode_len();
    if ex_lit_at(s, pos, "end") {
        POut::Got(Session::Endpoint, pos + 3)
    } else if ex_lit_at(s, pos, "offer") {
        match session_union(s, pos + 5) {
            POut::Got(u, e) => POut::Got(Session::Offer(u), e),
            POut::Fail(at, exp) => POut::Fail(at, exp),
            POut::Miss => POut::Miss,
        }
    } else if ex_lit_at(s, pos, "choose") {
        match session_union(s, pos + 6) {
            POut::Got(u, e) => POut::Got(Session::Choose(u), e),
            POut::Fail(at, exp) => POut::Fail(at, exp),
            POut::Miss => POut::Miss,
        }
    } else if ex_lit_at(s, pos, "recv") {
        let p: usize = ws(s, pos + 4);
        if p < pos + 4 || p > n {
            POut::Fail(p, Expected::TypeRef)
        } else {
            match type_or_name(s, p) {
                POut::Got(t, e) => POut::Got(Session::Recv(t), e),
                POut::Fail(at, exp) => POut::Fail(at, exp),
                POut::Miss => POut::Fail(p, Expected::TypeRef),
            }
        }
    } else if ex_lit_at(s, pos, "send") {
        let p: usize = ws(s, pos + 4);
        if p < pos + 4 || p > n {
            POut::Fail(p, Expected::TypeRef)
        } else {
            match type_or_name(s, p) {
                POut::Got(t, e) => POut::Got(Session::Send(t), e),
                POut::Fail(at, exp) => POut::Fail(at, exp),
                POut::Miss => POut::Fail(p, Expected::TypeRef),
            }
        }
    } else {
        POut::Miss
    }
}

/// Further `-> step` tails after the first step.
fn p_steps(s: &str, pos: usize, acc: Vec<Macro<Session>>) -> (r: POut<Vec<Macro<Session>>>)
    requires
        pos <= s@.len(),
    ensures
        (match r {
            POut::Got(v, e) => sp_steps(s@, pos as int, view_steps(acc@)) == SpOut::Got(
                view_steps(v@),
                e as int,
            ) && e <= s@.len(),
            POut::Miss => sp_steps(s@, pos as int, view_steps(acc@)) is Miss,
            POut::Fail(at, exp) => sp_steps(s@, pos as int, view_steps(acc@))
                == SpOut::<Seq<SpecMacro<SpecSession>>>::Fail(at as int, exp),
        }),
    decreases s@.len() - pos, 0int,
{
    proof {
        lemma_keyword_views();
        lemma_token_lens();
    }
    let n: usize = s.unicode_len();
    let p: usize = ws(s, pos);
    if ex_lit_at(s, p, "->") {
        match p_appends(s, p + 2) {
            POut::Fail(at, exp) => POut::Fail(at, exp),
            POut::Miss => POut::Got(acc, pos),
            POut::Got(apps, q1) => {
                let q2: usize = ws(s, q1);
                if q2 <= pos || q2 > n {
                    return POut::Fail(q2, Expected::SessionStep);
                }
                match session(s, q2) {
                    POut::Miss => POut::Fail(q2, Expected::SessionStep),
                    POut::Fail(at, exp) => POut::Fail(at, exp),
                    POut::Got(st2, q3) => {
                        let m = Macro { appends: apps, body: Box::new(st2) };
                        proof {
                            lemma_view_steps_push(acc@, m);
                        }
                        let mut acc2 = acc;
                        acc2.push(m);
                        if q3 <= pos || q3 > n {
                            return POut::Got(acc2, q3);
                        }
                        p_steps(s, q3, acc2)
                    },
                }
            },
        }
    } else {
        POut::Got(acc, pos)
    }
}

/// `session_type`: one or more annotated steps separated by `->`.
pub fn session_type(s: &str, pos: usize) -> (r: POut<SessionType>)
    ensures
        r@ == sp_session_type(s@, pos as int),
        pout_in_bounds(r, s@),
    decreases s@.len() - pos, 1int,
{
    let n: usize = s.unicode_len();
    match p_appends(s, pos) {
        POut::Fail(at, exp) => POut::Fail(at, exp),
        POut::Miss => POut::Miss,
        POut::Got(apps, p1) => {
            let p2: usize = ws(s, p1);
            if p2 < pos || p2 > n {
                return POut::Miss;
            }
            match session(s, p2) {
                POut::Miss => POut::Miss,
                POut::Fail(at, exp) => POut::Fail(at, exp),
                POut::Got(st, p3) => {
                    let m0 = Macro { appends: apps, body: Box::new(st) };
                    let mut steps: Vec<Macro<Session>> = Vec::new();
                    proof {
                        lemma_view_steps_push(steps@, m0);
                        assert(view_steps(Seq::<Macro<Session>>::empty())
                            =~= Seq::<SpecMacro<SpecSession>>::empty());
                        assert(Seq::<SpecMacro<SpecSession>>::empty().push(view_step_macro(m0))
                            =~= seq![view_step_macro(m0)]);
                    }
                    steps.push(m0);
                    if p3 <= pos || p3 > n {
                        return POut::Got(SessionType(steps), p3);
                    }
                    match p_steps(s, p3, steps) {
                        POut::Got(v, e) => POut::Got(SessionType(v), e),
                        POut::Fail(at, exp) => POut::Fail(at, exp),
                        POut::Miss => POut::Miss,
                    }
                },
            }
        },
    }
}

/// Branches three to ten of a union.
fn p_union_more(s: &str, pos: usize, acc: Vec<SessionOrName>) -> (r: POut<Vec<SessionOrName>>)
    requires
        pos <= s@.len(),
    ensures
        (match r {
            POut::Got(v, e) => sp_union_more(s@, pos as int, view_branches(acc@)) == SpOut::Got(
                view_branches(v@),
                e as int,
            ) && e <= s@.len(),
            POut::Miss => sp_union_more(s@, pos as int, view_branches(acc@)) is Miss,
            POut::Fail(at, exp) => sp_union_more(s@, pos as int, view_branches(acc@))
                == SpOut::<Seq<SpecSessionOrName>>::Fail(at as int, exp),
        }),
    decreases s@.len() - pos, 0int,
{
    let n: usize = s.unicode_len();
    proof {
        lemma_view_branches_len(acc@);
    }
    if acc.len() >= 10 {
        return POut::Got(acc, pos);
    }
    let p: usize = ws(s, pos);
    if p < n && s.get_char(p) == '|' {
        let p2: usize = ws(s, p + 1);
        if p2 <= pos || p2 > n {
            return POut::Fail(p2, Expected::UnionBranch);
        }
        match session_or_name(s, p2) {
            POut::Miss => POut::Fail(p2, Expected::UnionBranch),
            POut::Fail(at, exp) => POut::Fail(at, exp),
            POut::Got(b, p3) => {
                proof {
                    lemma_view_branches_push(acc@, b);
                }
                let mut acc2 = acc;
                acc2.push(b);
                if p3 <= pos || p3 > n {
                    return POut::Got(acc2, p3);
                }
                p_union_more(s, p3, acc2)
            },
        }
    } else {
        POut::Got(acc, pos)
    }
}

/// `session_union`: two to ten `|`-introduced branches after `offer` or
/// `choose`.
pub fn session_union(s: &str, pos: usize) -> (r: POut<SessionUnion>)
    ensures
        r@ == sp_session_union(s@, pos as int),
        pout_in_bounds(r, s@),
    decreases s@.len() - pos, 0int,
{
    let n: usize = s.unicode_len();
    let p: usize = ws(s, pos);
    if !(p < n && s.get_char(p) == '|') {
        return POut::Fail(p, Expected::UnionBranch);
    }
    let p2: usize = ws(s, p + 1);
    if p2 <= pos || p2 > n {
        return POut::Fail(p2, Expected::UnionBranch);
    }
    match session_or_name(s, p2) {
        POut::Miss => POut::Fail(p2, Expected::UnionBranch),
        POut::Fail(at, exp) => POut::Fail(at, exp),
        POut::Got(b1, p3) => {
            let q: usize = ws(s, p3);
            if !(q < n && s.get_char(q) == '|') {
                return POut::Fail(q, Expected::UnionBranch);
            }
            let q2: usize = ws(s, q + 1);
            if q2 <= pos || q2 > n {
                return POut::Fail(q2, Expected::UnionBranch);
            }
            match session_or_name(s, q2) {
                POut::Miss => POut::Fail(q2, Expected::UnionBranch),
                POut::Fail(at, exp) => POut::Fail(at, exp),
                POut::Got(b2, q3) => {
                    let ghost two: Seq<SpecSessionOrName> = seq![b1@, b2@];
                    let mut branches: Vec<SessionOrName> = Vec::new();
                    proof {
                        lemma_view_branches_push(branches@, b1);
                    }
                    branches.push(b1);
                    proof {
                        lemma_view_branches_push(branches@, b2);
                    }
                    branches.push(b2);
                    proof {
                        assert(view_branches(branches@) =~= two);
                    }
                    if q3 <= pos || q3 > n {
                        return POut::Got(SessionUnion(branches), q3);
                    }
                    match p_union_more(s, q3, branches) {
                        POut::Got(v, e) => POut::Got(SessionUnion(v), e),
                        POut::Fail(at, exp) => POut::Fail(at, exp),
                        POut::Miss => POut::Miss,
                    }
                },
            }
        },
    }
}

/// `session_or_name`: an inline session type, or a bare session name.
pub fn session_or_name(s: &str, pos: usize) -> (r: POut<SessionOrName>)
    ensures
        r@ == sp_session_or_name(s@, pos as int),
        pout_in_bounds(r, s@),
    decreases s@.len() - pos, 3int,
{
    match session_type(s, pos) {
        POut::Got(t, e) => POut::Got(SessionOrName::Session(Box::new(t)), e),
        POut::Fail(at, exp) => POut::Fail(at, exp),
        POut::Miss => match name(s, pos) {
            POut::Got(nm, e) => POut::Got(SessionOrName::Name(nm), e),
            _ => POut::Miss,
        },
    }
}

/// `_type`: an inline type literal.
pub fn _type(s: &str, pos: usize) -> (r: POut<Type>)
    ensures
        r@ == sp_type(s@, pos as int),
        pout_in_bounds(r, s@),
    decreases s@.len() - pos, 2int,
{
    match session_type(s, pos) {
        POut::Got(t, e) => POut::Got(Type::SessionType(t), e),
        POut::Fail(at, exp) => POut::Fail(at, exp),
        POut::Miss => match simple_type(s, pos) {
            POut::Got(t, e) => POut::Got(Type::SimpleType(t), e),
            _ => match constant(s, pos) {
                POut::Got(c, e) => POut::Got(Type::Constant(c), e),
                POut::Fail(at, exp) => POut::Fail(at, exp),
                POut::Miss => POut::Miss,
            },
        },
    }
}

/// `type_or_name`: an inline type literal, or a bare identifier.
pub fn type_or_name(s: &str, pos: usize) -> (r: POut<TypeOrName>)
    ensures
        r@ == sp_type_or_name(s@, pos as int),
        pout_in_bounds(r, s@),
    decreases s@.len() - pos, 3int,
{
    match _type(s, pos) {
        POut::Got(t, e) => POut::Got(TypeOrName::Type(Box::new(t)), e),
        POut::Fail(at, exp) => POut::Fail(at, exp),
        POut::Miss => match name(s, pos) {
            POut::Got(nm, e) => POut::Got(TypeOrName::Name(nm), e),
            _ => POut::Miss,
        },
    }
}

} // verus!

verus! {

// ---------------------------------------------------------------------------
// Struct and enum bodies
// ---------------------------------------------------------------------------
/// `struct_item`: `name : type-or-name (= uint)?`.
pub fn struct_item(s: &str, pos: usize) -> (r: POut<StructItem>)
    ensures
        r@ == sp_struct_item(s@, pos as int),
        pout_in_bounds(r, s@),
{
    let n: usize = s.unicode_len();
    match name(s, pos) {
        POut::Miss => POut::Miss,
        POut::Fail(at, exp) => POut::Fail(at, exp),
        POut::Got(nm, p1) => {
            let p2: usize = ws(s, p1);
            if !(p2 < n && s.get_char(p2) == ':') {
                return POut::Fail(p2, Expected::Colon);
            }
            let p3: usize = ws(s, p2 + 1);
            match type_or_name(s, p3) {
                POut::Miss => POut::Fail(p3, Expected::TypeRef),
                POut::Fail(at, exp) => POut::Fail(at, exp),
                POut::Got(t, p4) => {
                    let p5: usize = ws(s, p4);
                    if p5 < n && s.get_char(p5) == '=' {
                        let p6: usize = ws(s, p5 + 1);
                        match uint_lit(s, p6) {
                            POut::Got(v, p7) => POut::Got(StructItem(nm, t, Some(v)), p7),
                            _ => POut::Fail(p6, Expected::Unsigned),
                        }
                    } else {
                        POut::Got(StructItem(nm, t, None), p4)
                    }
                },
            }
        },
    }
}

/// `enum_item`: `name ( type-or-name ) (= uint)?`.
pub fn enum_item(s: &str, pos: usize) -> (r: POut<EnumItem>)
    ensures
        r@ == sp_enum_item(s@, pos as int),
        pout_in_bounds(r, s@),
{
    let n: usize = s.unicode_len();
    match name(s, pos) {
        POut::Miss => POut::Miss,
        POut::Fail(at, exp) => POut::Fail(at, exp),
        POut::Got(nm, p1) => {
            let p2: usize = ws(s, p1);
            if !(p2 < n && s.get_char(p2) == '(') {
                return POut::Fail(p2, Expected::OpenParen);
            }
            let p3: usize = ws(s, p2 + 1);
            match type_or_name(s, p3) {
                POut::Miss => POut::Fail(p3, Expected::TypeRef),
                POut::Fail(at, exp) => POut::Fail(at, exp),
                POut::Got(t, p4) => {
                    let p5: usize = ws(s, p4);
                    if !(p5 < n && s.get_char(p5) == ')') {
                        return POut::Fail(p5, Expected::CloseParen);
                    }
                    let q: usize = ws(s, p5 + 1);
                    if q < n && s.get_char(q) == '=' {
                        let q2: usize = ws(s, q + 1);
                        match uint_lit(s, q2) {
                            POut::Got(v, q3) => POut::Got(EnumItem(nm, t, Some(v)), q3),
                            _ => POut::Fail(q2, Expected::Unsigned),
                        }
                    } else {
                        POut::Got(EnumItem(nm, t, None), p5 + 1)
                    }
                },
            }
        },
    }
}

/// The items of a struct body, after the opening brace.
fn p_struct_items(s: &str, pos: usize, acc: Vec<Macro<StructItem>>) -> (r: POut<
    Vec<Macro<StructItem>>,
>)
    requires
        pos <= s@.len(),
    ensures
        (match r {
            POut::Got(v, e) => sp_struct_items(s@, pos as int, view_struct_items(acc@))
                == SpOut::Got(view_struct_items(v@), e as int) && e <= s@.len(),
            POut::Miss => sp_struct_items(s@, pos as int, view_struct_items(acc@)) is Miss,
            POut::Fail(at, exp) => sp_struct_items(s@, pos as int, view_struct_items(acc@))
                == SpOut::<Seq<SpecMacro<SpecStructItem>>>::Fail(at as int, exp),
        }),
    decreases s@.len() - pos,
{
    let n: usize = s.unicode_len();
    let p: usize = ws(s, pos);
    if p < n && s.get_char(p) == '}' {
        return POut::Got(acc, p + 1);
    }
    match p_appends(s, pos) {
        POut::Fail(at, exp) => POut::Fail(at, exp),
        POut::Miss => POut::Got(acc, pos),
        POut::Got(apps, q1) => {
            let q2: usize = ws(s, q1);
            match struct_item(s, q2) {
                POut::Miss => POut::Fail(q2, Expected::Name),
                POut::Fail(at, exp) => POut::Fail(at, exp),
                POut::Got(item, q3) => {
                    let m = Macro { appends: apps, body: Box::new(item) };
                    proof {
                        lemma_view_struct_items_push(acc@, m);
                    }
                    let mut acc2 = acc;
                    acc2.push(m);
                    let q4: usize = ws(s, q3);
                    if q4 < n && s.get_char(q4) == ',' {
                        if q4 < pos {
                            POut::Got(acc2, q4 + 1)
                        } else {
                            p_struct_items(s, q4 + 1, acc2)
                        }
                    } else if q4 < n && s.get_char(q4) == '}' {
                        POut::Got(acc2, q4 + 1)
                    } else {
                        POut::Fail(q4, Expected::CommaOrCloseBrace)
                    }
                },
            }
        },
    }
}

/// The items of an enum body, after the opening brace.
fn p_enum_items(s: &str, pos: usize, acc: Vec<Macro<EnumItem>>) -> (r: POut<Vec<Macro<EnumItem>>>)
    requires
        pos <= s@.len(),
    ensures
        (match r {
            POut::Got(v, e) => sp_enum_items(s@, pos as int, view_enum_items(acc@)) == SpOut::Got(
                view_enum_items(v@),
                e as int,
            ) && e <= s@.len(),
            POut::Miss => sp_enum_items(s@, pos as int, view_enum_items(acc@)) is Miss,
            POut::Fail(at, exp) => sp_enum_items(s@, pos as int, view_enum_items(acc@))
                == SpOut::<Seq<SpecMacro<SpecEnumItem>>>::Fail(at as int, exp),
        }),
    decreases s@.len() - pos,
{
    let n: usize = s.unicode_len();
    let p: usize = ws(s, pos);
    if p < n && s.get_char(p) == '}' {
        return POut::Got(acc, p + 1);
    }
    match p_appends(s, pos) {
        POut::Fail(at, exp) => POut::Fail(at, exp),
        POut::Miss => POut::Got(acc, pos),
        POut::Got(apps, q1) => {
            let q2: usize = ws(s, q1);
            match enum_item(s, q2) {
                POut::Miss => POut::Fail(q2, Expected::Name),
                POut::Fail(at, exp) => POut::Fail(at, exp),
                POut::Got(item, q3) => {
                    let m = Macro { appends: apps, body: Box::new(item) };
                    proof {
                        lemma_view_enum_items_push(acc@, m);
                    }
                    let mut acc2 = acc;
                    acc2.push(m);
                    let q4: usize = ws(s, q3);
                    if q4 < n && s.get_char(q4) == ',' {
                        if q4 < pos {
                            POut::Got(acc2, q4 + 1)
                        } else {
                            p_enum_items(s, q4 + 1, acc2)
                        }
                    } else if q4 < n && s.get_char(q4) == '}' {
                        POut::Got(acc2, q4 + 1)
                    } else {
                        POut::Fail(q4, Expected::CommaOrCloseBrace)
                    }
                },
            }
        },
    }
}

// ---------------------------------------------------------------------------
// Definitions
// ---------------------------------------------------------------------------
/// `session_def`: `channel name = session-type`.
pub fn session_def(s: &str, pos: usize) -> (r: POut<SessionDef>)
    ensures
        r@ == sp_session_def(s@, pos as int),
        pout_in_bounds(r, s@),
{
    proof {
        lemma_keyword_views();
        lemma_token_lens();
    }
    let n: usize = s.unicode_len();
    if !ex_lit_at(s, pos, "channel") {
        return POut::Miss;
    }
    let p1: usize = ws(s, pos + 7);
    match name(s, p1) {
        POut::Miss => POut::Fail(p1, Expected::Name),
        POut::Fail(at, exp) => POut::Fail(at, exp),
        POut::Got(nm, p2) => {
            let p3: usize = ws(s, p2);
            if !(p3 < n && s.get_char(p3) == '=') {
                return POut::Fail(p3, Expected::Equals);
            }
            match p_appends(s, p3 + 1) {
                POut::Fail(at, exp) => POut::Fail(at, exp),
                POut::Miss => POut::Fail(p3 + 1, Expected::SessionStep),
                POut::Got(apps, q1) => {
                    let q2: usize = ws(s, q1);
                    match session_type(s, q2) {
                        POut::Miss => POut::Fail(q2, Expected::SessionStep),
                        POut::Fail(at, exp) => POut::Fail(at, exp),
                        POut::Got(st, q3) => POut::Got(
                            SessionDef { name: nm, session: Macro { appends: apps, body: Box::new(st) } },
                            q3,
                        ),
                    }
                },
            }
        },
    }
}

/// `struct_def`: `struct name { items }`.
pub fn struct_def(s: &str, pos: usize) -> (r: POut<StructDef>)
    ensures
        r@ == sp_struct_def(s@, pos as int),
        pout_in_bounds(r, s@),
{
    proof {
        lemma_keyword_views();
        lemma_token_lens();
    }
    let n: usize = s.unicode_len();
    if !ex_lit_at(s, pos, "struct") {
        return POut::Miss;
    }
    let p1: usize = ws(s, pos + 6);
    match name(s, p1) {
        POut::Miss => POut::Fail(p1, Expected::Name),
        POut::Fail(at, exp) => POut::Fail(at, exp),
        POut::Got(nm, p2) => {
            let p3: usize = ws(s, p2);
            if !(p3 < n && s.get_char(p3) == '{') {
                return POut::Fail(p3, Expected::OpenBrace);
            }
            let items0: Vec<Macro<StructItem>> = Vec::new();
            proof {
                assert(view_struct_items(items0@) =~= Seq::<SpecMacro<SpecStructItem>>::empty());
            }
            match p_struct_items(s, p3 + 1, items0) {
                POut::Got(items, p4) => POut::Got(StructDef { name: nm, items }, p4),
                POut::Fail(at, exp) => POut::Fail(at, exp),
                POut::Miss => POut::Fail(p3 + 1, Expected::Name),
            }
        },
    }
}

/// `enum_def`: `enum name { items }`.
pub fn enum_def(s: &str, pos: usize) -> (r: POut<EnumDef>)
    ensures
        r@ == sp_enum_def(s@, pos as int),
        pout_in_bounds(r, s@),
{
    proof {
        lemma_keyword_views();
        lemma_token_lens();
    }
    let n: usize = s.unicode_len();
    if !ex_lit_at(s, pos, "enum") {
        return POut::Miss;
    }
    let p1: usize = ws(s, pos + 4);
    match name(s, p1) {
        POut::Miss => POut::Fail(p1, Expected::Name),
        POut::Fail(at, exp) => POut::Fail(at, exp),
        POut::Got(nm, p2) => {
            let p3: usize = ws(s, p2);
            if !(p3 < n && s.get_char(p3) == '{') {
                return POut::Fail(p3, Expected::OpenBrace);
            }
            let items0: Vec<Macro<EnumItem>> = Vec::new();
            proof {
                assert(view_enum_items(items0@) =~= Seq::<SpecMacro<SpecEnumItem>>::empty());
            }
            match p_enum_items(s, p3 + 1, items0) {
                POut::Got(items, p4) => POut::Got(EnumDef { name: nm, items }, p4),
                POut::Fail(at, exp) => POut::Fail(at, exp),
                POut::Miss => POut::Fail(p3 + 1, Expected::Name),
            }
        },
    }
}

/// `def`: one definition, decided by its leading keyword.
pub fn def(s: &str, pos: usize) -> (r: POut<Def>)
    ensures
        r@ == sp_def(s@, pos as int),
        pout_in_bounds(r, s@),
{
    proof {
        lemma_keyword_views();
    }
    if ex_lit_at(s, pos, "channel") {
        match session_def(s, pos) {
            POut::Got(d, e) => POut::Got(Def::SessionDef(d), e),
            POut::Fail(at, exp) => POut::Fail(at, exp),
            POut::Miss => POut::Miss,
        }
    } else if ex_lit_at(s, pos, "struct") {
        match struct_def(s, pos) {
            POut::Got(d, e) => POut::Got(Def::StructDef(d), e),
            POut::Fail(at, exp) => POut::Fail(at, exp),
            POut::Miss => POut::Miss,
        }
    } else if ex_lit_at(s, pos, "enum") {
        match enum_def(s, pos) {
            POut::Got(d, e) => POut::Got(Def::EnumDef(d), e),
            POut::Fail(at, exp) => POut::Fail(at, exp),
            POut::Miss => POut::Miss,
        }
    } else {
        POut::Miss
    }
}

/// `macrod_def`: appends, then a definition.
pub fn macrod_def(s: &str, pos: usize) -> (r: POut<MacrodDef>)
    ensures
        r@ == sp_macrod_def(s@, pos as int),
        pout_in_bounds(r, s@),
{
    match p_appends(s, pos) {
        POut::Fail(at, exp) => POut::Fail(at, exp),
        POut::Miss => POut::Miss,
        POut::Got(apps, p1) => {
            let p2: usize = ws(s, p1);
            match def(s, p2) {
                POut::Miss => POut::Miss,
                POut::Fail(at, exp) => POut::Fail(at, exp),
                POut::Got(d, p3) => POut::Got(
                    MacrodDef(Macro { appends: apps, body: Box::new(d) }),
                    p3,
                ),
            }
        },
    }
}

/// As many annotated definitions as will parse.
fn p_defs(s: &str, pos: usize, acc: Vec<MacrodDef>) -> (r: POut<Vec<MacrodDef>>)
    ensures
        (match r {
            POut::Got(v, e) => sp_defs(s@, pos as int, view_defs(acc@)) == SpOut::Got(
                view_defs(v@),
                e as int,
            ) && (e <= s@.len() || e == pos),
            POut::Miss => sp_defs(s@, pos as int, view_defs(acc@)) is Miss,
            POut::Fail(at, exp) => sp_defs(s@, pos as int, view_defs(acc@)) == SpOut::<
                Seq<SpecMacro<SpecDef>>,
            >::Fail(at as int, exp),
        }),
    decreases s@.len() - pos,
{
    let n: usize = s.unicode_len();
    match macrod_def(s, pos) {
        POut::Miss => POut::Got(acc, pos),
        POut::Fail(at, exp) => POut::Fail(at, exp),
        POut::Got(md, p2) => {
            proof {
                lemma_view_defs_push(acc@, md);
            }
            let mut acc2 = acc;
            acc2.push(md);
            if p2 <= pos || p2 > n {
                POut::Got(acc2, p2)
            } else {
                p_defs(s, p2, acc2)
            }
        },
    }
}

/// Parse a whole document: one or more annotated definitions, nothing
/// left over but whitespace. On failure the error carries the character
/// position where parsing stopped and what was expected there.
pub fn parse(i: &str) -> (r: Result<Vec<MacrodDef>, ParseError>)
    ensures
        (match r {
            Ok(defs) => sp_parse(i@) == SpParse::Parsed(view_defs(defs@)),
            Err(e) => sp_parse(i@) == SpParse::Error(e.position as int, e.expected),
        }),
{
    let n: usize = i.unicode_len();
    let acc0: Vec<MacrodDef> = Vec::new();
    proof {
        assert(view_defs(acc0@) =~= Seq::<SpecMacro<SpecDef>>::empty());
    }
    match p_defs(i, 0, acc0) {
        POut::Fail(at, exp) => Err(ParseError { position: at, expected: exp }),
        POut::Miss => Err(ParseError { position: 0, expected: Expected::Definition }),
        POut::Got(defs, p) => {
            let p2: usize = ws(i, p);
            proof {
                lemma_view_defs_len(defs@);
            }
            if p2 == n && defs.len() > 0 {
                Ok(defs)
            } else {
                Err(ParseError { position: p2, expected: Expected::Definition })
            }
        },
    }
}

} // verus!
