//! The structure-preserving formatter: re-emits a parsed document in the
//! grammar's own surface syntax, with canonical keyword spelling, each
//! nesting level indented one step further, and comments and annotations
//! re-emitted above their owners.
use vstd::prelude::*;

use crate::ast::Append;
use crate::ast::Annotation;
use crate::ast::Constant;
use crate::ast::Def;
use crate::ast::EnumDef;
use crate::ast::EnumItem;
use crate::ast::Macro;
use crate::ast::MacrodDef;
use crate::ast::Session;
use crate::ast::SessionDef;
use crate::ast::SessionOrName;
use crate::ast::SessionType;
use crate::ast::SessionUnion;
use crate::ast::SimpleType;
use crate::ast::SpecAppend;
use crate::ast::SpecConstant;
use crate::ast::SpecDef;
use crate::ast::SpecEnumDef;
use crate::ast::SpecEnumItem;
use crate::ast::SpecMacro;
use crate::ast::SpecSession;
use crate::ast::SpecSessionDef;
use crate::ast::SpecSessionOrName;
use crate::ast::SpecSessionType;
use crate::ast::SpecSessionUnion;
use crate::ast::SpecStructDef;
use crate::ast::SpecStructItem;
use crate::ast::SpecType;
use crate::ast::SpecTypeOrName;
use crate::ast::StructDef;
use crate::ast::StructItem;
use crate::ast::Type;
use crate::ast::TypeOrName;
use crate::ast::simple_type_name;

verus! {

// ---------------------------------------------------------------------------
// The formatted text, as a function of the tree
// ---------------------------------------------------------------------------
/// The indentation prefix: `tab * ind` spaces.
pub open spec fn tab_of(tab: nat, ind: nat) -> Seq<char> {
    Seq::new(tab * ind, |i: int| ' ')
}

/// The next indentation depth; at the top of `usize` it stays put, since
/// no output of that depth can exist anyway.
pub open spec fn next_ind(ind: nat) -> nat {
    if ind < usize::MAX as nat {
        ind + 1
    } else {
        ind
    }
}

/// A decimal digit as a character.
pub open spec fn digit_char(d: nat) -> char {
    if d == 0 {
        '0'
    } else if d == 1 {
        '1'
    } else if d == 2 {
        '2'
    } else if d == 3 {
        '3'
    } else if d == 4 {
        '4'
    } else if d == 5 {
        '5'
    } else if d == 6 {
        '6'
    } else if d == 7 {
        '7'
    } else if d == 8 {
        '8'
    } else {
        '9'
    }
}

/// `n` in decimal, without leading zeros.
pub open spec fn dec_of(n: nat) -> Seq<char>
    decreases n,
{
    if n < 10 {
        seq![digit_char(n)]
    } else {
        dec_of(n / 10) + seq![digit_char(n % 10)]
    }
}

/// One character of a string constant, escaped for re-emission.
pub open spec fn esc_char(c: char) -> Seq<char> {
    if c == '\\' {
        seq!['\\', '\\']
    } else if c == '"' {
        seq!['\\', '"']
    } else if c == '\n' {
        seq!['\\', 'n']
    } else if c == '\r' {
        seq!['\\', 'r']
    } else if c == '\t' {
        seq!['\\', 't']
    } else {
        seq![c]
    }
}

/// A string constant's body, escaped.
pub open spec fn esc(s: Seq<char>) -> Seq<char>
    decreases s,
{
    if s.len() == 0 {
        Seq::empty()
    } else {
        esc(s.drop_last()) + esc_char(s.last())
    }
}

/// A constant, spelled so that parsing it back yields the same constant:
/// strings quoted and escaped, signed integers always with their sign,
/// floats with their recorded digits.
pub open spec fn fmt_const(c: SpecConstant) -> Seq<char> {
    match c {
        SpecConstant::String(s) => seq!['"'] + esc(s) + seq!['"'],
        SpecConstant::Float(f) => (if f.neg {
            seq!['-']
        } else {
            seq!['+']
        }) + f.whole + seq!['.'] + f.frac,
        SpecConstant::Int(i) => if i < 0 {
            seq!['-'] + dec_of((-(i as int)) as nat)
        } else {
            seq!['+'] + dec_of(i as nat)
        },
        SpecConstant::Uint(u) => dec_of(u as nat),
        SpecConstant::Bool(b) => if b {
            "true"@
        } else {
            "false"@
        },
    }
}

/// An annotation; the plain-`true` value uses the `#[name]` shorthand.
pub open spec fn fmt_annotation(a: crate::ast::SpecAnnotation) -> Seq<char> {
    if a.value == SpecConstant::Bool(true) {
        "#["@ + a.name + "]"@
    } else {
        "#["@ + a.name + " = "@ + fmt_const(a.value) + "]"@
    }
}

pub open spec fn fmt_append(a: SpecAppend) -> Seq<char> {
    match a {
        SpecAppend::LineComment(t) => t,
        SpecAppend::DocsComment(t) => t,
        SpecAppend::Annotation(an) => fmt_annotation(an),
    }
}

/// The appends above a node, one per line, each indented.
pub open spec fn fmt_appends(appends: Seq<SpecAppend>, tab: nat, ind: nat) -> Seq<char>
    decreases appends,
{
    if appends.len() == 0 {
        Seq::empty()
    } else {
        fmt_appends(appends.drop_last(), tab, ind) + tab_of(tab, ind) + fmt_append(appends.last())
            + "\n"@
    }
}

pub open spec fn fmt_type_or_name(t: SpecTypeOrName, tab: nat, ind: nat) -> Seq<char>
    decreases t,
{
    match t {
        SpecTypeOrName::Name(n) => n,
        SpecTypeOrName::Type(ty) => fmt_type(ty, tab, ind),
    }
}

/// An inline type. A named struct or enum type stands by its name; a
/// container type has no surface syntax and produces nothing (code
/// generation refuses trees that hold one).
pub open spec fn fmt_type(t: SpecType, tab: nat, ind: nat) -> Seq<char>
    decreases t,
{
    match t {
        SpecType::SessionType(st) => fmt_session_type(st, tab, ind),
        SpecType::Struct(d) => d.name,
        SpecType::Enum(d) => d.name,
        SpecType::ContainerType(_) => Seq::empty(),
        SpecType::SimpleType(st) => simple_type_name(st),
        SpecType::Constant(c) => fmt_const(c),
    }
}

/// The steps of a session type, joined by ` ->` and newlines, each step
/// indented and carrying its own appends.
pub open spec fn fmt_session_type(st: SpecSessionType, tab: nat, ind: nat) -> Seq<char>
    decreases st,
{
    fmt_steps(st.steps, tab, ind)
}

pub open spec fn fmt_steps(steps: Seq<SpecMacro<SpecSession>>, tab: nat, ind: nat) -> Seq<char>
    decreases steps,
{
    if steps.len() == 0 {
        Seq::empty()
    } else if steps.len() == 1 {
        fmt_step(steps.last(), tab, ind)
    } else {
        fmt_steps(steps.drop_last(), tab, ind) + " ->\n"@ + fmt_step(steps.last(), tab, ind)
    }
}

pub open spec fn fmt_step(m: SpecMacro<SpecSession>, tab: nat, ind: nat) -> Seq<char>
    decreases m,
{
    fmt_appends(m.appends, tab, ind) + tab_of(tab, ind) + fmt_session(m.body, tab, ind)
}

pub open spec fn fmt_session(s: SpecSession, tab: nat, ind: nat) -> Seq<char>
    decreases s,
{
    match s {
        SpecSession::Recv(t) => "recv "@ + fmt_type_or_name(t, tab, ind),
        SpecSession::Send(t) => "send "@ + fmt_type_or_name(t, tab, ind),
        SpecSession::Offer(u) => "offer"@ + fmt_union(u, tab, next_ind(ind)),
        SpecSession::Choose(u) => "choose"@ + fmt_union(u, tab, next_ind(ind)),
        SpecSession::Endpoint => "end"@,
    }
}

/// Union branches, each on its own line behind an indented `|`.
pub open spec fn fmt_union(u: SpecSessionUnion, tab: nat, ind: nat) -> Seq<char>
    decreases u,
{
    fmt_branches(u.branches, tab, ind)
}

pub open spec fn fmt_branches(bs: Seq<SpecSessionOrName>, tab: nat, ind: nat) -> Seq<char>
    decreases bs,
{
    if bs.len() == 0 {
        Seq::empty()
    } else {
        fmt_branches(bs.drop_last(), tab, ind) + "\n"@ + tab_of(tab, ind) + "| "@ + fmt_branch(
            bs.last(),
            tab,
            ind,
        )
    }
}

pub open spec fn fmt_branch(b: SpecSessionOrName, tab: nat, ind: nat) -> Seq<char>
    decreases b,
{
    match b {
        SpecSessionOrName::Name(n) => n,
        SpecSessionOrName::Session(st) => fmt_session_type(st, tab, next_ind(ind)),
    }
}

pub open spec fn fmt_struct_item(m: SpecMacro<SpecStructItem>, tab: nat, ind: nat) -> Seq<char>
    decreases m,
{
    fmt_appends(m.appends, tab, ind) + tab_of(tab, ind) + m.body.name + ": "@ + fmt_type_or_name(
        m.body.ty,
        tab,
        ind,
    ) + (match m.body.tag {
        Some(v) => " = "@ + dec_of(v as nat),
        None => Seq::empty(),
    }) + ",\n"@
}

pub open spec fn fmt_struct_items(items: Seq<SpecMacro<SpecStructItem>>, tab: nat, ind: nat) -> Seq<
    char,
>
    decreases items,
{
    if items.len() == 0 {
        Seq::empty()
    } else {
        fmt_struct_items(items.drop_last(), tab, ind) + fmt_struct_item(items.last(), tab, ind)
    }
}

pub open spec fn fmt_enum_item(m: SpecMacro<SpecEnumItem>, tab: nat, ind: nat) -> Seq<char>
    decreases m,
{
    fmt_appends(m.appends, tab, ind) + tab_of(tab, ind) + m.body.name + "("@ + fmt_type_or_name(
        m.body.ty,
        tab,
        ind,
    ) + ")"@ + (match m.body.tag {
        Some(v) => " = "@ + dec_of(v as nat),
        None => Seq::empty(),
    }) + ",\n"@
}

pub open spec fn fmt_enum_items(items: Seq<SpecMacro<SpecEnumItem>>, tab: nat, ind: nat) -> Seq<
    char,
>
    decreases items,
{
    if items.len() == 0 {
        Seq::empty()
    } else {
        fmt_enum_items(items.drop_last(), tab, ind) + fmt_enum_item(items.last(), tab, ind)
    }
}

pub open spec fn fmt_session_def(d: SpecSessionDef, tab: nat, ind: nat) -> Seq<char>
    decreases d,
{
    tab_of(tab, ind) + "channel "@ + d.name + " =\n"@ + fmt_appends(
        d.session.appends,
        tab,
        next_ind(ind),
    ) + fmt_session_type(d.session.body, tab, next_ind(ind))
}

pub open spec fn fmt_struct_def(d: SpecStructDef, tab: nat, ind: nat) -> Seq<char>
    decreases d,
{
    tab_of(tab, ind) + "struct "@ + d.name + " {\n"@ + fmt_struct_items(
        d.items,
        tab,
        next_ind(ind),
    ) + tab_of(tab, ind) + "}"@
}

pub open spec fn fmt_enum_def(d: SpecEnumDef, tab: nat, ind: nat) -> Seq<char>
    decreases d,
{
    tab_of(tab, ind) + "enum "@ + d.name + " {\n"@ + fmt_enum_items(d.items, tab, next_ind(ind))
        + tab_of(tab, ind) + "}"@
}

pub open spec fn fmt_def(d: SpecDef, tab: nat, ind: nat) -> Seq<char>
    decreases d,
{
    match d {
        SpecDef::SessionDef(sd) => fmt_session_def(sd, tab, ind),
        SpecDef::StructDef(sd) => fmt_struct_def(sd, tab, ind),
        SpecDef::EnumDef(ed) => fmt_enum_def(ed, tab, ind),
    }
}

pub open spec fn fmt_macrod_def(m: SpecMacro<SpecDef>, tab: nat, ind: nat) -> Seq<char>
    decreases m,
{
    fmt_appends(m.appends, tab, ind) + fmt_def(m.body, tab, ind)
}

/// A whole document: definitions joined by one newline.
pub open spec fn fmt_defs(defs: Seq<SpecMacro<SpecDef>>, tab: nat, ind: nat) -> Seq<char>
    decreases defs,
{
    if defs.len() == 0 {
        Seq::empty()
    } else if defs.len() == 1 {
        fmt_macrod_def(defs.last(), tab, ind)
    } else {
        fmt_defs(defs.drop_last(), tab, ind) + "\n"@ + fmt_macrod_def(defs.last(), tab, ind)
    }
}

} // verus!

verus! {

// ---------------------------------------------------------------------------
// Push lemmas for the formatted sequences
// ---------------------------------------------------------------------------
pub proof fn lemma_esc_push(s: Seq<char>, c: char)
    ensures
        esc(s.push(c)) == esc(s) + esc_char(c),
{
    assert(s.push(c).drop_last() =~= s);
}

pub proof fn lemma_fmt_appends_push(s: Seq<SpecAppend>, x: SpecAppend, tab: nat, ind: nat)
    ensures
        fmt_appends(s.push(x), tab, ind) == fmt_appends(s, tab, ind) + tab_of(tab, ind)
            + fmt_append(x) + "\n"@,
{
    assert(s.push(x).drop_last() =~= s);
}

pub proof fn lemma_fmt_steps_push(
    s: Seq<SpecMacro<SpecSession>>,
    x: SpecMacro<SpecSession>,
    tab: nat,
    ind: nat,
)
    ensures
        s.len() == 0 ==> fmt_steps(s.push(x), tab, ind) == fmt_step(x, tab, ind),
        s.len() > 0 ==> fmt_steps(s.push(x), tab, ind) == fmt_steps(s, tab, ind) + " ->\n"@
            + fmt_step(x, tab, ind),
{
    assert(s.push(x).drop_last() =~= s);
}

pub proof fn lemma_fmt_branches_push(
    s: Seq<SpecSessionOrName>,
    x: SpecSessionOrName,
    tab: nat,
    ind: nat,
)
    ensures
        fmt_branches(s.push(x), tab, ind) == fmt_branches(s, tab, ind) + "\n"@ + tab_of(tab, ind)
            + "| "@ + fmt_branch(x, tab, ind),
{
    assert(s.push(x).drop_last() =~= s);
}

pub proof fn lemma_fmt_struct_items_push(
    s: Seq<SpecMacro<SpecStructItem>>,
    x: SpecMacro<SpecStructItem>,
    tab: nat,
    ind: nat,
)
    ensures
        fmt_struct_items(s.push(x), tab, ind) == fmt_struct_items(s, tab, ind) + fmt_struct_item(
            x,
            tab,
            ind,
        ),
{
    assert(s.push(x).drop_last() =~= s);
}

pub proof fn lemma_fmt_enum_items_push(
    s: Seq<SpecMacro<SpecEnumItem>>,
    x: SpecMacro<SpecEnumItem>,
    tab: nat,
    ind: nat,
)
    ensures
        fmt_enum_items(s.push(x), tab, ind) == fmt_enum_items(s, tab, ind) + fmt_enum_item(
            x,
            tab,
            ind,
        ),
{
    assert(s.push(x).drop_last() =~= s);
}

pub proof fn lemma_fmt_defs_push(s: Seq<SpecMacro<SpecDef>>, x: SpecMacro<SpecDef>, tab: nat, ind: nat)
    ensures
        s.len() == 0 ==> fmt_defs(s.push(x), tab, ind) == fmt_macrod_def(x, tab, ind),
        s.len() > 0 ==> fmt_defs(s.push(x), tab, ind) == fmt_defs(s, tab, ind) + "\n"@
            + fmt_macrod_def(x, tab, ind),
{
    assert(s.push(x).drop_last() =~= s);
}

// ---------------------------------------------------------------------------
// The formatter context
// ---------------------------------------------------------------------------
/// The formatter's generation context: the width of one indentation step,
/// and the current depth.
#[derive(Debug, Clone, PartialEq, Eq, Structural)]
pub struct Formatter {
    pub tab_size: usize,
    pub indent: usize,
}

impl View for Formatter {
    type V = Formatter;

    open spec fn view(&self) -> Formatter {
        *self
    }
}

impl Formatter {
    /// The same context, one level deeper.
    pub fn append_indent(&self) -> (r: Self)
        ensures
            r.tab_size == self.tab_size,
            r.indent as nat == next_ind(self.indent as nat),
    {
        Formatter {
            tab_size: self.tab_size,
            indent: if self.indent < usize::MAX {
                self.indent + 1
            } else {
                self.indent
            },
        }
    }

    /// The current indentation prefix.
    pub fn get_tab(&self) -> (r: String)
        ensures
            r@ == tab_of(self.tab_size as nat, self.indent as nat),
    {
        let mut out = String::new();
        w_tab(&mut out, self.tab_size, self.indent);
        proof {
            assert(Seq::<char>::empty() + tab_of(self.tab_size as nat, self.indent as nat)
                =~= tab_of(self.tab_size as nat, self.indent as nat));
        }
        out
    }
}

// ---------------------------------------------------------------------------
// Writers: each appends exactly the spec text to the output buffer
// ---------------------------------------------------------------------------
/// Append `tab * ind` spaces.
pub fn w_tab(out: &mut String, tab: usize, ind: usize)
    ensures
        final(out)@ == old(out)@ + tab_of(tab as nat, ind as nat),
{
    proof {
        reveal_strlit(" ");
    }
    let mut i: usize = 0;
    while i < ind
        invariant
            i <= ind,
            out@ == old(out)@ + Seq::new((tab * i) as nat, |k: int| ' '),
        decreases ind - i,
    {
        let mut j: usize = 0;
        while j < tab
            invariant
                j <= tab,
                i < ind,
                out@ == old(out)@ + Seq::new((tab * i + j) as nat, |k: int| ' '),
            decreases tab - j,
        {
            let ghost before: Seq<char> = out@;
            out.append(" ");
            proof {
                reveal_strlit(" ");
                assert(" "@ =~= seq![' ']);
                assert(before + seq![' '] =~= old(out)@ + Seq::new(
                    (tab * i + j + 1) as nat,
                    |k: int| ' ',
                ));
            }
            j += 1;
        }
        proof {
            assert(tab * (i + 1) == tab * i + tab) by (nonlinear_arith);
        }
        i += 1;
    }
}

fn w_digit(out: &mut String, d: u64)
    requires
        d < 10,
    ensures
        final(out)@ == old(out)@ + seq![digit_char(d as nat)],
{
    proof {
        reveal_strlit("0");
        reveal_strlit("1");
        reveal_strlit("2");
        reveal_strlit("3");
        reveal_strlit("4");
        reveal_strlit("5");
        reveal_strlit("6");
        reveal_strlit("7");
        reveal_strlit("8");
        reveal_strlit("9");
    }
    if d == 0 {
        out.append("0");
        proof {
            assert("0"@ =~= seq![digit_char(0)]);
        }
    } else if d == 1 {
        out.append("1");
        proof {
            assert("1"@ =~= seq![digit_char(1)]);
        }
    } else if d == 2 {
        out.append("2");
        proof {
            assert("2"@ =~= seq![digit_char(2)]);
        }
    } else if d == 3 {
        out.append("3");
        proof {
            assert("3"@ =~= seq![digit_char(3)]);
        }
    } else if d == 4 {
        out.append("4");
        proof {
            assert("4"@ =~= seq![digit_char(4)]);
        }
    } else if d == 5 {
        out.append("5");
        proof {
            assert("5"@ =~= seq![digit_char(5)]);
        }
    } else if d == 6 {
        out.append("6");
        proof {
            assert("6"@ =~= seq![digit_char(6)]);
        }
    } else if d == 7 {
        out.append("7");
        proof {
            assert("7"@ =~= seq![digit_char(7)]);
        }
    } else if d == 8 {
        out.append("8");
        proof {
            assert("8"@ =~= seq![digit_char(8)]);
        }
    } else {
        out.append("9");
        proof {
            assert("9"@ =~= seq![digit_char(9)]);
        }
    }
}

/// Append `n` in decimal.
pub fn w_dec(out: &mut String, n: u64)
    ensures
        final(out)@ == old(out)@ + dec_of(n as nat),
    decreases n,
{
    if n < 10 {
        w_digit(out, n);
    } else {
        w_dec(out, n / 10);
        let ghost mid: Seq<char> = out@;
        w_digit(out, n % 10);
        proof {
            assert(out@ =~= old(out)@ + dec_of(n as nat));
        }
    }
}

/// Append the escaped body of a string constant.
fn w_esc(out: &mut String, s: &str)
    ensures
        final(out)@ == old(out)@ + esc(s@),
{
    let n: usize = s.unicode_len();
    let mut i: usize = 0;
    proof {
        assert(esc(s@.subrange(0, 0)) =~= Seq::<char>::empty());
        assert(out@ =~= old(out)@ + esc(s@.subrange(0, 0)));
    }
    while i < n
        invariant
            n == s@.len(),
            i <= n,
            out@ == old(out)@ + esc(s@.subrange(0, i as int)),
        decreases n - i,
    {
        let ghost before: Seq<char> = out@;
        let c = s.get_char(i);
        if c == '\\' {
            out.append("\\\\");
            proof {
                reveal_strlit("\\\\");
                assert("\\\\"@ =~= esc_char(c));
            }
        } else if c == '"' {
            out.append("\\\"");
            proof {
                reveal_strlit("\\\"");
                assert("\\\""@ =~= esc_char(c));
            }
        } else if c == '\n' {
            out.append("\\n");
            proof {
                reveal_strlit("\\n");
                assert("\\n"@ =~= esc_char(c));
            }
        } else if c == '\r' {
            out.append("\\r");
            proof {
                reveal_strlit("\\r");
                assert("\\r"@ =~= esc_char(c));
            }
        } else if c == '\t' {
            out.append("\\t");
            proof {
                reveal_strlit("\\t");
                assert("\\t"@ =~= esc_char(c));
            }
        } else {
            let piece = s.substring_char(i, i + 1);
            out.append(piece);
            proof {
                assert(piece@ =~= esc_char(c));
            }
        }
        proof {
            assert(s@.subrange(0, i + 1 as int).drop_last() =~= s@.subrange(0, i as int));
            lemma_esc_push(s@.subrange(0, i as int), c);
            assert(s@.subrange(0, i as int).push(c) =~= s@.subrange(0, i + 1 as int));
            assert(out@ =~= old(out)@ + esc(s@.subrange(0, i + 1 as int)));
        }
        i += 1;
    }
    proof {
        assert(s@.subrange(0, n as int) =~= s@);
    }
}

/// Append a constant.
pub fn w_const(out: &mut String, c: &Constant)
    ensures
        final(out)@ == old(out)@ + fmt_const(c@),
{
    match c {
        Constant::String(s) => {
            out.append("\"");
            w_esc(out, s.as_str());
            out.append("\"");
            proof {
                reveal_strlit("\"");
                assert("\""@ =~= seq!['"']);
                assert(out@ =~= old(out)@ + fmt_const(c@));
            }
        },
        Constant::Float(f) => {
            if f.neg {
                out.append("-");
                proof {
                    reveal_strlit("-");
                    assert("-"@ =~= seq!['-']);
                }
            } else {
                out.append("+");
                proof {
                    reveal_strlit("+");
                    assert("+"@ =~= seq!['+']);
                }
            }
            out.append(f.whole.as_str());
            out.append(".");
            out.append(f.frac.as_str());
            proof {
                reveal_strlit(".");
                assert("."@ =~= seq!['.']);
                assert(out@ =~= old(out)@ + fmt_const(c@));
            }
        },
        Constant::Int(i) => {
            if *i < 0 {
                out.append("-");
                let mag: u64 = if *i == i64::MIN {
                    0x8000_0000_0000_0000u64
                } else {
                    (-*i) as u64
                };
                w_dec(out, mag);
                proof {
                    reveal_strlit("-");
                    assert("-"@ =~= seq!['-']);
                    assert(out@ =~= old(out)@ + fmt_const(c@));
                }
            } else {
                out.append("+");
                w_dec(out, *i as u64);
                proof {
                    reveal_strlit("+");
                    assert("+"@ =~= seq!['+']);
                    assert(out@ =~= old(out)@ + fmt_const(c@));
                }
            }
        },
        Constant::Uint(u) => {
            w_dec(out, *u);
        },
        Constant::Bool(b) => {
            if *b {
                out.append("true");
            } else {
                out.append("false");
            }
        },
    }
}

/// Append an annotation.
pub fn w_annotation(out: &mut String, a: &Annotation)
    ensures
        final(out)@ == old(out)@ + fmt_annotation(a@),
{
    let is_plain_true = match &a.1 {
        Constant::Bool(b) => *b,
        _ => false,
    };
    out.append("#[");
    out.append(a.0.as_str());
    if is_plain_true {
        out.append("]");
        proof {
            assert(out@ =~= old(out)@ + fmt_annotation(a@));
        }
    } else {
        out.append(" = ");
        w_const(out, &a.1);
        out.append("]");
        proof {
            assert(out@ =~= old(out)@ + fmt_annotation(a@));
        }
    }
}

/// Append one append.
pub fn w_append(out: &mut String, a: &Append)
    ensures
        final(out)@ == old(out)@ + fmt_append(a@),
{
    match a {
        Append::LineComment(t) => out.append(t.as_str()),
        Append::DocsComment(t) => out.append(t.as_str()),
        Append::Annotation(an) => w_annotation(out, an),
    }
}

/// Append the appends of a node, one per line.
pub fn w_appends(out: &mut String, appends: &Vec<Append>, tab: usize, ind: usize)
    ensures
        final(out)@ == old(out)@ + fmt_appends(
            crate::ast::view_appends(appends@),
            tab as nat,
            ind as nat,
        ),
{
    let mut i: usize = 0;
    proof {
        assert(crate::ast::view_appends(appends@.subrange(0, 0)) =~= Seq::<SpecAppend>::empty());
        assert(out@ =~= old(out)@ + fmt_appends(
            crate::ast::view_appends(appends@.subrange(0, 0)),
            tab as nat,
            ind as nat,
        ));
    }
    while i < appends.len()
        invariant
            i <= appends.len(),
            out@ == old(out)@ + fmt_appends(
                crate::ast::view_appends(appends@.subrange(0, i as int)),
                tab as nat,
                ind as nat,
            ),
        decreases appends.len() - i,
    {
        w_tab(out, tab, ind);
        w_append(out, &appends[i]);
        out.append("\n");
        proof {
            reveal_strlit("\n");
            crate::ast::lemma_view_appends_push(appends@.subrange(0, i as int), appends@[i as int]);
            assert(appends@.subrange(0, i + 1 as int) =~= appends@.subrange(0, i as int).push(
                appends@[i as int],
            ));
            lemma_fmt_appends_push(
                crate::ast::view_appends(appends@.subrange(0, i as int)),
                crate::ast::view_append(appends@[i as int]),
                tab as nat,
                ind as nat,
            );
            assert(out@ =~= old(out)@ + fmt_appends(
                crate::ast::view_appends(appends@.subrange(0, i + 1 as int)),
                tab as nat,
                ind as nat,
            ));
        }
        i += 1;
    }
    proof {
        assert(appends@.subrange(0, appends@.len() as int) =~= appends@);
    }
}

} // verus!

verus! {

/// Append a type-or-name reference.
pub fn w_type_or_name(out: &mut String, t: &TypeOrName, tab: usize, ind: usize)
    ensures
        final(out)@ == old(out)@ + fmt_type_or_name(t@, tab as nat, ind as nat),
    decreases t,
{
    match t {
        TypeOrName::Name(n) => out.append(n.as_str()),
        TypeOrName::Type(ty) => w_type(out, &**ty, tab, ind),
    }
}

/// Append an inline type.
pub fn w_type(out: &mut String, t: &Type, tab: usize, ind: usize)
    ensures
        final(out)@ == old(out)@ + fmt_type(t@, tab as nat, ind as nat),
    decreases t,
{
    match t {
        Type::SessionType(st) => w_session_type(out, st, tab, ind),
        Type::Struct(d) => out.append(d.name.as_str()),
        Type::Enum(d) => out.append(d.name.as_str()),
        Type::ContainerType(_) => {
            proof {
                assert(out@ =~= old(out)@ + fmt_type(t@, tab as nat, ind as nat));
            }
        },
        Type::SimpleType(st) => {
            match st {
                SimpleType::Bool => out.append("bool"),
                SimpleType::Int => out.append("int"),
                SimpleType::Uint => out.append("uint"),
                SimpleType::Float => out.append("float"),
                SimpleType::Double => out.append("double"),
                SimpleType::String => out.append("string"),
            }
        },
        Type::Constant(c) => w_const(out, c),
    }
}

/// Append a session type: its steps joined by ` ->` and newlines.
pub fn w_session_type(out: &mut String, st: &SessionType, tab: usize, ind: usize)
    ensures
        final(out)@ == old(out)@ + fmt_session_type(st@, tab as nat, ind as nat),
    decreases st,
{
    let mut i: usize = 0;
    proof {
        assert(crate::ast::view_steps(st.0@.subrange(0, 0)) =~= Seq::<
            SpecMacro<SpecSession>,
        >::empty());
        assert(out@ =~= old(out)@ + fmt_steps(
            crate::ast::view_steps(st.0@.subrange(0, 0)),
            tab as nat,
            ind as nat,
        ));
    }
    while i < st.0.len()
        invariant
            i <= st.0.len(),
            out@ == old(out)@ + fmt_steps(
                crate::ast::view_steps(st.0@.subrange(0, i as int)),
                tab as nat,
                ind as nat,
            ),
        decreases st.0.len() - i,
    {
        if i > 0 {
            out.append(" ->\n");
        }
        let m = &st.0[i];
        w_appends(out, &m.appends, tab, ind);
        w_tab(out, tab, ind);
        w_session(out, &*m.body, tab, ind);
        proof {
            crate::ast::lemma_view_steps_push(st.0@.subrange(0, i as int), st.0@[i as int]);
            assert(st.0@.subrange(0, i + 1 as int) =~= st.0@.subrange(0, i as int).push(
                st.0@[i as int],
            ));
            lemma_fmt_steps_push(
                crate::ast::view_steps(st.0@.subrange(0, i as int)),
                crate::ast::view_step_macro(st.0@[i as int]),
                tab as nat,
                ind as nat,
            );
            crate::ast::lemma_view_steps_len(st.0@.subrange(0, i as int));
            assert(out@ =~= old(out)@ + fmt_steps(
                crate::ast::view_steps(st.0@.subrange(0, i + 1 as int)),
                tab as nat,
                ind as nat,
            ));
        }
        i += 1;
    }
    proof {
        assert(st.0@.subrange(0, st.0@.len() as int) =~= st.0@);
    }
}

/// Append one session step.
pub fn w_session(out: &mut String, s: &Session, tab: usize, ind: usize)
    ensures
        final(out)@ == old(out)@ + fmt_session(s@, tab as nat, ind as nat),
    decreases s,
{
    match s {
        Session::Recv(t) => {
            out.append("recv ");
            w_type_or_name(out, t, tab, ind);
            proof {
                assert(out@ =~= old(out)@ + fmt_session(s@, tab as nat, ind as nat));
            }
        },
        Session::Send(t) => {
            out.append("send ");
            w_type_or_name(out, t, tab, ind);
            proof {
                assert(out@ =~= old(out)@ + fmt_session(s@, tab as nat, ind as nat));
            }
        },
        Session::Offer(u) => {
            out.append("offer");
            let ind2 = if ind < usize::MAX {
                ind + 1
            } else {
                ind
            };
            w_union(out, u, tab, ind2);
            proof {
                assert(out@ =~= old(out)@ + fmt_session(s@, tab as nat, ind as nat));
            }
        },
        Session::Choose(u) => {
            out.append("choose");
            let ind2 = if ind < usize::MAX {
                ind + 1
            } else {
                ind
            };
            w_union(out, u, tab, ind2);
            proof {
                assert(out@ =~= old(out)@ + fmt_session(s@, tab as nat, ind as nat));
            }
        },
        Session::Endpoint => {
            out.append("end");
        },
    }
}

/// Append the branches of a union, each behind an indented `|`.
pub fn w_union(out: &mut String, u: &SessionUnion, tab: usize, ind: usize)
    ensures
        final(out)@ == old(out)@ + fmt_union(u@, tab as nat, ind as nat),
    decreases u,
{
    let mut i: usize = 0;
    proof {
        assert(crate::ast::view_branches(u.0@.subrange(0, 0)) =~= Seq::<
            SpecSessionOrName,
        >::empty());
        assert(out@ =~= old(out)@ + fmt_branches(
            crate::ast::view_branches(u.0@.subrange(0, 0)),
            tab as nat,
            ind as nat,
        ));
    }
    while i < u.0.len()
        invariant
            i <= u.0.len(),
            out@ == old(out)@ + fmt_branches(
                crate::ast::view_branches(u.0@.subrange(0, i as int)),
                tab as nat,
                ind as nat,
            ),
        decreases u.0.len() - i,
    {
        out.append("\n");
        w_tab(out, tab, ind);
        out.append("| ");
        w_branch(out, &u.0[i], tab, ind);
        proof {
            crate::ast::lemma_view_branches_push(u.0@.subrange(0, i as int), u.0@[i as int]);
            assert(u.0@.subrange(0, i + 1 as int) =~= u.0@.subrange(0, i as int).push(
                u.0@[i as int],
            ));
            lemma_fmt_branches_push(
                crate::ast::view_branches(u.0@.subrange(0, i as int)),
                crate::ast::view_branch(u.0@[i as int]),
                tab as nat,
                ind as nat,
            );
            assert(out@ =~= old(out)@ + fmt_branches(
                crate::ast::view_branches(u.0@.subrange(0, i + 1 as int)),
                tab as nat,
                ind as nat,
            ));
        }
        i += 1;
    }
    proof {
        assert(u.0@.subrange(0, u.0@.len() as int) =~= u.0@);
    }
}

/// Append one union branch.
pub fn w_branch(out: &mut String, b: &SessionOrName, tab: usize, ind: usize)
    ensures
        final(out)@ == old(out)@ + fmt_branch(b@, tab as nat, ind as nat),
    decreases b,
{
    match b {
        SessionOrName::Name(n) => out.append(n.as_str()),
        SessionOrName::Session(st) => {
            let ind2 = if ind < usize::MAX {
                ind + 1
            } else {
                ind
            };
            w_session_type(out, &**st, tab, ind2);
        },
    }
}

/// Append the items of a struct body.
pub fn w_struct_items(out: &mut String, items: &Vec<Macro<StructItem>>, tab: usize, ind: usize)
    ensures
        final(out)@ == old(out)@ + fmt_struct_items(
            crate::ast::view_struct_items(items@),
            tab as nat,
            ind as nat,
        ),
{
    let mut i: usize = 0;
    proof {
        assert(crate::ast::view_struct_items(items@.subrange(0, 0)) =~= Seq::<
            SpecMacro<SpecStructItem>,
        >::empty());
        assert(out@ =~= old(out)@ + fmt_struct_items(
            crate::ast::view_struct_items(items@.subrange(0, 0)),
            tab as nat,
            ind as nat,
        ));
    }
    while i < items.len()
        invariant
            i <= items.len(),
            out@ == old(out)@ + fmt_struct_items(
                crate::ast::view_struct_items(items@.subrange(0, i as int)),
                tab as nat,
                ind as nat,
            ),
        decreases items.len() - i,
    {
        let m = &items[i];
        w_appends(out, &m.appends, tab, ind);
        w_tab(out, tab, ind);
        let body = &*m.body;
        out.append(body.0.as_str());
        out.append(": ");
        w_type_or_name(out, &body.1, tab, ind);
        match body.2 {
            Some(v) => {
                out.append(" = ");
                w_dec(out, v);
            },
            None => {},
        }
        out.append(",\n");
        proof {
            crate::ast::lemma_view_struct_items_push(
                items@.subrange(0, i as int),
                items@[i as int],
            );
            assert(items@.subrange(0, i + 1 as int) =~= items@.subrange(0, i as int).push(
                items@[i as int],
            ));
            lemma_fmt_struct_items_push(
                crate::ast::view_struct_items(items@.subrange(0, i as int)),
                crate::ast::view_struct_item_macro(items@[i as int]),
                tab as nat,
                ind as nat,
            );
            assert(out@ =~= old(out)@ + fmt_struct_items(
                crate::ast::view_struct_items(items@.subrange(0, i + 1 as int)),
                tab as nat,
                ind as nat,
            ));
        }
        i += 1;
    }
    proof {
        assert(items@.subrange(0, items@.len() as int) =~= items@);
    }
}

/// Append the items of an enum body.
pub fn w_enum_items(out: &mut String, items: &Vec<Macro<EnumItem>>, tab: usize, ind: usize)
    ensures
        final(out)@ == old(out)@ + fmt_enum_items(
            crate::ast::view_enum_items(items@),
            tab as nat,
            ind as nat,
        ),
{
    let mut i: usize = 0;
    proof {
        assert(crate::ast::view_enum_items(items@.subrange(0, 0)) =~= Seq::<
            SpecMacro<SpecEnumItem>,
        >::empty());
        assert(out@ =~= old(out)@ + fmt_enum_items(
            crate::ast::view_enum_items(items@.subrange(0, 0)),
            tab as nat,
            ind as nat,
        ));
    }
    while i < items.len()
        invariant
            i <= items.len(),
            out@ == old(out)@ + fmt_enum_items(
                crate::ast::view_enum_items(items@.subrange(0, i as int)),
                tab as nat,
                ind as nat,
            ),
        decreases items.len() - i,
    {
        let m = &items[i];
        w_appends(out, &m.appends, tab, ind);
        w_tab(out, tab, ind);
        let body = &*m.body;
        out.append(body.0.as_str());
        out.append("(");
        w_type_or_name(out, &body.1, tab, ind);
        out.append(")");
        match body.2 {
            Some(v) => {
                out.append(" = ");
                w_dec(out, v);
            },
            None => {},
        }
        out.append(",\n");
        proof {
            crate::ast::lemma_view_enum_items_push(items@.subrange(0, i as int), items@[i as int]);
            assert(items@.subrange(0, i + 1 as int) =~= items@.subrange(0, i as int).push(
                items@[i as int],
            ));
            lemma_fmt_enum_items_push(
                crate::ast::view_enum_items(items@.subrange(0, i as int)),
                crate::ast::view_enum_item_macro(items@[i as int]),
                tab as nat,
                ind as nat,
            );
            assert(out@ =~= old(out)@ + fmt_enum_items(
                crate::ast::view_enum_items(items@.subrange(0, i + 1 as int)),
                tab as nat,
                ind as nat,
            ));
        }
        i += 1;
    }
    proof {
        assert(items@.subrange(0, items@.len() as int) =~= items@);
    }
}

/// Append one definition.
#[verifier::rlimit(60)]
pub fn w_def(out: &mut String, d: &Def, tab: usize, ind: usize)
    ensures
        final(out)@ == old(out)@ + fmt_def(d@, tab as nat, ind as nat),
    decreases d,
{
    let ind2 = if ind < usize::MAX {
        ind + 1
    } else {
        ind
    };
    match d {
        Def::SessionDef(sd) => {
            w_tab(out, tab, ind);
            out.append("channel ");
            out.append(sd.name.as_str());
            out.append(" =\n");
            w_appends(out, &sd.session.appends, tab, ind2);
            w_session_type(out, &*sd.session.body, tab, ind2);
            proof {
                assert(out@ =~= old(out)@ + fmt_def(d@, tab as nat, ind as nat));
            }
        },
        Def::StructDef(sd) => {
            w_tab(out, tab, ind);
            out.append("struct ");
            out.append(sd.name.as_str());
            out.append(" {\n");
            w_struct_items(out, &sd.items, tab, ind2);
            w_tab(out, tab, ind);
            out.append("}");
            proof {
                assert(out@ =~= old(out)@ + fmt_def(d@, tab as nat, ind as nat));
            }
        },
        Def::EnumDef(ed) => {
            w_tab(out, tab, ind);
            out.append("enum ");
            out.append(ed.name.as_str());
            out.append(" {\n");
            w_enum_items(out, &ed.items, tab, ind2);
            w_tab(out, tab, ind);
            out.append("}");
            proof {
                assert(out@ =~= old(out)@ + fmt_def(d@, tab as nat, ind as nat));
            }
        },
    }
}

/// Append one annotated definition.
pub fn w_macrod_def(out: &mut String, d: &MacrodDef, tab: usize, ind: usize)
    ensures
        final(out)@ == old(out)@ + fmt_macrod_def(d@, tab as nat, ind as nat),
    decreases d,
{
    w_appends(out, &d.0.appends, tab, ind);
    w_def(out, &*d.0.body, tab, ind);
    proof {
        assert(out@ =~= old(out)@ + fmt_macrod_def(d@, tab as nat, ind as nat));
    }
}

/// Append a whole document: definitions joined by one newline.
pub fn w_defs(out: &mut String, defs: &Vec<MacrodDef>, tab: usize, ind: usize)
    ensures
        final(out)@ == old(out)@ + fmt_defs(
            crate::ast::view_defs(defs@),
            tab as nat,
            ind as nat,
        ),
{
    let mut i: usize = 0;
    proof {
        assert(crate::ast::view_defs(defs@.subrange(0, 0)) =~= Seq::<SpecMacro<SpecDef>>::empty());
        assert(out@ =~= old(out)@ + fmt_defs(
            crate::ast::view_defs(defs@.subrange(0, 0)),
            tab as nat,
            ind as nat,
        ));
    }
    while i < defs.len()
        invariant
            i <= defs.len(),
            out@ == old(out)@ + fmt_defs(
                crate::ast::view_defs(defs@.subrange(0, i as int)),
                tab as nat,
                ind as nat,
            ),
        decreases defs.len() - i,
    {
        if i > 0 {
            out.append("\n");
        }
        w_macrod_def(out, &defs[i], tab, ind);
        proof {
            crate::ast::lemma_view_defs_push(defs@.subrange(0, i as int), defs@[i as int]);
            assert(defs@.subrange(0, i + 1 as int) =~= defs@.subrange(0, i as int).push(
                defs@[i as int],
            ));
            lemma_fmt_defs_push(
                crate::ast::view_defs(defs@.subrange(0, i as int)),
                crate::ast::view_macrod_def(defs@[i as int]),
                tab as nat,
                ind as nat,
            );
            crate::ast::lemma_view_defs_len(defs@.subrange(0, i as int));
            assert(out@ =~= old(out)@ + fmt_defs(
                crate::ast::view_defs(defs@.subrange(0, i + 1 as int)),
                tab as nat,
                ind as nat,
            ));
        }
        i += 1;
    }
    proof {
        assert(defs@.subrange(0, defs@.len() as int) =~= defs@);
    }
}

} // verus!

verus! {

impl crate::codegen::Codegen<Formatter> for MacrodDef {
    open spec fn gen_spec(&self, g: Formatter) -> (Seq<char>, Formatter) {
        (fmt_macrod_def(self@, g.tab_size as nat, g.indent as nat), g)
    }

    fn generate(&self, generator: &mut Formatter) -> (r: String) {
        let mut out = String::new();
        w_macrod_def(&mut out, self, generator.tab_size, generator.indent);
        proof {
            assert(out@ =~= fmt_macrod_def(self@, generator.tab_size as nat, generator.indent as nat));
        }
        out
    }
}

impl crate::codegen::Codegen<Formatter> for Def {
    open spec fn gen_spec(&self, g: Formatter) -> (Seq<char>, Formatter) {
        (fmt_def(self@, g.tab_size as nat, g.indent as nat), g)
    }

    fn generate(&self, generator: &mut Formatter) -> (r: String) {
        let mut out = String::new();
        w_def(&mut out, self, generator.tab_size, generator.indent);
        proof {
            assert(out@ =~= fmt_def(self@, generator.tab_size as nat, generator.indent as nat));
        }
        out
    }
}

impl crate::codegen::Codegen<Formatter> for SessionType {
    open spec fn gen_spec(&self, g: Formatter) -> (Seq<char>, Formatter) {
        (fmt_session_type(self@, g.tab_size as nat, g.indent as nat), g)
    }

    fn generate(&self, generator: &mut Formatter) -> (r: String) {
        let mut out = String::new();
        w_session_type(&mut out, self, generator.tab_size, generator.indent);
        proof {
            assert(out@ =~= fmt_session_type(self@, generator.tab_size as nat, generator.indent as nat));
        }
        out
    }
}

impl crate::codegen::Codegen<Formatter> for Session {
    open spec fn gen_spec(&self, g: Formatter) -> (Seq<char>, Formatter) {
        (fmt_session(self@, g.tab_size as nat, g.indent as nat), g)
    }

    fn generate(&self, generator: &mut Formatter) -> (r: String) {
        let mut out = String::new();
        w_session(&mut out, self, generator.tab_size, generator.indent);
        proof {
            assert(out@ =~= fmt_session(self@, generator.tab_size as nat, generator.indent as nat));
        }
        out
    }
}

impl crate::codegen::Codegen<Formatter> for SessionUnion {
    open spec fn gen_spec(&self, g: Formatter) -> (Seq<char>, Formatter) {
        (fmt_union(self@, g.tab_size as nat, g.indent as nat), g)
    }

    fn generate(&self, generator: &mut Formatter) -> (r: String) {
        let mut out = String::new();
        w_union(&mut out, self, generator.tab_size, generator.indent);
        proof {
            assert(out@ =~= fmt_union(self@, generator.tab_size as nat, generator.indent as nat));
        }
        out
    }
}

impl crate::codegen::Codegen<Formatter> for SessionOrName {
    open spec fn gen_spec(&self, g: Formatter) -> (Seq<char>, Formatter) {
        (fmt_branch(self@, g.tab_size as nat, g.indent as nat), g)
    }

    fn generate(&self, generator: &mut Formatter) -> (r: String) {
        let mut out = String::new();
        w_branch(&mut out, self, generator.tab_size, generator.indent);
        proof {
            assert(out@ =~= fmt_branch(self@, generator.tab_size as nat, generator.indent as nat));
        }
        out
    }
}

impl crate::codegen::Codegen<Formatter> for TypeOrName {
    open spec fn gen_spec(&self, g: Formatter) -> (Seq<char>, Formatter) {
        (fmt_type_or_name(self@, g.tab_size as nat, g.indent as nat), g)
    }

    fn generate(&self, generator: &mut Formatter) -> (r: String) {
        let mut out = String::new();
        w_type_or_name(&mut out, self, generator.tab_size, generator.indent);
        proof {
            assert(out@ =~= fmt_type_or_name(self@, generator.tab_size as nat, generator.indent as nat));
        }
        out
    }
}

impl crate::codegen::Codegen<Formatter> for Type {
    open spec fn gen_spec(&self, g: Formatter) -> (Seq<char>, Formatter) {
        (fmt_type(self@, g.tab_size as nat, g.indent as nat), g)
    }

    fn generate(&self, generator: &mut Formatter) -> (r: String) {
        let mut out = String::new();
        w_type(&mut out, self, generator.tab_size, generator.indent);
        proof {
            assert(out@ =~= fmt_type(self@, generator.tab_size as nat, generator.indent as nat));
        }
        out
    }
}

impl crate::codegen::Codegen<Formatter> for Constant {
    open spec fn gen_spec(&self, g: Formatter) -> (Seq<char>, Formatter) {
        (fmt_const(self@), g)
    }

    fn generate(&self, generator: &mut Formatter) -> (r: String) {
        let mut out = String::new();
        w_const(&mut out, self);
        proof {
            assert(out@ =~= fmt_const(self@));
        }
        out
    }
}

impl crate::codegen::Codegen<Formatter> for SimpleType {
    open spec fn gen_spec(&self, g: Formatter) -> (Seq<char>, Formatter) {
        (simple_type_name(*self), g)
    }

    fn generate(&self, generator: &mut Formatter) -> (r: String) {
        let r = match self {
            SimpleType::Bool => "bool",
            SimpleType::Int => "int",
            SimpleType::Uint => "uint",
            SimpleType::Float => "float",
            SimpleType::Double => "double",
            SimpleType::String => "string",
        };
        String::from_str(r)
    }
}

impl crate::codegen::Codegen<Formatter> for Annotation {
    open spec fn gen_spec(&self, g: Formatter) -> (Seq<char>, Formatter) {
        (fmt_annotation(self@), g)
    }

    fn generate(&self, generator: &mut Formatter) -> (r: String) {
        let mut out = String::new();
        w_annotation(&mut out, self);
        proof {
            assert(out@ =~= fmt_annotation(self@));
        }
        out
    }
}

impl crate::codegen::Codegen<Formatter> for Append {
    open spec fn gen_spec(&self, g: Formatter) -> (Seq<char>, Formatter) {
        (fmt_append(self@), g)
    }

    fn generate(&self, generator: &mut Formatter) -> (r: String) {
        let mut out = String::new();
        w_append(&mut out, self);
        proof {
            assert(out@ =~= fmt_append(self@));
        }
        out
    }
}

} // verus!
