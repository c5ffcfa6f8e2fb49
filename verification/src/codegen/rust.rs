//! The protocol-lowering backend: structs and enums become Rust aggregate
//! and sum types, and a session type becomes one nested type expression
//! built from `Recv`, `Send`, `Offer`, `Choose`, `Endpoint` and the binary
//! `Next` composition. An `offer`/`choose` union has no inline spelling in
//! the target type system, so it is lowered to an enum registered under a
//! fresh synthetic name (`E0`, `E1`, ...) and referenced by that name; an
//! inline session nested in a union branch likewise registers as a type
//! alias and is referenced by its name. The registry keeps the synthesized
//! declarations in registration order.
use vstd::prelude::*;

use crate::ast::Constant;
use crate::ast::Def;
use crate::ast::EnumDef;
use crate::ast::EnumItem;
use crate::ast::Macro;
use crate::ast::MacrodDef;
use crate::ast::Session;
use crate::ast::SessionDef;
use crate::ast::SessionOrName;
use crate::ast::SessionType;
use crate::ast::SessionUnion;
use crate::ast::SimpleType;
use crate::ast::SpecConstant;
use crate::ast::SpecDef;
use crate::ast::SpecEnumDef;
use crate::ast::SpecEnumItem;
use crate::ast::SpecMacro;
use crate::ast::SpecSession;
use crate::ast::SpecSessionDef;
use crate::ast::SpecSessionOrName;
use crate::ast::SpecSessionType;
use crate::ast::SpecSessionUnion;
use crate::ast::SpecStructDef;
use crate::ast::SpecStructItem;
use crate::ast::SpecType;
use crate::ast::SpecTypeOrName;
use crate::ast::StructDef;
use crate::ast::StructItem;
use crate::ast::Type;
use crate::ast::TypeOrName;
use crate::ast::simple_type_name;
use crate::codegen::formatter::dec_of;
use crate::codegen::formatter::tab_of;

verus! {

// ---------------------------------------------------------------------------
// The lowering context and its mathematical mirror
// ---------------------------------------------------------------------------
/// Mirror of `Rust`: indentation settings, the naming counter, and the
/// synthesized declarations registered so far.
pub struct SpecRust {
    pub tab_size: nat,
    pub indent: nat,
    pub enum_id: nat,
    pub registry: Seq<Seq<char>>,
}

/// The lowering backend's generation context. One context serves one
/// generation run; the counter and registry are shared by everything
/// generated against it.
#[derive(Debug, PartialEq)]
pub struct Rust {
    pub tab_size: usize,
    pub indent: usize,
    pub enum_id: usize,
    pub codegen_regester: Vec<String>,
}

/// View of a registry: each entry as its character sequence.
pub open spec fn view_strings(s: Seq<String>) -> Seq<Seq<char>>
    decreases s,
{
    if s.len() == 0 {
        Seq::empty()
    } else {
        view_strings(s.drop_last()).push(s.last()@)
    }
}

pub proof fn lemma_view_strings_push(s: Seq<String>, x: String)
    ensures
        view_strings(s.push(x)) == view_strings(s).push(x@),
{
    assert(s.push(x).drop_last() =~= s);
}

impl View for Rust {
    type V = SpecRust;

    open spec fn view(&self) -> SpecRust {
        SpecRust {
            tab_size: self.tab_size as nat,
            indent: self.indent as nat,
            enum_id: self.enum_id as nat,
            registry: view_strings(self.codegen_regester@),
        }
    }
}

// ---------------------------------------------------------------------------
// The lowered text and context, as functions of the tree
// ---------------------------------------------------------------------------
/// The synthetic name for counter value `id`.
pub open spec fn rname_of(id: nat) -> Seq<char> {
    seq!['E'] + dec_of(id)
}

/// The counter after one registration; at the top of `usize` it stays
/// put, unreachable in any real run.
pub open spec fn bump(id: nat) -> nat {
    if id < usize::MAX as nat {
        id + 1
    } else {
        id
    }
}

/// A constant as the lowering backend spells it: plain text, signs only
/// where negative.
pub open spec fn rust_const(c: SpecConstant) -> Seq<char> {
    match c {
        SpecConstant::String(s) => s,
        SpecConstant::Float(f) => (if f.neg {
            seq!['-']
        } else {
            Seq::empty()
        }) + f.whole + seq!['.'] + f.frac,
        SpecConstant::Int(i) => if i < 0 {
            seq!['-'] + dec_of((-(i as int)) as nat)
        } else {
            dec_of(i as nat)
        },
        SpecConstant::Uint(u) => dec_of(u as nat),
        SpecConstant::Bool(b) => if b {
            "true"@
        } else {
            "false"@
        },
    }
}

pub open spec fn rgen_ton(t: SpecTypeOrName, st: SpecRust) -> (Seq<char>, SpecRust)
    decreases t,
{
    match t {
        SpecTypeOrName::Name(n) => (n, st),
        SpecTypeOrName::Type(ty) => rgen_type(ty, st),
    }
}

pub open spec fn rgen_type(t: SpecType, st: SpecRust) -> (Seq<char>, SpecRust)
    decreases t,
{
    match t {
        SpecType::SessionType(s) => rgen_session_type(s, st),
        SpecType::Struct(d) => (d.name, st),
        SpecType::Enum(d) => (d.name, st),
        SpecType::ContainerType(_) => (Seq::empty(), st),
        SpecType::SimpleType(s) => (simple_type_name(s), st),
        SpecType::Constant(c) => (rust_const(c), st),
    }
}

/// A session type, folded right to left into one `Next<...>` chain; the
/// last step is generated first, so synthetic names are assigned from the
/// last step backwards.
pub open spec fn rgen_session_type(t: SpecSessionType, st: SpecRust) -> (Seq<char>, SpecRust)
    decreases t,
{
    rgen_steps_acc(t.steps, Seq::empty(), st)
}

pub open spec fn rgen_steps_acc(
    steps: Seq<SpecMacro<SpecSession>>,
    racc: Seq<char>,
    st: SpecRust,
) -> (Seq<char>, SpecRust)
    decreases steps,
{
    if steps.len() == 0 {
        (racc, st)
    } else {
        let (g, st1) = rgen_session(steps.last().body, st);
        let racc2: Seq<char> = if racc.len() == 0 {
            g
        } else {
            "Next<"@ + g + ", "@ + racc + ">"@
        };
        rgen_steps_acc(steps.drop_last(), racc2, st1)
    }
}

pub open spec fn rgen_session(s: SpecSession, st: SpecRust) -> (Seq<char>, SpecRust)
    decreases s,
{
    match s {
        SpecSession::Recv(t) => {
            let (g, st1) = rgen_ton(t, st);
            ("Recv<"@ + g + ">"@, st1)
        },
        SpecSession::Send(t) => {
            let (g, st1) = rgen_ton(t, st);
            ("Send<"@ + g + ">"@, st1)
        },
        SpecSession::Offer(u) => {
            let (nm, st1) = rgen_union(u, st);
            ("Offer<"@ + nm + ">"@, st1)
        },
        SpecSession::Choose(u) => {
            let (nm, st1) = rgen_union(u, st);
            ("Choose<"@ + nm + ">"@, st1)
        },
        SpecSession::Endpoint => ("Endpoint"@, st),
    }
}

/// A union: its branches are lowered to text, a fresh synthetic name is
/// drawn, the enum declaration is registered, and the name is the text at
/// the use site.
pub open spec fn rgen_union(u: SpecSessionUnion, st: SpecRust) -> (Seq<char>, SpecRust)
    decreases u,
{
    let (ts, st1) = rgen_branches(u.branches, st);
    let nm = rname_of(st1.enum_id);
    let decl = "pub enum "@ + nm + " {\n"@ + union_items_text(ts, st1.tab_size) + "}\n"@;
    (
        nm,
        SpecRust {
            tab_size: st1.tab_size,
            indent: st1.indent,
            enum_id: bump(st1.enum_id),
            registry: st1.registry.push(decl),
        },
    )
}

pub open spec fn rgen_branches(bs: Seq<SpecSessionOrName>, st: SpecRust) -> (
    Seq<Seq<char>>,
    SpecRust,
)
    decreases bs,
{
    if bs.len() == 0 {
        (Seq::empty(), st)
    } else {
        let (ts, st1) = rgen_branches(bs.drop_last(), st);
        let (t, st2) = rgen_branch(bs.last(), st1);
        (ts.push(t), st2)
    }
}

/// A branch: a bare name stands as itself; an inline session is lowered
/// to its `Next<...>` chain, registered as a type alias under a fresh
/// synthetic name, and referenced by that name.
pub open spec fn rgen_branch(b: SpecSessionOrName, st: SpecRust) -> (Seq<char>, SpecRust)
    decreases b,
{
    match b {
        SpecSessionOrName::Name(n) => (n, st),
        SpecSessionOrName::Session(t) => {
            let (g, st1) = rgen_session_type(t, st);
            let nm = rname_of(st1.enum_id);
            (
                nm,
                SpecRust {
                    tab_size: st1.tab_size,
                    indent: st1.indent,
                    enum_id: bump(st1.enum_id),
                    registry: st1.registry.push("pub type "@ + nm + " = "@ + g + ";\n"@),
                },
            )
        },
    }
}

/// The members of a synthesized union enum, one per branch.
pub open spec fn union_items_text(ts: Seq<Seq<char>>, tab: nat) -> Seq<char>
    decreases ts,
{
    if ts.len() == 0 {
        Seq::empty()
    } else {
        union_items_text(ts.drop_last(), tab) + tab_of(tab, 1) + "T"@ + ts.last() + "("@
            + ts.last() + "),\n"@
    }
}

pub open spec fn rgen_struct_items(
    items: Seq<SpecMacro<SpecStructItem>>,
    st: SpecRust,
) -> (Seq<char>, SpecRust)
    decreases items,
{
    if items.len() == 0 {
        (Seq::empty(), st)
    } else {
        let (ts, st1) = rgen_struct_items(items.drop_last(), st);
        let (t, st2) = rgen_ton(items.last().body.ty, st1);
        (
            ts + "pub "@ + tab_of(st.tab_size, bump(st.indent)) + items.last().body.name + ": "@
                + t + ",\n"@,
            st2,
        )
    }
}

pub open spec fn rgen_enum_items(
    items: Seq<SpecMacro<SpecEnumItem>>,
    st: SpecRust,
) -> (Seq<char>, SpecRust)
    decreases items,
{
    if items.len() == 0 {
        (Seq::empty(), st)
    } else {
        let (ts, st1) = rgen_enum_items(items.drop_last(), st);
        let (t, st2) = rgen_ton(items.last().body.ty, st1);
        (
            ts + tab_of(st.tab_size, bump(st.indent)) + items.last().body.name + "("@ + t + ")"@
                + (match items.last().body.tag {
                Some(v) => " = "@ + dec_of(v as nat),
                None => Seq::empty(),
            }) + ",\n"@,
            st2,
        )
    }
}

pub open spec fn rgen_session_def(d: SpecSessionDef, st: SpecRust) -> (Seq<char>, SpecRust) {
    let (g, st1) = rgen_session_type(d.session.body, st);
    (
        tab_of(st.tab_size, st.indent) + "pub type "@ + d.name + " = "@ + g + ";\n"@,
        st1,
    )
}

pub open spec fn rgen_struct_def(d: SpecStructDef, st: SpecRust) -> (Seq<char>, SpecRust) {
    let (items, st1) = rgen_struct_items(d.items, st);
    (
        tab_of(st.tab_size, st.indent) + "#[rustfmt::skip]\n"@ + tab_of(st.tab_size, st.indent)
            + "pub struct "@ + d.name + " {\n"@ + items + tab_of(st.tab_size, st.indent) + "}\n"@,
        st1,
    )
}

pub open spec fn rgen_enum_def(d: SpecEnumDef, st: SpecRust) -> (Seq<char>, SpecRust) {
    let (items, st1) = rgen_enum_items(d.items, st);
    (
        tab_of(st.tab_size, st.indent) + "#[rustfmt::skip]\n"@ + tab_of(st.tab_size, st.indent)
            + "enum "@ + d.name + " {\n"@ + items + tab_of(st.tab_size, st.indent) + "}\n"@,
        st1,
    )
}

pub open spec fn rgen_def(d: SpecDef, st: SpecRust) -> (Seq<char>, SpecRust) {
    match d {
        SpecDef::SessionDef(sd) => rgen_session_def(sd, st),
        SpecDef::StructDef(sd) => rgen_struct_def(sd, st),
        SpecDef::EnumDef(ed) => rgen_enum_def(ed, st),
    }
}

/// The appends above a definition are not re-emitted by this backend.
pub open spec fn rgen_macrod_def(m: SpecMacro<SpecDef>, st: SpecRust) -> (Seq<char>, SpecRust) {
    rgen_def(m.body, st)
}

/// The lowered definitions, joined by one newline.
pub open spec fn rgen_defs(defs: Seq<SpecMacro<SpecDef>>, st: SpecRust) -> (Seq<char>, SpecRust)
    decreases defs,
{
    if defs.len() == 0 {
        (Seq::empty(), st)
    } else if defs.len() == 1 {
        rgen_macrod_def(defs.last(), st)
    } else {
        let (ts, st1) = rgen_defs(defs.drop_last(), st);
        let (t, st2) = rgen_macrod_def(defs.last(), st1);
        (ts + "\n"@ + t, st2)
    }
}

/// The registered declarations, joined by one newline.
pub open spec fn registry_text(reg: Seq<Seq<char>>) -> Seq<char>
    decreases reg,
{
    if reg.len() == 0 {
        Seq::empty()
    } else if reg.len() == 1 {
        reg.last()
    } else {
        registry_text(reg.drop_last()) + "\n"@ + reg.last()
    }
}

} // verus!

verus! {

impl Rust {
    /// The same context, one level deeper. The counter and registry are
    /// carried over unchanged.
    pub fn append_indent(&self) -> (r: Self)
        ensures
            r.tab_size == self.tab_size,
            r.indent as nat == crate::codegen::formatter::next_ind(self.indent as nat),
            r.enum_id == self.enum_id,
            view_strings(r.codegen_regester@) == view_strings(self.codegen_regester@),
    {
        let mut reg: Vec<String> = Vec::new();
        let mut i: usize = 0;
        while i < self.codegen_regester.len()
            invariant
                i <= self.codegen_regester.len(),
                view_strings(reg@) == view_strings(self.codegen_regester@.subrange(0, i as int)),
            decreases self.codegen_regester.len() - i,
        {
            let entry = self.codegen_regester[i].clone();
            proof {
                lemma_view_strings_push(reg@, entry);
                lemma_view_strings_push(
                    self.codegen_regester@.subrange(0, i as int),
                    self.codegen_regester@[i as int],
                );
                assert(self.codegen_regester@.subrange(0, i + 1 as int)
                    =~= self.codegen_regester@.subrange(0, i as int).push(
                    self.codegen_regester@[i as int],
                ));
            }
            reg.push(entry);
            i += 1;
        }
        proof {
            assert(self.codegen_regester@.subrange(0, self.codegen_regester@.len() as int)
                =~= self.codegen_regester@);
        }
        Rust {
            tab_size: self.tab_size,
            indent: if self.indent < usize::MAX {
                self.indent + 1
            } else {
                self.indent
            },
            enum_id: self.enum_id,
            codegen_regester: reg,
        }
    }

    /// The current indentation prefix.
    pub fn get_tab(&self) -> (r: String)
        ensures
            r@ == tab_of(self.tab_size as nat, self.indent as nat),
    {
        let mut out = String::new();
        crate::codegen::formatter::w_tab(&mut out, self.tab_size, self.indent);
        proof {
            assert(Seq::<char>::empty() + tab_of(self.tab_size as nat, self.indent as nat)
                =~= tab_of(self.tab_size as nat, self.indent as nat));
        }
        out
    }

    /// Draw the next synthetic name and advance the counter.
    fn new_union_id(&mut self) -> (r: String)
        ensures
            r@ == rname_of(old(self)@.enum_id),
            final(self).tab_size == old(self).tab_size,
            final(self).indent == old(self).indent,
            final(self)@.enum_id == bump(old(self)@.enum_id),
            final(self).codegen_regester == old(self).codegen_regester,
    {
        let mut out = String::new();
        out.append("E");
        crate::codegen::formatter::w_dec(&mut out, self.enum_id as u64);
        proof {
            reveal_strlit("E");
            assert("E"@ =~= seq!['E']);
            assert(out@ =~= rname_of(self@.enum_id));
        }
        if self.enum_id < usize::MAX {
            self.enum_id = self.enum_id + 1;
        }
        out
    }

    fn add_to_register(&mut self, source: String)
        ensures
            final(self).tab_size == old(self).tab_size,
            final(self).indent == old(self).indent,
            final(self).enum_id == old(self).enum_id,
            final(self)@.registry == old(self)@.registry.push(source@),
    {
        proof {
            lemma_view_strings_push(self.codegen_regester@, source);
        }
        self.codegen_regester.push(source);
    }

    /// Register an anonymous union under a fresh synthetic name: one enum
    /// member per branch text. Returns the name.
    pub fn anonymous_union_register(&mut self, union_body: &Vec<String>) -> (r: String)
        ensures
            r@ == rname_of(old(self)@.enum_id),
            final(self).tab_size == old(self).tab_size,
            final(self).indent == old(self).indent,
            final(self)@.enum_id == bump(old(self)@.enum_id),
            final(self)@.registry == old(self)@.registry.push(
                "pub enum "@ + rname_of(old(self)@.enum_id) + " {\n"@ + union_items_text(
                    view_strings(union_body@),
                    old(self)@.tab_size,
                ) + "}\n"@,
            ),
    {
        let mut items = String::new();
        let mut i: usize = 0;
        proof {
            assert(view_strings(union_body@.subrange(0, 0)) =~= Seq::<Seq<char>>::empty());
            assert(items@ =~= union_items_text(
                view_strings(union_body@.subrange(0, 0)),
                self@.tab_size,
            ));
        }
        while i < union_body.len()
            invariant
                i <= union_body.len(),
                items@ == union_items_text(
                    view_strings(union_body@.subrange(0, i as int)),
                    self@.tab_size,
                ),
                self == old(self),
            decreases union_body.len() - i,
        {
            crate::codegen::formatter::w_tab(&mut items, self.tab_size, 1);
            items.append("T");
            items.append(union_body[i].as_str());
            items.append("(");
            items.append(union_body[i].as_str());
            items.append("),\n");
            proof {
                lemma_view_strings_push(union_body@.subrange(0, i as int), union_body@[i as int]);
                assert(union_body@.subrange(0, i + 1 as int) =~= union_body@.subrange(
                    0,
                    i as int,
                ).push(union_body@[i as int]));
                assert(view_strings(union_body@.subrange(0, i as int)).push(
                    union_body@[i as int]@,
                ).drop_last() =~= view_strings(union_body@.subrange(0, i as int)));
                reveal_strlit("T");
                reveal_strlit("(");
                reveal_strlit("),\n");
                assert(items@ =~= union_items_text(
                    view_strings(union_body@.subrange(0, i + 1 as int)),
                    self@.tab_size,
                ));
            }
            i += 1;
        }
        proof {
            assert(union_body@.subrange(0, union_body@.len() as int) =~= union_body@);
        }
        let name = self.new_union_id();
        let mut decl = String::new();
        decl.append("pub enum ");
        decl.append(name.as_str());
        decl.append(" {\n");
        decl.append(items.as_str());
        decl.append("}\n");
        proof {
            assert(decl@ =~= "pub enum "@ + rname_of(old(self)@.enum_id) + " {\n"@
                + union_items_text(view_strings(union_body@), old(self)@.tab_size) + "}\n"@);
        }
        self.add_to_register(decl);
        name
    }

    /// Register an anonymous session type under a fresh synthetic name, as
    /// a type alias for the given lowered text. Returns the name.
    pub fn anonymous_session_register(&mut self, session: &str) -> (r: String)
        ensures
            r@ == rname_of(old(self)@.enum_id),
            final(self).tab_size == old(self).tab_size,
            final(self).indent == old(self).indent,
            final(self)@.enum_id == bump(old(self)@.enum_id),
            final(self)@.registry == old(self)@.registry.push(
                "pub type "@ + rname_of(old(self)@.enum_id) + " = "@ + session@ + ";\n"@,
            ),
    {
        let name = self.new_union_id();
        let mut decl = String::new();
        decl.append("pub type ");
        decl.append(name.as_str());
        decl.append(" = ");
        decl.append(session);
        decl.append(";\n");
        proof {
            assert(decl@ =~= "pub type "@ + rname_of(old(self)@.enum_id) + " = "@ + session@
                + ";\n"@);
        }
        self.add_to_register(decl);
        name
    }
}

} // verus!

verus! {

/// A constant, spelled for the lowering backend.
fn rc_const(c: &Constant) -> (r: String)
    ensures
        r@ == rust_const(c@),
{
    let mut out = String::new();
    match c {
        Constant::String(s) => {
            out.append(s.as_str());
        },
        Constant::Float(f) => {
            if f.neg {
                out.append("-");
                proof {
                    reveal_strlit("-");
                    assert("-"@ =~= seq!['-']);
                }
            }
            out.append(f.whole.as_str());
            out.append(".");
            out.append(f.frac.as_str());
            proof {
                reveal_strlit(".");
                assert("."@ =~= seq!['.']);
                assert(out@ =~= rust_const(c@));
            }
        },
        Constant::Int(i) => {
            if *i < 0 {
                out.append("-");
                let mag: u64 = if *i == i64::MIN {
                    0x8000_0000_0000_0000u64
                } else {
                    (-*i) as u64
                };
                crate::codegen::formatter::w_dec(&mut out, mag);
                proof {
                    reveal_strlit("-");
                    assert("-"@ =~= seq!['-']);
                    assert(out@ =~= rust_const(c@));
                }
            } else {
                crate::codegen::formatter::w_dec(&mut out, *i as u64);
                proof {
                    assert(out@ =~= rust_const(c@));
                }
            }
        },
        Constant::Uint(u) => {
            crate::codegen::formatter::w_dec(&mut out, *u);
            proof {
                assert(out@ =~= rust_const(c@));
            }
        },
        Constant::Bool(b) => {
            if *b {
                out.append("true");
            } else {
                out.append("false");
            }
            proof {
                assert(out@ =~= rust_const(c@));
            }
        },
    }
    out
}

/// Lower a type-or-name reference.
pub fn rg_ton(t: &TypeOrName, rs: &mut Rust) -> (r: String)
    ensures
        r@ == rgen_ton(t@, old(rs)@).0,
        final(rs)@ == rgen_ton(t@, old(rs)@).1,
        final(rs).tab_size == old(rs).tab_size,
        final(rs).indent == old(rs).indent,
    decreases t, 0int,
{
    match t {
        TypeOrName::Name(n) => n.clone(),
        TypeOrName::Type(ty) => rg_type(&**ty, rs),
    }
}

/// Lower an inline type.
pub fn rg_type(t: &Type, rs: &mut Rust) -> (r: String)
    ensures
        r@ == rgen_type(t@, old(rs)@).0,
        final(rs)@ == rgen_type(t@, old(rs)@).1,
        final(rs).tab_size == old(rs).tab_size,
        final(rs).indent == old(rs).indent,
    decreases t, 0int,
{
    match t {
        Type::SessionType(st) => rg_session_type(st, rs),
        Type::Struct(d) => d.name.clone(),
        Type::Enum(d) => d.name.clone(),
        Type::ContainerType(_) => String::new(),
        Type::SimpleType(st) => {
            let r = match st {
                SimpleType::Bool => "bool",
                SimpleType::Int => "int",
                SimpleType::Uint => "uint",
                SimpleType::Float => "float",
                SimpleType::Double => "double",
                SimpleType::String => "string",
            };
            String::from_str(r)
        },
        Type::Constant(c) => rc_const(c),
    }
}

/// Lower a session type into one `Next<...>` chain, last step first.
pub fn rg_session_type(t: &SessionType, rs: &mut Rust) -> (r: String)
    ensures
        r@ == rgen_session_type(t@, old(rs)@).0,
        final(rs)@ == rgen_session_type(t@, old(rs)@).1,
        final(rs).tab_size == old(rs).tab_size,
        final(rs).indent == old(rs).indent,
    decreases t, 1int,
{
    let n: usize = t.0.len();
    proof {
        assert(t.0@.subrange(0, n as int) =~= t.0@);
    }
    rg_steps_acc(&t.0, n, String::new(), rs)
}

fn rg_steps_acc(steps: &Vec<Macro<Session>>, hi: usize, racc: String, rs: &mut Rust) -> (r: String)
    requires
        hi <= steps@.len(),
    ensures
        r@ == rgen_steps_acc(
            crate::ast::view_steps(steps@.subrange(0, hi as int)),
            racc@,
            old(rs)@,
        ).0,
        final(rs)@ == rgen_steps_acc(
            crate::ast::view_steps(steps@.subrange(0, hi as int)),
            racc@,
            old(rs)@,
        ).1,
        final(rs).tab_size == old(rs).tab_size,
        final(rs).indent == old(rs).indent,
    decreases steps, hi as int,
{
    if hi == 0 {
        proof {
            assert(crate::ast::view_steps(steps@.subrange(0, 0)) =~= Seq::<
                SpecMacro<SpecSession>,
            >::empty());
        }
        racc
    } else {
        proof {
            assert(steps@.subrange(0, hi as int) =~= steps@.subrange(0, hi - 1 as int).push(
                steps@[hi - 1 as int],
            ));
            crate::ast::lemma_view_steps_push(
                steps@.subrange(0, hi - 1 as int),
                steps@[hi - 1 as int],
            );
            crate::ast::lemma_view_steps_len(steps@.subrange(0, hi - 1 as int));
            assert(crate::ast::view_steps(steps@.subrange(0, hi - 1 as int)).push(
                crate::ast::view_step_macro(steps@[hi - 1 as int]),
            ).drop_last() =~= crate::ast::view_steps(steps@.subrange(0, hi - 1 as int)));
        }
        let g = rg_session(&*steps[hi - 1].body, rs);
        let racc2: String = if racc.as_str().is_empty() {
            g
        } else {
            let mut t2 = String::new();
            t2.append("Next<");
            t2.append(g.as_str());
            t2.append(", ");
            t2.append(racc.as_str());
            t2.append(">");
            proof {
                assert(t2@ =~= "Next<"@ + g@ + ", "@ + racc@ + ">"@);
            }
            t2
        };
        rg_steps_acc(steps, hi - 1, racc2, rs)
    }
}

/// Lower one session step.
pub fn rg_session(s: &Session, rs: &mut Rust) -> (r: String)
    ensures
        r@ == rgen_session(s@, old(rs)@).0,
        final(rs)@ == rgen_session(s@, old(rs)@).1,
        final(rs).tab_size == old(rs).tab_size,
        final(rs).indent == old(rs).indent,
    decreases s, 0int,
{
    match s {
        Session::Recv(t) => {
            let g = rg_ton(t, rs);
            let mut out = String::new();
            out.append("Recv<");
            out.append(g.as_str());
            out.append(">");
            proof {
                assert(out@ =~= "Recv<"@ + g@ + ">"@);
            }
            out
        },
        Session::Send(t) => {
            let g = rg_ton(t, rs);
            let mut out = String::new();
            out.append("Send<");
            out.append(g.as_str());
            out.append(">");
            proof {
                assert(out@ =~= "Send<"@ + g@ + ">"@);
            }
            out
        },
        Session::Offer(u) => {
            let nm = rg_union(u, rs);
            let mut out = String::new();
            out.append("Offer<");
            out.append(nm.as_str());
            out.append(">");
            proof {
                assert(out@ =~= "Offer<"@ + nm@ + ">"@);
            }
            out
        },
        Session::Choose(u) => {
            let nm = rg_union(u, rs);
            let mut out = String::new();
            out.append("Choose<");
            out.append(nm.as_str());
            out.append(">");
            proof {
                assert(out@ =~= "Choose<"@ + nm@ + ">"@);
            }
            out
        },
        Session::Endpoint => String::from_str("Endpoint"),
    }
}

/// Lower a union: register it, and hand back its synthetic name.
pub fn rg_union(u: &SessionUnion, rs: &mut Rust) -> (r: String)
    ensures
        r@ == rgen_union(u@, old(rs)@).0,
        final(rs)@ == rgen_union(u@, old(rs)@).1,
        final(rs).tab_size == old(rs).tab_size,
        final(rs).indent == old(rs).indent,
    decreases u, 1int,
{
    let n: usize = u.0.len();
    proof {
        assert(u.0@.subrange(0, n as int) =~= u.0@);
    }
    let ts = rg_branches(u, n, rs);
    rs.anonymous_union_register(&ts)
}

fn rg_branches(u: &SessionUnion, hi: usize, rs: &mut Rust) -> (r: Vec<String>)
    requires
        hi <= u.0@.len(),
    ensures
        view_strings(r@) == rgen_branches(
            crate::ast::view_branches(u.0@.subrange(0, hi as int)),
            old(rs)@,
        ).0,
        final(rs)@ == rgen_branches(
            crate::ast::view_branches(u.0@.subrange(0, hi as int)),
            old(rs)@,
        ).1,
        final(rs).tab_size == old(rs).tab_size,
        final(rs).indent == old(rs).indent,
    decreases u, 0int, hi as int,
{
    if hi == 0 {
        let r: Vec<String> = Vec::new();
        proof {
            assert(crate::ast::view_branches(u.0@.subrange(0, 0)) =~= Seq::<
                SpecSessionOrName,
            >::empty());
            assert(view_strings(r@) =~= Seq::<Seq<char>>::empty());
        }
        r
    } else {
        proof {
            assert(u.0@.subrange(0, hi as int) =~= u.0@.subrange(0, hi - 1 as int).push(
                u.0@[hi - 1 as int],
            ));
            crate::ast::lemma_view_branches_push(
                u.0@.subrange(0, hi - 1 as int),
                u.0@[hi - 1 as int],
            );
            crate::ast::lemma_view_branches_len(u.0@.subrange(0, hi - 1 as int));
            assert(crate::ast::view_branches(u.0@.subrange(0, hi - 1 as int)).push(
                crate::ast::view_branch(u.0@[hi - 1 as int]),
            ).drop_last() =~= crate::ast::view_branches(u.0@.subrange(0, hi - 1 as int)));
        }
        let mut ts = rg_branches(u, hi - 1, rs);
        let t = rg_branch(&u.0[hi - 1], rs);
        proof {
            lemma_view_strings_push(ts@, t);
        }
        ts.push(t);
        ts
    }
}

/// Lower one union branch.
pub fn rg_branch(b: &SessionOrName, rs: &mut Rust) -> (r: String)
    ensures
        r@ == rgen_branch(b@, old(rs)@).0,
        final(rs)@ == rgen_branch(b@, old(rs)@).1,
        final(rs).tab_size == old(rs).tab_size,
        final(rs).indent == old(rs).indent,
    decreases b, 0int,
{
    match b {
        SessionOrName::Name(n) => n.clone(),
        SessionOrName::Session(st) => {
            let g = rg_session_type(&**st, rs);
            rs.anonymous_session_register(g.as_str())
        },
    }
}

} // verus!

verus! {

fn rg_struct_items(items: &Vec<Macro<StructItem>>, hi: usize, rs: &mut Rust) -> (r: String)
    requires
        hi <= items@.len(),
    ensures
        r@ == rgen_struct_items(
            crate::ast::view_struct_items(items@.subrange(0, hi as int)),
            old(rs)@,
        ).0,
        final(rs)@ == rgen_struct_items(
            crate::ast::view_struct_items(items@.subrange(0, hi as int)),
            old(rs)@,
        ).1,
        final(rs).tab_size == old(rs).tab_size,
        final(rs).indent == old(rs).indent,
    decreases hi,
{
    if hi == 0 {
        proof {
            assert(crate::ast::view_struct_items(items@.subrange(0, 0)) =~= Seq::<
                SpecMacro<SpecStructItem>,
            >::empty());
        }
        String::new()
    } else {
        proof {
            assert(items@.subrange(0, hi as int) =~= items@.subrange(0, hi - 1 as int).push(
                items@[hi - 1 as int],
            ));
            crate::ast::lemma_view_struct_items_push(
                items@.subrange(0, hi - 1 as int),
                items@[hi - 1 as int],
            );
            assert(crate::ast::view_struct_items(items@.subrange(0, hi - 1 as int)).push(
                crate::ast::view_struct_item_macro(items@[hi - 1 as int]),
            ).drop_last() =~= crate::ast::view_struct_items(items@.subrange(0, hi - 1 as int)));
        }
        let mut out = rg_struct_items(items, hi - 1, rs);
        let item = &items[hi - 1];
        let t = rg_ton(&item.body.1, rs);
        out.append("pub ");
        let ind2: usize = if rs.indent < usize::MAX {
            rs.indent + 1
        } else {
            rs.indent
        };
        crate::codegen::formatter::w_tab(&mut out, rs.tab_size, ind2);
        out.append(item.body.0.as_str());
        out.append(": ");
        out.append(t.as_str());
        out.append(",\n");
        proof {
            assert(out@ =~= rgen_struct_items(
                crate::ast::view_struct_items(items@.subrange(0, hi as int)),
                old(rs)@,
            ).0);
        }
        out
    }
}

fn rg_enum_items(items: &Vec<Macro<EnumItem>>, hi: usize, rs: &mut Rust) -> (r: String)
    requires
        hi <= items@.len(),
    ensures
        r@ == rgen_enum_items(
            crate::ast::view_enum_items(items@.subrange(0, hi as int)),
            old(rs)@,
        ).0,
        final(rs)@ == rgen_enum_items(
            crate::ast::view_enum_items(items@.subrange(0, hi as int)),
            old(rs)@,
        ).1,
        final(rs).tab_size == old(rs).tab_size,
        final(rs).indent == old(rs).indent,
    decreases hi,
{
    if hi == 0 {
        proof {
            assert(crate::ast::view_enum_items(items@.subrange(0, 0)) =~= Seq::<
                SpecMacro<SpecEnumItem>,
            >::empty());
        }
        String::new()
    } else {
        proof {
            assert(items@.subrange(0, hi as int) =~= items@.subrange(0, hi - 1 as int).push(
                items@[hi - 1 as int],
            ));
            crate::ast::lemma_view_enum_items_push(
                items@.subrange(0, hi - 1 as int),
                items@[hi - 1 as int],
            );
            assert(crate::ast::view_enum_items(items@.subrange(0, hi - 1 as int)).push(
                crate::ast::view_enum_item_macro(items@[hi - 1 as int]),
            ).drop_last() =~= crate::ast::view_enum_items(items@.subrange(0, hi - 1 as int)));
        }
        let mut out = rg_enum_items(items, hi - 1, rs);
        let item = &items[hi - 1];
        let t = rg_ton(&item.body.1, rs);
        let ind2: usize = if rs.indent < usize::MAX {
            rs.indent + 1
        } else {
            rs.indent
        };
        crate::codegen::formatter::w_tab(&mut out, rs.tab_size, ind2);
        out.append(item.body.0.as_str());
        out.append("(");
        out.append(t.as_str());
        out.append(")");
        match item.body.2 {
            Some(v) => {
                out.append(" = ");
                crate::codegen::formatter::w_dec(&mut out, v);
            },
            None => {},
        }
        out.append(",\n");
        proof {
            assert(out@ =~= rgen_enum_items(
                crate::ast::view_enum_items(items@.subrange(0, hi as int)),
                old(rs)@,
            ).0);
        }
        out
    }
}

/// Lower one definition.
pub fn rg_def(d: &Def, rs: &mut Rust) -> (r: String)
    ensures
        r@ == rgen_def(d@, old(rs)@).0,
        final(rs)@ == rgen_def(d@, old(rs)@).1,
        final(rs).tab_size == old(rs).tab_size,
        final(rs).indent == old(rs).indent,
{
    match d {
        Def::SessionDef(sd) => {
            let tab = rs.get_tab();
            let g = rg_session_type(&*sd.session.body, rs);
            let mut out = String::new();
            out.append(tab.as_str());
            out.append("pub type ");
            out.append(sd.name.as_str());
            out.append(" = ");
            out.append(g.as_str());
            out.append(";\n");
            proof {
                assert(out@ =~= rgen_def(d@, old(rs)@).0);
            }
            out
        },
        Def::StructDef(sd) => {
            let tab = rs.get_tab();
            let n: usize = sd.items.len();
            proof {
                assert(sd.items@.subrange(0, n as int) =~= sd.items@);
            }
            let items = rg_struct_items(&sd.items, n, rs);
            let mut out = String::new();
            out.append(tab.as_str());
            out.append("#[rustfmt::skip]\n");
            out.append(tab.as_str());
            out.append("pub struct ");
            out.append(sd.name.as_str());
            out.append(" {\n");
            out.append(items.as_str());
            out.append(tab.as_str());
            out.append("}\n");
            proof {
                assert(out@ =~= rgen_def(d@, old(rs)@).0);
            }
            out
        },
        Def::EnumDef(ed) => {
            let tab = rs.get_tab();
            let n: usize = ed.items.len();
            proof {
                assert(ed.items@.subrange(0, n as int) =~= ed.items@);
            }
            let items = rg_enum_items(&ed.items, n, rs);
            let mut out = String::new();
            out.append(tab.as_str());
            out.append("#[rustfmt::skip]\n");
            out.append(tab.as_str());
            out.append("enum ");
            out.append(ed.name.as_str());
            out.append(" {\n");
            out.append(items.as_str());
            out.append(tab.as_str());
            out.append("}\n");
            proof {
                assert(out@ =~= rgen_def(d@, old(rs)@).0);
            }
            out
        },
    }
}

/// Lower a parsed document body; the registry keeps what was synthesized.
pub fn rg_defs(defs: &Vec<MacrodDef>, rs: &mut Rust) -> (r: String)
    ensures
        r@ == rgen_defs(crate::ast::view_defs(defs@), old(rs)@).0,
        final(rs)@ == rgen_defs(crate::ast::view_defs(defs@), old(rs)@).1,
        final(rs).tab_size == old(rs).tab_size,
        final(rs).indent == old(rs).indent,
{
    let n: usize = defs.len();
    proof {
        assert(defs@.subrange(0, n as int) =~= defs@);
    }
    rg_defs_upto(defs, n, rs)
}

fn rg_defs_upto(defs: &Vec<MacrodDef>, hi: usize, rs: &mut Rust) -> (r: String)
    requires
        hi <= defs@.len(),
    ensures
        r@ == rgen_defs(crate::ast::view_defs(defs@.subrange(0, hi as int)), old(rs)@).0,
        final(rs)@ == rgen_defs(crate::ast::view_defs(defs@.subrange(0, hi as int)), old(rs)@).1,
        final(rs).tab_size == old(rs).tab_size,
        final(rs).indent == old(rs).indent,
    decreases hi,
{
    if hi == 0 {
        proof {
            assert(crate::ast::view_defs(defs@.subrange(0, 0)) =~= Seq::<
                SpecMacro<SpecDef>,
            >::empty());
        }
        String::new()
    } else {
        proof {
            assert(defs@.subrange(0, hi as int) =~= defs@.subrange(0, hi - 1 as int).push(
                defs@[hi - 1 as int],
            ));
            crate::ast::lemma_view_defs_push(defs@.subrange(0, hi - 1 as int), defs@[hi - 1 as int]);
            crate::ast::lemma_view_defs_len(defs@.subrange(0, hi - 1 as int));
            assert(crate::ast::view_defs(defs@.subrange(0, hi - 1 as int)).push(
                crate::ast::view_macrod_def(defs@[hi - 1 as int]),
            ).drop_last() =~= crate::ast::view_defs(defs@.subrange(0, hi - 1 as int)));
        }
        let mut out = rg_defs_upto(defs, hi - 1, rs);
        let t = rg_def(&*defs[hi - 1].0.body, rs);
        if hi > 1 {
            out.append("\n");
        }
        out.append(t.as_str());
        proof {
            assert(out@ =~= rgen_defs(
                crate::ast::view_defs(defs@.subrange(0, hi as int)),
                old(rs)@,
            ).0);
        }
        out
    }
}

/// The registered declarations, joined by one newline.
pub fn registry_join(rs: &Rust) -> (r: String)
    ensures
        r@ == registry_text(rs@.registry),
{
    let mut out = String::new();
    let mut i: usize = 0;
    proof {
        assert(view_strings(rs.codegen_regester@.subrange(0, 0)) =~= Seq::<Seq<char>>::empty());
        assert(out@ =~= registry_text(view_strings(rs.codegen_regester@.subrange(0, 0))));
    }
    while i < rs.codegen_regester.len()
        invariant
            i <= rs.codegen_regester.len(),
            out@ == registry_text(view_strings(rs.codegen_regester@.subrange(0, i as int))),
        decreases rs.codegen_regester.len() - i,
    {
        if i > 0 {
            out.append("\n");
        }
        out.append(rs.codegen_regester[i].as_str());
        proof {
            lemma_view_strings_push(
                rs.codegen_regester@.subrange(0, i as int),
                rs.codegen_regester@[i as int],
            );
            assert(rs.codegen_regester@.subrange(0, i + 1 as int) =~= rs.codegen_regester@.subrange(
                0,
                i as int,
            ).push(rs.codegen_regester@[i as int]));
            assert(view_strings(rs.codegen_regester@.subrange(0, i as int)).push(
                rs.codegen_regester@[i as int]@,
            ).drop_last() =~= view_strings(rs.codegen_regester@.subrange(0, i as int)));
            lemma_view_strings_len(rs.codegen_regester@.subrange(0, i as int));
            assert(out@ =~= registry_text(view_strings(rs.codegen_regester@.subrange(0, i + 1 as int))));
        }
        i += 1;
    }
    proof {
        assert(rs.codegen_regester@.subrange(0, rs.codegen_regester@.len() as int)
            =~= rs.codegen_regester@);
    }
    out
}

pub proof fn lemma_view_strings_len(s: Seq<String>)
    ensures
        view_strings(s).len() == s.len(),
    decreases s,
{
    if s.len() > 0 {
        lemma_view_strings_len(s.drop_last());
    }
}

impl crate::codegen::Codegen<Rust> for MacrodDef {
    open spec fn gen_spec(&self, g: Rust) -> (Seq<char>, SpecRust) {
        rgen_macrod_def(self@, g@)
    }

    fn generate(&self, generator: &mut Rust) -> (r: String) {
        rg_def(&*self.0.body, generator)
    }
}

} // verus!

verus! {

impl crate::codegen::Codegen<Rust> for Def {
    open spec fn gen_spec(&self, g: Rust) -> (Seq<char>, SpecRust) {
        rgen_def(self@, g@)
    }

    fn generate(&self, generator: &mut Rust) -> (r: String) {
        rg_def(self, generator)
    }
}

impl crate::codegen::Codegen<Rust> for SessionType {
    open spec fn gen_spec(&self, g: Rust) -> (Seq<char>, SpecRust) {
        rgen_session_type(self@, g@)
    }

    fn generate(&self, generator: &mut Rust) -> (r: String) {
        rg_session_type(self, generator)
    }
}

impl crate::codegen::Codegen<Rust> for Session {
    open spec fn gen_spec(&self, g: Rust) -> (Seq<char>, SpecRust) {
        rgen_session(self@, g@)
    }

    fn generate(&self, generator: &mut Rust) -> (r: String) {
        rg_session(self, generator)
    }
}

impl crate::codegen::Codegen<Rust> for SessionUnion {
    open spec fn gen_spec(&self, g: Rust) -> (Seq<char>, SpecRust) {
        rgen_union(self@, g@)
    }

    fn generate(&self, generator: &mut Rust) -> (r: String) {
        rg_union(self, generator)
    }
}

impl crate::codegen::Codegen<Rust> for SessionOrName {
    open spec fn gen_spec(&self, g: Rust) -> (Seq<char>, SpecRust) {
        rgen_branch(self@, g@)
    }

    fn generate(&self, generator: &mut Rust) -> (r: String) {
        rg_branch(self, generator)
    }
}

impl crate::codegen::Codegen<Rust> for TypeOrName {
    open spec fn gen_spec(&self, g: Rust) -> (Seq<char>, SpecRust) {
        rgen_ton(self@, g@)
    }

    fn generate(&self, generator: &mut Rust) -> (r: String) {
        rg_ton(self, generator)
    }
}

impl crate::codegen::Codegen<Rust> for Type {
    open spec fn gen_spec(&self, g: Rust) -> (Seq<char>, SpecRust) {
        rgen_type(self@, g@)
    }

    fn generate(&self, generator: &mut Rust) -> (r: String) {
        rg_type(self, generator)
    }
}

impl crate::codegen::Codegen<Rust> for Constant {
    open spec fn gen_spec(&self, g: Rust) -> (Seq<char>, SpecRust) {
        (rust_const(self@), g@)
    }

    fn generate(&self, generator: &mut Rust) -> (r: String) {
        rc_const(self)
    }
}

impl crate::codegen::Codegen<Rust> for SimpleType {
    open spec fn gen_spec(&self, g: Rust) -> (Seq<char>, SpecRust) {
        (simple_type_name(*self), g@)
    }

    fn generate(&self, generator: &mut Rust) -> (r: String) {
        let r = match self {
            SimpleType::Bool => "bool",
            SimpleType::Int => "int",
            SimpleType::Uint => "uint",
            SimpleType::Float => "float",
            SimpleType::Double => "double",
            SimpleType::String => "string",
        };
        String::from_str(r)
    }
}

/// The lowering backend drops the appends of a wrapped node.
impl<T: crate::codegen::Codegen<Rust>> crate::codegen::Codegen<Rust> for Macro<T> {
    open spec fn gen_spec(&self, g: Rust) -> (Seq<char>, SpecRust) {
        (*self.body).gen_spec(g)
    }

    fn generate(&self, generator: &mut Rust) -> (r: String) {
        self.body.generate(generator)
    }
}

} // verus!

verus! {

// ---------------------------------------------------------------------------
// Registry determinism: what a lowering run produces depends on the
// context only through its counter and indentation settings. The
// declarations already in the registry are carried through untouched, and
// everything appended after them is what a run over an empty registry
// would have appended. In particular, generating the same tree twice with
// fresh contexts yields identical synthetic names in identical order.
// ---------------------------------------------------------------------------
/// The same context with its registry emptied.
pub open spec fn emptied(c: SpecRust) -> SpecRust {
    SpecRust { tab_size: c.tab_size, indent: c.indent, enum_id: c.enum_id, registry: Seq::empty() }
}

/// The two runs agree on text and counter, and the full run's registry is
/// the old one plus what the emptied run produced.
pub open spec fn det_rel(c: SpecRust, r: (Seq<char>, SpecRust), r0: (Seq<char>, SpecRust)) -> bool {
    &&& r.0 == r0.0
    &&& r.1.enum_id == r0.1.enum_id
    &&& r.1.tab_size == c.tab_size
    &&& r.1.indent == c.indent
    &&& r0.1.tab_size == c.tab_size
    &&& r0.1.indent == c.indent
    &&& r.1.registry == c.registry + r0.1.registry
}

pub proof fn lemma_det_ton(t: SpecTypeOrName, c: SpecRust)
    ensures
        det_rel(c, rgen_ton(t, c), rgen_ton(t, emptied(c))),
    decreases t, 3int,
{
    match t {
        SpecTypeOrName::Name(_) => {
            assert(c.registry =~= c.registry + Seq::<Seq<char>>::empty());
        },
        SpecTypeOrName::Type(ty) => lemma_det_type(ty, c),
    }
}

pub proof fn lemma_det_type(t: SpecType, c: SpecRust)
    ensures
        det_rel(c, rgen_type(t, c), rgen_type(t, emptied(c))),
    decreases t, 2int,
{
    match t {
        SpecType::SessionType(s) => lemma_det_session_type(s, c),
        _ => {
            assert(c.registry =~= c.registry + Seq::<Seq<char>>::empty());
        },
    }
}

pub proof fn lemma_det_session_type(t: SpecSessionType, c: SpecRust)
    ensures
        det_rel(c, rgen_session_type(t, c), rgen_session_type(t, emptied(c))),
    decreases t, 1int,
{
    lemma_det_steps_acc(t.steps, Seq::empty(), c);
}

pub proof fn lemma_det_steps_acc(steps: Seq<SpecMacro<SpecSession>>, racc: Seq<char>, c: SpecRust)
    ensures
        det_rel(c, rgen_steps_acc(steps, racc, c), rgen_steps_acc(steps, racc, emptied(c))),
    decreases steps, 0int,
{
    if steps.len() == 0 {
        assert(c.registry =~= c.registry + Seq::<Seq<char>>::empty());
    } else {
        lemma_det_session(steps.last().body, c);
        let (g, st1) = rgen_session(steps.last().body, c);
        let (g0, st10) = rgen_session(steps.last().body, emptied(c));
        let racc2: Seq<char> = if racc.len() == 0 {
            g
        } else {
            "Next<"@ + g + ", "@ + racc + ">"@
        };
        lemma_det_steps_acc(steps.drop_last(), racc2, st1);
        lemma_det_steps_acc(steps.drop_last(), racc2, st10);
        assert(emptied(st1) == emptied(st10));
        let d1 = rgen_steps_acc(steps.drop_last(), racc2, emptied(st1));
        assert(c.registry + (st10.registry + d1.1.registry) =~= (c.registry + st10.registry)
            + d1.1.registry);
    }
}

pub proof fn lemma_det_session(s: SpecSession, c: SpecRust)
    ensures
        det_rel(c, rgen_session(s, c), rgen_session(s, emptied(c))),
    decreases s, 0int,
{
    match s {
        SpecSession::Recv(t) => lemma_det_ton(t, c),
        SpecSession::Send(t) => lemma_det_ton(t, c),
        SpecSession::Offer(u) => lemma_det_union(u, c),
        SpecSession::Choose(u) => lemma_det_union(u, c),
        SpecSession::Endpoint => {
            assert(c.registry =~= c.registry + Seq::<Seq<char>>::empty());
        },
    }
}

pub proof fn lemma_det_union(u: SpecSessionUnion, c: SpecRust)
    ensures
        det_rel(c, rgen_union(u, c), rgen_union(u, emptied(c))),
    decreases u, 1int,
{
    lemma_det_branches(u.branches, c);
    let (ts, st1) = rgen_branches(u.branches, c);
    let (ts0, st10) = rgen_branches(u.branches, emptied(c));
    let nm = rname_of(st1.enum_id);
    let decl = "pub enum "@ + nm + " {\n"@ + union_items_text(ts, st1.tab_size) + "}\n"@;
    assert((c.registry + st10.registry).push(decl) =~= c.registry + st10.registry.push(decl));
}

pub proof fn lemma_det_branches(bs: Seq<SpecSessionOrName>, c: SpecRust)
    ensures
        ({
            let (ts, st) = rgen_branches(bs, c);
            let (ts0, st0) = rgen_branches(bs, emptied(c));
            ts == ts0 && st.enum_id == st0.enum_id && st.tab_size == c.tab_size && st.indent
                == c.indent && st0.tab_size == c.tab_size && st0.indent == c.indent && st.registry
                == c.registry + st0.registry
        }),
    decreases bs, 0int,
{
    if bs.len() == 0 {
        assert(c.registry =~= c.registry + Seq::<Seq<char>>::empty());
    } else {
        lemma_det_branches(bs.drop_last(), c);
        let (ts, st1) = rgen_branches(bs.drop_last(), c);
        let (ts0, st10) = rgen_branches(bs.drop_last(), emptied(c));
        lemma_det_branch(bs.last(), st1);
        lemma_det_branch(bs.last(), st10);
        assert(emptied(st1) == emptied(st10));
        let d = rgen_branch(bs.last(), emptied(st1));
        assert(c.registry + (st10.registry + d.1.registry) =~= (c.registry + st10.registry)
            + d.1.registry);
    }
}

pub proof fn lemma_det_branch(b: SpecSessionOrName, c: SpecRust)
    ensures
        det_rel(c, rgen_branch(b, c), rgen_branch(b, emptied(c))),
    decreases b, 0int,
{
    match b {
        SpecSessionOrName::Name(_) => {
            assert(c.registry =~= c.registry + Seq::<Seq<char>>::empty());
        },
        SpecSessionOrName::Session(t) => {
            lemma_det_session_type(t, c);
            let (g, st1) = rgen_session_type(t, c);
            let (g0, st10) = rgen_session_type(t, emptied(c));
            let nm = rname_of(st1.enum_id);
            let decl = "pub type "@ + nm + " = "@ + g + ";\n"@;
            assert((c.registry + st10.registry).push(decl) =~= c.registry + st10.registry.push(
                decl,
            ));
        },
    }
}

pub proof fn lemma_det_struct_items(items: Seq<SpecMacro<SpecStructItem>>, c: SpecRust)
    ensures
        det_rel(c, rgen_struct_items(items, c), rgen_struct_items(items, emptied(c))),
    decreases items,
{
    if items.len() == 0 {
        assert(c.registry =~= c.registry + Seq::<Seq<char>>::empty());
    } else {
        lemma_det_struct_items(items.drop_last(), c);
        let (ts, st1) = rgen_struct_items(items.drop_last(), c);
        let (ts0, st10) = rgen_struct_items(items.drop_last(), emptied(c));
        lemma_det_ton(items.last().body.ty, st1);
        lemma_det_ton(items.last().body.ty, st10);
        assert(emptied(st1) == emptied(st10));
        let d = rgen_ton(items.last().body.ty, emptied(st1));
        assert(c.registry + (st10.registry + d.1.registry) =~= (c.registry + st10.registry)
            + d.1.registry);
    }
}

pub proof fn lemma_det_enum_items(items: Seq<SpecMacro<SpecEnumItem>>, c: SpecRust)
    ensures
        det_rel(c, rgen_enum_items(items, c), rgen_enum_items(items, emptied(c))),
    decreases items,
{
    if items.len() == 0 {
        assert(c.registry =~= c.registry + Seq::<Seq<char>>::empty());
    } else {
        lemma_det_enum_items(items.drop_last(), c);
        let (ts, st1) = rgen_enum_items(items.drop_last(), c);
        let (ts0, st10) = rgen_enum_items(items.drop_last(), emptied(c));
        lemma_det_ton(items.last().body.ty, st1);
        lemma_det_ton(items.last().body.ty, st10);
        assert(emptied(st1) == emptied(st10));
        let d = rgen_ton(items.last().body.ty, emptied(st1));
        assert(c.registry + (st10.registry + d.1.registry) =~= (c.registry + st10.registry)
            + d.1.registry);
    }
}

pub proof fn lemma_det_def(d: SpecDef, c: SpecRust)
    ensures
        det_rel(c, rgen_def(d, c), rgen_def(d, emptied(c))),
{
    match d {
        SpecDef::SessionDef(sd) => lemma_det_session_type(sd.session.body, c),
        SpecDef::StructDef(sd) => lemma_det_struct_items(sd.items, c),
        SpecDef::EnumDef(ed) => lemma_det_enum_items(ed.items, c),
    }
}

pub proof fn lemma_det_defs(ds: Seq<SpecMacro<SpecDef>>, c: SpecRust)
    ensures
        det_rel(c, rgen_defs(ds, c), rgen_defs(ds, emptied(c))),
    decreases ds,
{
    if ds.len() == 0 {
        assert(c.registry =~= c.registry + Seq::<Seq<char>>::empty());
    } else if ds.len() == 1 {
        lemma_det_def(ds.last().body, c);
    } else {
        lemma_det_defs(ds.drop_last(), c);
        let (ts, st1) = rgen_defs(ds.drop_last(), c);
        let (ts0, st10) = rgen_defs(ds.drop_last(), emptied(c));
        lemma_det_def(ds.last().body, st1);
        lemma_det_def(ds.last().body, st10);
        assert(emptied(st1) == emptied(st10));
        let d2 = rgen_macrod_def(ds.last(), emptied(st1));
        assert(c.registry + (st10.registry + d2.1.registry) =~= (c.registry + st10.registry)
            + d2.1.registry);
    }
}

/// Generating the same tree twice, against two contexts that agree on
/// their counter and indentation settings, yields the same text, the same
/// counter, and appends the same synthesized declarations — the same
/// synthetic names in the same order — whatever either registry already
/// held. Two fresh contexts are the special case with both counters zero
/// and both registries empty.
pub proof fn lemma_registry_deterministic(ds: Seq<SpecMacro<SpecDef>>, c1: SpecRust, c2: SpecRust)
    requires
        c1.enum_id == c2.enum_id,
        c1.tab_size == c2.tab_size,
        c1.indent == c2.indent,
    ensures
        rgen_defs(ds, c1).0 == rgen_defs(ds, c2).0,
        rgen_defs(ds, c1).1.enum_id == rgen_defs(ds, c2).1.enum_id,
        rgen_defs(ds, c1).1.registry.skip(c1.registry.len() as int) == rgen_defs(
            ds,
            c2,
        ).1.registry.skip(c2.registry.len() as int),
{
    lemma_det_defs(ds, c1);
    lemma_det_defs(ds, c2);
    assert(emptied(c1) == emptied(c2));
    let d = rgen_defs(ds, emptied(c1));
    assert((c1.registry + d.1.registry).skip(c1.registry.len() as int) =~= d.1.registry);
    assert((c2.registry + d.1.registry).skip(c2.registry.len() as int) =~= d.1.registry);
}

} // verus!
