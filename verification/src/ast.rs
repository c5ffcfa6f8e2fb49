//! Abstract syntax tree for the IDL: definitions (sessions, structs, enums),
//! session types with their steps and unions, attached comments and
//! annotations, and the two read-only capabilities `GetName` and `GetFields`.
//!
//! Every executable node has a mathematical mirror (the `Spec*` types over
//! `Seq<char>` and `Seq`), reached through `view`; all contracts in the crate
//! speak about those mirrors.
use vstd::prelude::*;

verus! {

// ---------------------------------------------------------------------------
// Mathematical mirrors of the AST
// ---------------------------------------------------------------------------
/// Mirror of `Macro<T>`: a node together with the appends written above it.
pub struct SpecMacro<T> {
    pub appends: Seq<SpecAppend>,
    pub body: T,
}

pub enum SpecDef {
    SessionDef(SpecSessionDef),
    StructDef(SpecStructDef),
    EnumDef(SpecEnumDef),
}

pub struct SpecSessionDef {
    pub name: Seq<char>,
    pub session: SpecMacro<SpecSessionType>,
}

pub struct SpecSessionType {
    pub steps: Seq<SpecMacro<SpecSession>>,
}

pub enum SpecSession {
    Recv(SpecTypeOrName),
    Send(SpecTypeOrName),
    Offer(SpecSessionUnion),
    Choose(SpecSessionUnion),
    Endpoint,
}

pub struct SpecSessionUnion {
    pub branches: Seq<SpecSessionOrName>,
}

pub enum SpecSessionOrName {
    Name(Seq<char>),
    Session(SpecSessionType),
}

pub struct SpecStructDef {
    pub name: Seq<char>,
    pub items: Seq<SpecMacro<SpecStructItem>>,
}

pub struct SpecStructItem {
    pub name: Seq<char>,
    pub ty: SpecTypeOrName,
    pub tag: Option<u64>,
}

pub struct SpecEnumDef {
    pub name: Seq<char>,
    pub items: Seq<SpecMacro<SpecEnumItem>>,
}

pub struct SpecEnumItem {
    pub name: Seq<char>,
    pub ty: SpecTypeOrName,
    pub tag: Option<u64>,
}

pub enum SpecTypeOrName {
    Name(Seq<char>),
    Type(SpecType),
}

pub enum SpecType {
    SessionType(SpecSessionType),
    Struct(SpecStructDef),
    Enum(SpecEnumDef),
    ContainerType(SpecContainerType),
    SimpleType(SimpleType),
    Constant(SpecConstant),
}

pub enum SpecContainerType {
    Array(Box<SpecType>, Option<usize>),
    Dict(SimpleType, Box<SpecType>),
}

pub enum SpecConstant {
    String(Seq<char>),
    Float(SpecFloatLit),
    Int(i64),
    Uint(u64),
    Bool(bool),
}

/// Mirror of `FloatLit`: sign and the two runs of decimal digits.
pub struct SpecFloatLit {
    pub neg: bool,
    pub whole: Seq<char>,
    pub frac: Seq<char>,
}

pub enum SpecAppend {
    LineComment(Seq<char>),
    DocsComment(Seq<char>),
    Annotation(SpecAnnotation),
}

pub struct SpecAnnotation {
    pub name: Seq<char>,
    pub value: SpecConstant,
}

// ---------------------------------------------------------------------------
// Executable AST
// ---------------------------------------------------------------------------
/// A top-level definition together with the appends written above it.
#[derive(Debug, PartialEq)]
pub struct MacrodDef(pub Macro<Def>);

/// A named top-level declaration.
#[derive(Debug, PartialEq)]
pub enum Def {
    SessionDef(SessionDef),
    StructDef(StructDef),
    EnumDef(EnumDef),
}

/// `channel <name> = <session type>`
#[derive(Debug, PartialEq)]
pub struct SessionDef {
    pub name: String,
    pub session: Macro<SessionType>,
}

/// An ordered, non-empty sequence of session steps.
#[derive(Debug, PartialEq)]
pub struct SessionType(pub Vec<Macro<Session>>);

/// `struct <name> { <items> }`
#[derive(Debug, PartialEq)]
pub struct StructDef {
    pub name: String,
    pub items: Vec<Macro<StructItem>>,
}

/// `<name> : <type-or-name> (= <tag>)?`
#[derive(Debug, PartialEq)]
pub struct StructItem(pub String, pub TypeOrName, pub Option<u64>);

/// `enum <name> { <items> }`
#[derive(Debug, PartialEq)]
pub struct EnumDef {
    pub name: String,
    pub items: Vec<Macro<EnumItem>>,
}

/// `<name> ( <type-or-name> ) (= <tag>)?`
#[derive(Debug, PartialEq)]
pub struct EnumItem(pub String, pub TypeOrName, pub Option<u64>);

/// Either an inline type literal or a bare identifier resolved later.
#[derive(Debug, PartialEq)]
pub enum TypeOrName {
    Name(String),
    Type(Box<Type>),
}

#[derive(Debug, PartialEq)]
pub enum Type {
    SessionType(SessionType),
    Struct(StructDef),
    Enum(EnumDef),
    ContainerType(ContainerType),
    SimpleType(SimpleType),
    Constant(Constant),
}

/// A union branch: a bare session name or an inline nested session type.
#[derive(Debug, PartialEq)]
pub enum SessionOrName {
    Name(String),
    Session(Box<SessionType>),
}

/// One step of a session type.
#[derive(Debug, PartialEq)]
pub enum Session {
    Recv(TypeOrName),
    Send(TypeOrName),
    Offer(SessionUnion),
    Choose(SessionUnion),
    Endpoint,
}

/// The branches of an `offer` or `choose` step; the grammar asks for 2..=10.
#[derive(Debug, PartialEq)]
pub struct SessionUnion(pub Vec<SessionOrName>);

/// Container types are parsed nowhere yet; code generation refuses them.
#[derive(Debug, PartialEq)]
pub enum ContainerType {
    Array(Box<Type>, Option<usize>),
    Dict(SimpleType, Box<Type>),
}

#[derive(Debug, Clone, Copy, PartialEq, Eq)]
pub enum SimpleType {
    Bool,
    Int,
    Uint,
    Float,
    Double,
    String,
}

/// A literal constant. Floating-point literals keep their written digits.
#[derive(Debug, Clone, PartialEq)]
pub enum Constant {
    String(String),
    Float(FloatLit),
    Int(i64),
    Uint(u64),
    Bool(bool),
}

/// A floating-point literal, kept textually: sign, digits before the dot,
/// digits after the dot.
#[derive(Debug, Clone, PartialEq)]
pub struct FloatLit {
    pub neg: bool,
    pub whole: String,
    pub frac: String,
}

/// A node of payload `T` with the comments and annotations written above it.
#[derive(Debug, PartialEq)]
pub struct Macro<T> {
    pub appends: Vec<Append>,
    pub body: Box<T>,
}

/// A comment (kept with its `//` or `///` marker) or an annotation.
#[derive(Debug, Clone, PartialEq)]
pub enum Append {
    LineComment(String),
    DocsComment(String),
    Annotation(Annotation),
}

/// `#[name]` (value `true`) or `#[name = constant]`.
#[derive(Debug, Clone, PartialEq)]
pub struct Annotation(pub String, pub Constant);

// ---------------------------------------------------------------------------
// Views: executable AST -> mirror
// ---------------------------------------------------------------------------
pub open spec fn view_macrod_def(d: MacrodDef) -> SpecMacro<SpecDef>
    decreases d,
{
    SpecMacro { appends: view_appends(d.0.appends@), body: view_def(*d.0.body) }
}

pub open spec fn view_def(d: Def) -> SpecDef
    decreases d,
{
    match d {
        Def::SessionDef(s) => SpecDef::SessionDef(view_session_def(s)),
        Def::StructDef(s) => SpecDef::StructDef(view_struct_def(s)),
        Def::EnumDef(e) => SpecDef::EnumDef(view_enum_def(e)),
    }
}

pub open spec fn view_session_def(d: SessionDef) -> SpecSessionDef
    decreases d,
{
    SpecSessionDef {
        name: d.name@,
        session: SpecMacro {
            appends: view_appends(d.session.appends@),
            body: view_session_type(*d.session.body),
        },
    }
}

pub open spec fn view_session_type(t: SessionType) -> SpecSessionType
    decreases t,
{
    SpecSessionType { steps: view_steps(t.0@) }
}

pub open spec fn view_steps(s: Seq<Macro<Session>>) -> Seq<SpecMacro<SpecSession>>
    decreases s,
{
    if s.len() == 0 {
        Seq::empty()
    } else {
        view_steps(s.drop_last()).push(view_step_macro(s.last()))
    }
}

pub open spec fn view_step_macro(m: Macro<Session>) -> SpecMacro<SpecSession>
    decreases m,
{
    SpecMacro { appends: view_appends(m.appends@), body: view_session(*m.body) }
}

pub open spec fn view_session(s: Session) -> SpecSession
    decreases s,
{
    match s {
        Session::Recv(t) => SpecSession::Recv(view_type_or_name(t)),
        Session::Send(t) => SpecSession::Send(view_type_or_name(t)),
        Session::Offer(u) => SpecSession::Offer(view_union(u)),
        Session::Choose(u) => SpecSession::Choose(view_union(u)),
        Session::Endpoint => SpecSession::Endpoint,
    }
}

pub open spec fn view_union(u: SessionUnion) -> SpecSessionUnion
    decreases u,
{
    SpecSessionUnion { branches: view_branches(u.0@) }
}

pub open spec fn view_branches(s: Seq<SessionOrName>) -> Seq<SpecSessionOrName>
    decreases s,
{
    if s.len() == 0 {
        Seq::empty()
    } else {
        view_branches(s.drop_last()).push(view_branch(s.last()))
    }
}

pub open spec fn view_branch(b: SessionOrName) -> SpecSessionOrName
    decreases b,
{
    match b {
        SessionOrName::Name(n) => SpecSessionOrName::Name(n@),
        SessionOrName::Session(s) => SpecSessionOrName::Session(view_session_type(*s)),
    }
}

pub open spec fn view_struct_def(d: StructDef) -> SpecStructDef
    decreases d,
{
    SpecStructDef { name: d.name@, items: view_struct_items(d.items@) }
}

pub open spec fn view_struct_items(s: Seq<Macro<StructItem>>) -> Seq<SpecMacro<SpecStructItem>>
    decreases s,
{
    if s.len() == 0 {
        Seq::empty()
    } else {
        view_struct_items(s.drop_last()).push(view_struct_item_macro(s.last()))
    }
}

pub open spec fn view_struct_item_macro(m: Macro<StructItem>) -> SpecMacro<SpecStructItem>
    decreases m,
{
    SpecMacro { appends: view_appends(m.appends@), body: view_struct_item(*m.body) }
}

pub open spec fn view_struct_item(i: StructItem) -> SpecStructItem
    decreases i,
{
    SpecStructItem { name: i.0@, ty: view_type_or_name(i.1), tag: i.2 }
}

pub open spec fn view_enum_def(d: EnumDef) -> SpecEnumDef
    decreases d,
{
    SpecEnumDef { name: d.name@, items: view_enum_items(d.items@) }
}

pub open spec fn view_enum_items(s: Seq<Macro<EnumItem>>) -> Seq<SpecMacro<SpecEnumItem>>
    decreases s,
{
    if s.len() == 0 {
        Seq::empty()
    } else {
        view_enum_items(s.drop_last()).push(view_enum_item_macro(s.last()))
    }
}

pub open spec fn view_enum_item_macro(m: Macro<EnumItem>) -> SpecMacro<SpecEnumItem>
    decreases m,
{
    SpecMacro { appends: view_appends(m.appends@), body: view_enum_item(*m.body) }
}

pub open spec fn view_enum_item(i: EnumItem) -> SpecEnumItem
    decreases i,
{
    SpecEnumItem { name: i.0@, ty: view_type_or_name(i.1), tag: i.2 }
}

pub open spec fn view_type_or_name(t: TypeOrName) -> SpecTypeOrName
    decreases t,
{
    match t {
        TypeOrName::Name(n) => SpecTypeOrName::Name(n@),
        TypeOrName::Type(b) => SpecTypeOrName::Type(view_type(*b)),
    }
}

pub open spec fn view_type(t: Type) -> SpecType
    decreases t,
{
    match t {
        Type::SessionType(s) => SpecType::SessionType(view_session_type(s)),
        Type::Struct(s) => SpecType::Struct(view_struct_def(s)),
        Type::Enum(e) => SpecType::Enum(view_enum_def(e)),
        Type::ContainerType(c) => SpecType::ContainerType(view_container(c)),
        Type::SimpleType(s) => SpecType::SimpleType(s),
        Type::Constant(c) => SpecType::Constant(view_constant(c)),
    }
}

pub open spec fn view_container(c: ContainerType) -> SpecContainerType
    decreases c,
{
    match c {
        ContainerType::Array(t, n) => SpecContainerType::Array(Box::new(view_type(*t)), n),
        ContainerType::Dict(k, t) => SpecContainerType::Dict(k, Box::new(view_type(*t))),
    }
}

pub open spec fn view_constant(c: Constant) -> SpecConstant {
    match c {
        Constant::String(s) => SpecConstant::String(s@),
        Constant::Float(f) => SpecConstant::Float(
            SpecFloatLit { neg: f.neg, whole: f.whole@, frac: f.frac@ },
        ),
        Constant::Int(i) => SpecConstant::Int(i),
        Constant::Uint(u) => SpecConstant::Uint(u),
        Constant::Bool(b) => SpecConstant::Bool(b),
    }
}

pub open spec fn view_append(a: Append) -> SpecAppend {
    match a {
        Append::LineComment(s) => SpecAppend::LineComment(s@),
        Append::DocsComment(s) => SpecAppend::DocsComment(s@),
        Append::Annotation(an) => SpecAppend::Annotation(
            SpecAnnotation { name: an.0@, value: view_constant(an.1) },
        ),
    }
}

pub open spec fn view_appends(s: Seq<Append>) -> Seq<SpecAppend>
    decreases s,
{
    if s.len() == 0 {
        Seq::empty()
    } else {
        view_appends(s.drop_last()).push(view_append(s.last()))
    }
}

/// View of a sequence of parsed definitions, as `parse` returns them.
pub open spec fn view_defs(s: Seq<MacrodDef>) -> Seq<SpecMacro<SpecDef>>
    decreases s,
{
    if s.len() == 0 {
        Seq::empty()
    } else {
        view_defs(s.drop_last()).push(view_macrod_def(s.last()))
    }
}

impl View for MacrodDef {
    type V = SpecMacro<SpecDef>;

    open spec fn view(&self) -> SpecMacro<SpecDef> {
        view_macrod_def(*self)
    }
}

impl View for Def {
    type V = SpecDef;

    open spec fn view(&self) -> SpecDef {
        view_def(*self)
    }
}

impl View for SessionDef {
    type V = SpecSessionDef;

    open spec fn view(&self) -> SpecSessionDef {
        view_session_def(*self)
    }
}

impl View for SessionType {
    type V = SpecSessionType;

    open spec fn view(&self) -> SpecSessionType {
        view_session_type(*self)
    }
}

impl View for Session {
    type V = SpecSession;

    open spec fn view(&self) -> SpecSession {
        view_session(*self)
    }
}

impl View for SessionUnion {
    type V = SpecSessionUnion;

    open spec fn view(&self) -> SpecSessionUnion {
        view_union(*self)
    }
}

impl View for SessionOrName {
    type V = SpecSessionOrName;

    open spec fn view(&self) -> SpecSessionOrName {
        view_branch(*self)
    }
}

impl View for StructDef {
    type V = SpecStructDef;

    open spec fn view(&self) -> SpecStructDef {
        view_struct_def(*self)
    }
}

impl View for StructItem {
    type V = SpecStructItem;

    open spec fn view(&self) -> SpecStructItem {
        view_struct_item(*self)
    }
}

impl View for EnumDef {
    type V = SpecEnumDef;

    open spec fn view(&self) -> SpecEnumDef {
        view_enum_def(*self)
    }
}

impl View for EnumItem {
    type V = SpecEnumItem;

    open spec fn view(&self) -> SpecEnumItem {
        view_enum_item(*self)
    }
}

impl View for TypeOrName {
    type V = SpecTypeOrName;

    open spec fn view(&self) -> SpecTypeOrName {
        view_type_or_name(*self)
    }
}

impl View for Type {
    type V = SpecType;

    open spec fn view(&self) -> SpecType {
        view_type(*self)
    }
}

impl View for ContainerType {
    type V = SpecContainerType;

    open spec fn view(&self) -> SpecContainerType {
        view_container(*self)
    }
}

impl View for Constant {
    type V = SpecConstant;

    open spec fn view(&self) -> SpecConstant {
        view_constant(*self)
    }
}

impl View for Append {
    type V = SpecAppend;

    open spec fn view(&self) -> SpecAppend {
        view_append(*self)
    }
}

impl View for Annotation {
    type V = SpecAnnotation;

    open spec fn view(&self) -> SpecAnnotation {
        SpecAnnotation { name: self.0@, value: view_constant(self.1) }
    }
}

} // verus!

verus! {

// ---------------------------------------------------------------------------
// Referenced fields, at the spec level
// ---------------------------------------------------------------------------
/// View of a sequence of type-or-name references.
pub open spec fn view_tons(s: Seq<TypeOrName>) -> Seq<SpecTypeOrName>
    decreases s,
{
    if s.len() == 0 {
        Seq::empty()
    } else {
        view_tons(s.drop_last()).push(view_type_or_name(s.last()))
    }
}

/// Every type-or-name a definition directly references.
pub open spec fn fields_of_def(d: SpecDef) -> Seq<SpecTypeOrName>
    decreases d,
{
    match d {
        SpecDef::SessionDef(s) => fields_of_session_type(s.session.body),
        SpecDef::StructDef(s) => fields_of_struct_items(s.items),
        SpecDef::EnumDef(e) => fields_of_enum_items(e.items),
    }
}

pub open spec fn fields_of_session_type(t: SpecSessionType) -> Seq<SpecTypeOrName>
    decreases t,
{
    fields_of_steps(t.steps)
}

pub open spec fn fields_of_steps(s: Seq<SpecMacro<SpecSession>>) -> Seq<SpecTypeOrName>
    decreases s,
{
    if s.len() == 0 {
        Seq::empty()
    } else {
        fields_of_steps(s.drop_last()) + fields_of_session(s.last().body)
    }
}

pub open spec fn fields_of_session(s: SpecSession) -> Seq<SpecTypeOrName>
    decreases s,
{
    match s {
        SpecSession::Recv(t) => seq![t],
        SpecSession::Send(t) => seq![t],
        SpecSession::Offer(u) => fields_of_branches(u.branches),
        SpecSession::Choose(u) => fields_of_branches(u.branches),
        SpecSession::Endpoint => Seq::empty(),
    }
}

/// A bare session name in a union contributes no fields; only inline
/// sessions are traversed. (A second resolution pass would be needed to
/// look through a named reference; the analyzer does not do one.)
pub open spec fn fields_of_branches(s: Seq<SpecSessionOrName>) -> Seq<SpecTypeOrName>
    decreases s,
{
    if s.len() == 0 {
        Seq::empty()
    } else {
        fields_of_branches(s.drop_last()) + fields_of_branch(s.last())
    }
}

pub open spec fn fields_of_branch(b: SpecSessionOrName) -> Seq<SpecTypeOrName>
    decreases b,
{
    match b {
        SpecSessionOrName::Name(_) => Seq::empty(),
        SpecSessionOrName::Session(t) => fields_of_session_type(t),
    }
}

pub open spec fn fields_of_struct_items(s: Seq<SpecMacro<SpecStructItem>>) -> Seq<SpecTypeOrName>
    decreases s,
{
    if s.len() == 0 {
        Seq::empty()
    } else {
        fields_of_struct_items(s.drop_last()).push(s.last().body.ty)
    }
}

pub open spec fn fields_of_enum_items(s: Seq<SpecMacro<SpecEnumItem>>) -> Seq<SpecTypeOrName>
    decreases s,
{
    if s.len() == 0 {
        Seq::empty()
    } else {
        fields_of_enum_items(s.drop_last()).push(s.last().body.ty)
    }
}

/// The declared name of a definition.
pub open spec fn name_of_def(d: SpecDef) -> Seq<char> {
    match d {
        SpecDef::SessionDef(s) => s.name,
        SpecDef::StructDef(s) => s.name,
        SpecDef::EnumDef(e) => e.name,
    }
}

// ---------------------------------------------------------------------------
// Small push/concat lemmas for the sequence views
// ---------------------------------------------------------------------------
pub proof fn lemma_view_tons_push(s: Seq<TypeOrName>, x: TypeOrName)
    ensures
        view_tons(s.push(x)) == view_tons(s).push(view_type_or_name(x)),
{
    assert(s.push(x).drop_last() =~= s);
}

pub proof fn lemma_view_tons_concat(a: Seq<TypeOrName>, b: Seq<TypeOrName>)
    ensures
        view_tons(a + b) == view_tons(a) + view_tons(b),
    decreases b.len(),
{
    if b.len() == 0 {
        assert(a + b =~= a);
        assert(view_tons(a) + view_tons(b) =~= view_tons(a));
    } else {
        lemma_view_tons_concat(a, b.drop_last());
        assert((a + b).drop_last() =~= a + b.drop_last());
        assert((a + b).last() == b.last());
        assert(view_tons(a) + view_tons(b) =~= (view_tons(a) + view_tons(b.drop_last())).push(
            view_type_or_name(b.last()),
        ));
    }
}

// ---------------------------------------------------------------------------
// Capabilities
// ---------------------------------------------------------------------------
/// Read-only access to the declared name of a definition.
pub trait GetName {
    spec fn spec_name(&self) -> Seq<char>;

    fn get_name(&self) -> (r: &str)
        ensures
            r@ == self.spec_name(),
    ;
}

/// Read-only extraction of every type-or-name a node directly references.
pub trait GetFields {
    spec fn spec_fields(&self) -> Seq<SpecTypeOrName>;

    fn get_fields(&self) -> (r: Vec<TypeOrName>)
        ensures
            view_tons(r@) == self.spec_fields(),
    ;
}

impl GetName for Def {
    open spec fn spec_name(&self) -> Seq<char> {
        name_of_def(self@)
    }

    fn get_name(&self) -> (r: &str) {
        match self {
            Def::SessionDef(d) => d.get_name(),
            Def::StructDef(d) => d.get_name(),
            Def::EnumDef(d) => d.get_name(),
        }
    }
}

impl GetName for SessionDef {
    open spec fn spec_name(&self) -> Seq<char> {
        self.name@
    }

    fn get_name(&self) -> (r: &str) {
        self.name.as_str()
    }
}

impl GetName for StructDef {
    open spec fn spec_name(&self) -> Seq<char> {
        self.name@
    }

    fn get_name(&self) -> (r: &str) {
        self.name.as_str()
    }
}

impl GetName for EnumDef {
    open spec fn spec_name(&self) -> Seq<char> {
        self.name@
    }

    fn get_name(&self) -> (r: &str) {
        self.name.as_str()
    }
}

/// The canonical keyword of a simple scalar type.
pub open spec fn simple_type_name(t: SimpleType) -> Seq<char> {
    match t {
        SimpleType::Bool => "bool"@,
        SimpleType::Int => "int"@,
        SimpleType::Uint => "uint"@,
        SimpleType::Float => "float"@,
        SimpleType::Double => "double"@,
        SimpleType::String => "string"@,
    }
}

impl GetName for SimpleType {
    open spec fn spec_name(&self) -> Seq<char> {
        simple_type_name(*self)
    }

    fn get_name(&self) -> (r: &str) {
        match self {
            SimpleType::Bool => "bool",
            SimpleType::Int => "int",
            SimpleType::Uint => "uint",
            SimpleType::Float => "float",
            SimpleType::Double => "double",
            SimpleType::String => "string",
        }
    }
}

} // verus!

verus! {

// ---------------------------------------------------------------------------
// Push lemmas for the sequence views
// ---------------------------------------------------------------------------
pub proof fn lemma_view_steps_push(s: Seq<Macro<Session>>, x: Macro<Session>)
    ensures
        view_steps(s.push(x)) == view_steps(s).push(view_step_macro(x)),
{
    assert(s.push(x).drop_last() =~= s);
}

pub proof fn lemma_view_branches_push(s: Seq<SessionOrName>, x: SessionOrName)
    ensures
        view_branches(s.push(x)) == view_branches(s).push(view_branch(x)),
{
    assert(s.push(x).drop_last() =~= s);
}

pub proof fn lemma_view_struct_items_push(s: Seq<Macro<StructItem>>, x: Macro<StructItem>)
    ensures
        view_struct_items(s.push(x)) == view_struct_items(s).push(view_struct_item_macro(x)),
{
    assert(s.push(x).drop_last() =~= s);
}

pub proof fn lemma_view_enum_items_push(s: Seq<Macro<EnumItem>>, x: Macro<EnumItem>)
    ensures
        view_enum_items(s.push(x)) == view_enum_items(s).push(view_enum_item_macro(x)),
{
    assert(s.push(x).drop_last() =~= s);
}

pub proof fn lemma_view_appends_push(s: Seq<Append>, x: Append)
    ensures
        view_appends(s.push(x)) == view_appends(s).push(view_append(x)),
{
    assert(s.push(x).drop_last() =~= s);
}

pub proof fn lemma_view_defs_push(s: Seq<MacrodDef>, x: MacrodDef)
    ensures
        view_defs(s.push(x)) == view_defs(s).push(view_macrod_def(x)),
{
    assert(s.push(x).drop_last() =~= s);
}

pub proof fn lemma_fields_of_steps_push(s: Seq<SpecMacro<SpecSession>>, x: SpecMacro<SpecSession>)
    ensures
        fields_of_steps(s.push(x)) == fields_of_steps(s) + fields_of_session(x.body),
{
    assert(s.push(x).drop_last() =~= s);
}

pub proof fn lemma_fields_of_branches_push(s: Seq<SpecSessionOrName>, x: SpecSessionOrName)
    ensures
        fields_of_branches(s.push(x)) == fields_of_branches(s) + fields_of_branch(x),
{
    assert(s.push(x).drop_last() =~= s);
}

pub proof fn lemma_fields_of_struct_items_push(
    s: Seq<SpecMacro<SpecStructItem>>,
    x: SpecMacro<SpecStructItem>,
)
    ensures
        fields_of_struct_items(s.push(x)) == fields_of_struct_items(s).push(x.body.ty),
{
    assert(s.push(x).drop_last() =~= s);
}

pub proof fn lemma_fields_of_enum_items_push(
    s: Seq<SpecMacro<SpecEnumItem>>,
    x: SpecMacro<SpecEnumItem>,
)
    ensures
        fields_of_enum_items(s.push(x)) == fields_of_enum_items(s).push(x.body.ty),
{
    assert(s.push(x).drop_last() =~= s);
}

// ---------------------------------------------------------------------------
// Deep copies (the recursive types keep no derived `Clone`)
// ---------------------------------------------------------------------------
fn clone_constant(c: &Constant) -> (r: Constant)
    ensures
        r@ == c@,
{
    match c {
        Constant::String(s) => Constant::String(s.clone()),
        Constant::Float(f) => Constant::Float(
            FloatLit { neg: f.neg, whole: f.whole.clone(), frac: f.frac.clone() },
        ),
        Constant::Int(i) => Constant::Int(*i),
        Constant::Uint(u) => Constant::Uint(*u),
        Constant::Bool(b) => Constant::Bool(*b),
    }
}

fn clone_append(a: &Append) -> (r: Append)
    ensures
        r@ == a@,
{
    match a {
        Append::LineComment(s) => Append::LineComment(s.clone()),
        Append::DocsComment(s) => Append::DocsComment(s.clone()),
        Append::Annotation(an) => Append::Annotation(Annotation(an.0.clone(), clone_constant(&an.1))),
    }
}

fn clone_appends(v: &Vec<Append>) -> (r: Vec<Append>)
    ensures
        view_appends(r@) == view_appends(v@),
{
    let mut r: Vec<Append> = Vec::new();
    let mut i: usize = 0;
    while i < v.len()
        invariant
            i <= v.len(),
            view_appends(r@) == view_appends(v@.subrange(0, i as int)),
        decreases v.len() - i,
    {
        let a = clone_append(&v[i]);
        proof {
            lemma_view_appends_push(r@, a);
            lemma_view_appends_push(v@.subrange(0, i as int), v@[i as int]);
            assert(v@.subrange(0, i + 1 as int) =~= v@.subrange(0, i as int).push(v@[i as int]));
        }
        r.push(a);
        i += 1;
    }
    proof {
        assert(v@.subrange(0, v@.len() as int) =~= v@);
    }
    r
}

fn clone_type_or_name(t: &TypeOrName) -> (r: TypeOrName)
    ensures
        r@ == t@,
    decreases t,
{
    match t {
        TypeOrName::Name(n) => TypeOrName::Name(n.clone()),
        TypeOrName::Type(b) => TypeOrName::Type(Box::new(clone_type(&**b))),
    }
}

fn clone_type(t: &Type) -> (r: Type)
    ensures
        r@ == t@,
    decreases t,
{
    match t {
        Type::SessionType(s) => Type::SessionType(clone_session_type(s)),
        Type::Struct(s) => Type::Struct(clone_struct_def(s)),
        Type::Enum(e) => Type::Enum(clone_enum_def(e)),
        Type::ContainerType(c) => Type::ContainerType(clone_container(c)),
        Type::SimpleType(s) => Type::SimpleType(*s),
        Type::Constant(c) => Type::Constant(clone_constant(c)),
    }
}

fn clone_container(c: &ContainerType) -> (r: ContainerType)
    ensures
        r@ == c@,
    decreases c,
{
    match c {
        ContainerType::Array(t, n) => ContainerType::Array(Box::new(clone_type(&**t)), *n),
        ContainerType::Dict(k, t) => ContainerType::Dict(*k, Box::new(clone_type(&**t))),
    }
}

fn clone_session_type(t: &SessionType) -> (r: SessionType)
    ensures
        r@ == t@,
    decreases t,
{
    let mut steps: Vec<Macro<Session>> = Vec::new();
    let mut i: usize = 0;
    while i < t.0.len()
        invariant
            i <= t.0.len(),
            view_steps(steps@) == view_steps(t.0@.subrange(0, i as int)),
        decreases t.0.len() - i,
    {
        let m = clone_step_macro(&t.0[i]);
        proof {
            lemma_view_steps_push(steps@, m);
            lemma_view_steps_push(t.0@.subrange(0, i as int), t.0@[i as int]);
            assert(t.0@.subrange(0, i + 1 as int) =~= t.0@.subrange(0, i as int).push(
                t.0@[i as int],
            ));
        }
        steps.push(m);
        i += 1;
    }
    proof {
        assert(t.0@.subrange(0, t.0@.len() as int) =~= t.0@);
    }
    SessionType(steps)
}

fn clone_step_macro(m: &Macro<Session>) -> (r: Macro<Session>)
    ensures
        view_step_macro(r) == view_step_macro(*m),
    decreases m,
{
    Macro { appends: clone_appends(&m.appends), body: Box::new(clone_session(&*m.body)) }
}

fn clone_session(s: &Session) -> (r: Session)
    ensures
        r@ == s@,
    decreases s,
{
    match s {
        Session::Recv(t) => Session::Recv(clone_type_or_name(t)),
        Session::Send(t) => Session::Send(clone_type_or_name(t)),
        Session::Offer(u) => Session::Offer(clone_union(u)),
        Session::Choose(u) => Session::Choose(clone_union(u)),
        Session::Endpoint => Session::Endpoint,
    }
}

fn clone_union(u: &SessionUnion) -> (r: SessionUnion)
    ensures
        r@ == u@,
    decreases u,
{
    let mut branches: Vec<SessionOrName> = Vec::new();
    let mut i: usize = 0;
    while i < u.0.len()
        invariant
            i <= u.0.len(),
            view_branches(branches@) == view_branches(u.0@.subrange(0, i as int)),
        decreases u.0.len() - i,
    {
        let b = clone_branch(&u.0[i]);
        proof {
            lemma_view_branches_push(branches@, b);
            lemma_view_branches_push(u.0@.subrange(0, i as int), u.0@[i as int]);
            assert(u.0@.subrange(0, i + 1 as int) =~= u.0@.subrange(0, i as int).push(
                u.0@[i as int],
            ));
        }
        branches.push(b);
        i += 1;
    }
    proof {
        assert(u.0@.subrange(0, u.0@.len() as int) =~= u.0@);
    }
    SessionUnion(branches)
}

fn clone_branch(b: &SessionOrName) -> (r: SessionOrName)
    ensures
        r@ == b@,
    decreases b,
{
    match b {
        SessionOrName::Name(n) => SessionOrName::Name(n.clone()),
        SessionOrName::Session(s) => SessionOrName::Session(Box::new(clone_session_type(&**s))),
    }
}

fn clone_struct_def(d: &StructDef) -> (r: StructDef)
    ensures
        r@ == d@,
    decreases d,
{
    let mut items: Vec<Macro<StructItem>> = Vec::new();
    let mut i: usize = 0;
    while i < d.items.len()
        invariant
            i <= d.items.len(),
            view_struct_items(items@) == view_struct_items(d.items@.subrange(0, i as int)),
        decreases d.items.len() - i,
    {
        let m = clone_struct_item_macro(&d.items[i]);
        proof {
            lemma_view_struct_items_push(items@, m);
            lemma_view_struct_items_push(d.items@.subrange(0, i as int), d.items@[i as int]);
            assert(d.items@.subrange(0, i + 1 as int) =~= d.items@.subrange(0, i as int).push(
                d.items@[i as int],
            ));
        }
        items.push(m);
        i += 1;
    }
    proof {
        assert(d.items@.subrange(0, d.items@.len() as int) =~= d.items@);
    }
    StructDef { name: d.name.clone(), items }
}

fn clone_struct_item_macro(m: &Macro<StructItem>) -> (r: Macro<StructItem>)
    ensures
        view_struct_item_macro(r) == view_struct_item_macro(*m),
    decreases m,
{
    let body = &*m.body;
    Macro {
        appends: clone_appends(&m.appends),
        body: Box::new(StructItem(body.0.clone(), clone_type_or_name(&body.1), body.2)),
    }
}

fn clone_enum_def(d: &EnumDef) -> (r: EnumDef)
    ensures
        r@ == d@,
    decreases d,
{
    let mut items: Vec<Macro<EnumItem>> = Vec::new();
    let mut i: usize = 0;
    while i < d.items.len()
        invariant
            i <= d.items.len(),
            view_enum_items(items@) == view_enum_items(d.items@.subrange(0, i as int)),
        decreases d.items.len() - i,
    {
        let m = clone_enum_item_macro(&d.items[i]);
        proof {
            lemma_view_enum_items_push(items@, m);
            lemma_view_enum_items_push(d.items@.subrange(0, i as int), d.items@[i as int]);
            assert(d.items@.subrange(0, i + 1 as int) =~= d.items@.subrange(0, i as int).push(
                d.items@[i as int],
            ));
        }
        items.push(m);
        i += 1;
    }
    proof {
        assert(d.items@.subrange(0, d.items@.len() as int) =~= d.items@);
    }
    EnumDef { name: d.name.clone(), items }
}

fn clone_enum_item_macro(m: &Macro<EnumItem>) -> (r: Macro<EnumItem>)
    ensures
        view_enum_item_macro(r) == view_enum_item_macro(*m),
    decreases m,
{
    let body = &*m.body;
    Macro {
        appends: clone_appends(&m.appends),
        body: Box::new(EnumItem(body.0.clone(), clone_type_or_name(&body.1), body.2)),
    }
}

} // verus!

verus! {

// ---------------------------------------------------------------------------
// Referenced fields, executable
// ---------------------------------------------------------------------------
fn fields_session(s: &Session) -> (r: Vec<TypeOrName>)
    ensures
        view_tons(r@) == fields_of_session(s@),
    decreases s,
{
    match s {
        Session::Recv(t) => {
            let mut r: Vec<TypeOrName> = Vec::new();
            let c = clone_type_or_name(t);
            proof {
                lemma_view_tons_push(r@, c);
            }
            r.push(c);
            r
        },
        Session::Send(t) => {
            let mut r: Vec<TypeOrName> = Vec::new();
            let c = clone_type_or_name(t);
            proof {
                lemma_view_tons_push(r@, c);
            }
            r.push(c);
            r
        },
        Session::Offer(u) => fields_union(u),
        Session::Choose(u) => fields_union(u),
        Session::Endpoint => Vec::new(),
    }
}

fn fields_union(u: &SessionUnion) -> (r: Vec<TypeOrName>)
    ensures
        view_tons(r@) == fields_of_branches(view_union(*u).branches),
    decreases u,
{
    let mut r: Vec<TypeOrName> = Vec::new();
    let mut i: usize = 0;
    while i < u.0.len()
        invariant
            i <= u.0.len(),
            view_tons(r@) == fields_of_branches(view_branches(u.0@.subrange(0, i as int))),
        decreases u.0.len() - i,
    {
        let mut sub = fields_branch(&u.0[i]);
        proof {
            lemma_view_tons_concat(r@, sub@);
            lemma_view_branches_push(u.0@.subrange(0, i as int), u.0@[i as int]);
            lemma_fields_of_branches_push(
                view_branches(u.0@.subrange(0, i as int)),
                view_branch(u.0@[i as int]),
            );
            assert(u.0@.subrange(0, i + 1 as int) =~= u.0@.subrange(0, i as int).push(
                u.0@[i as int],
            ));
        }
        r.append(&mut sub);
        i += 1;
    }
    proof {
        assert(u.0@.subrange(0, u.0@.len() as int) =~= u.0@);
    }
    r
}

fn fields_branch(b: &SessionOrName) -> (r: Vec<TypeOrName>)
    ensures
        view_tons(r@) == fields_of_branch(b@),
    decreases b,
{
    match b {
        SessionOrName::Name(_) => Vec::new(),
        SessionOrName::Session(s) => fields_session_type(&**s),
    }
}

fn fields_session_type(t: &SessionType) -> (r: Vec<TypeOrName>)
    ensures
        view_tons(r@) == fields_of_session_type(t@),
    decreases t,
{
    let mut r: Vec<TypeOrName> = Vec::new();
    let mut i: usize = 0;
    while i < t.0.len()
        invariant
            i <= t.0.len(),
            view_tons(r@) == fields_of_steps(view_steps(t.0@.subrange(0, i as int))),
        decreases t.0.len() - i,
    {
        let step = &t.0[i];
        let mut sub = fields_session(&*step.body);
        proof {
            lemma_view_tons_concat(r@, sub@);
            lemma_view_steps_push(t.0@.subrange(0, i as int), t.0@[i as int]);
            lemma_fields_of_steps_push(
                view_steps(t.0@.subrange(0, i as int)),
                view_step_macro(t.0@[i as int]),
            );
            assert(t.0@.subrange(0, i + 1 as int) =~= t.0@.subrange(0, i as int).push(
                t.0@[i as int],
            ));
        }
        r.append(&mut sub);
        i += 1;
    }
    proof {
        assert(t.0@.subrange(0, t.0@.len() as int) =~= t.0@);
    }
    r
}

fn fields_struct_items(items: &Vec<Macro<StructItem>>) -> (r: Vec<TypeOrName>)
    ensures
        view_tons(r@) == fields_of_struct_items(view_struct_items(items@)),
{
    let mut r: Vec<TypeOrName> = Vec::new();
    let mut i: usize = 0;
    while i < items.len()
        invariant
            i <= items.len(),
            view_tons(r@) == fields_of_struct_items(view_struct_items(items@.subrange(0, i as int))),
        decreases items.len() - i,
    {
        let item = &items[i];
        let t = clone_type_or_name(&item.body.1);
        proof {
            lemma_view_tons_push(r@, t);
            lemma_view_struct_items_push(items@.subrange(0, i as int), items@[i as int]);
            lemma_fields_of_struct_items_push(
                view_struct_items(items@.subrange(0, i as int)),
                view_struct_item_macro(items@[i as int]),
            );
            assert(items@.subrange(0, i + 1 as int) =~= items@.subrange(0, i as int).push(
                items@[i as int],
            ));
        }
        r.push(t);
        i += 1;
    }
    proof {
        assert(items@.subrange(0, items@.len() as int) =~= items@);
    }
    r
}

fn fields_enum_items(items: &Vec<Macro<EnumItem>>) -> (r: Vec<TypeOrName>)
    ensures
        view_tons(r@) == fields_of_enum_items(view_enum_items(items@)),
{
    let mut r: Vec<TypeOrName> = Vec::new();
    let mut i: usize = 0;
    while i < items.len()
        invariant
            i <= items.len(),
            view_tons(r@) == fields_of_enum_items(view_enum_items(items@.subrange(0, i as int))),
        decreases items.len() - i,
    {
        let item = &items[i];
        let t = clone_type_or_name(&item.body.1);
        proof {
            lemma_view_tons_push(r@, t);
            lemma_view_enum_items_push(items@.subrange(0, i as int), items@[i as int]);
            lemma_fields_of_enum_items_push(
                view_enum_items(items@.subrange(0, i as int)),
                view_enum_item_macro(items@[i as int]),
            );
            assert(items@.subrange(0, i + 1 as int) =~= items@.subrange(0, i as int).push(
                items@[i as int],
            ));
        }
        r.push(t);
        i += 1;
    }
    proof {
        assert(items@.subrange(0, items@.len() as int) =~= items@);
    }
    r
}

impl GetFields for Def {
    open spec fn spec_fields(&self) -> Seq<SpecTypeOrName> {
        fields_of_def(self@)
    }

    fn get_fields(&self) -> (r: Vec<TypeOrName>) {
        match self {
            Def::SessionDef(d) => d.get_fields(),
            Def::StructDef(d) => d.get_fields(),
            Def::EnumDef(d) => d.get_fields(),
        }
    }
}

impl GetFields for SessionDef {
    open spec fn spec_fields(&self) -> Seq<SpecTypeOrName> {
        fields_of_session_type(self@.session.body)
    }

    fn get_fields(&self) -> (r: Vec<TypeOrName>) {
        fields_session_type(&*self.session.body)
    }
}

impl GetFields for SessionType {
    open spec fn spec_fields(&self) -> Seq<SpecTypeOrName> {
        fields_of_session_type(self@)
    }

    fn get_fields(&self) -> (r: Vec<TypeOrName>) {
        fields_session_type(self)
    }
}

impl GetFields for Session {
    open spec fn spec_fields(&self) -> Seq<SpecTypeOrName> {
        fields_of_session(self@)
    }

    fn get_fields(&self) -> (r: Vec<TypeOrName>) {
        fields_session(self)
    }
}

impl GetFields for SessionOrName {
    open spec fn spec_fields(&self) -> Seq<SpecTypeOrName> {
        fields_of_branch(self@)
    }

    fn get_fields(&self) -> (r: Vec<TypeOrName>) {
        fields_branch(self)
    }
}

impl GetFields for SessionUnion {
    open spec fn spec_fields(&self) -> Seq<SpecTypeOrName> {
        fields_of_branches(self@.branches)
    }

    fn get_fields(&self) -> (r: Vec<TypeOrName>) {
        fields_union(self)
    }
}

impl GetFields for StructDef {
    open spec fn spec_fields(&self) -> Seq<SpecTypeOrName> {
        fields_of_struct_items(self@.items)
    }

    fn get_fields(&self) -> (r: Vec<TypeOrName>) {
        fields_struct_items(&self.items)
    }
}

impl GetFields for StructItem {
    open spec fn spec_fields(&self) -> Seq<SpecTypeOrName> {
        seq![self@.ty]
    }

    fn get_fields(&self) -> (r: Vec<TypeOrName>) {
        let mut r: Vec<TypeOrName> = Vec::new();
        let c = clone_type_or_name(&self.1);
        proof {
            lemma_view_tons_push(r@, c);
        }
        r.push(c);
        r
    }
}

impl GetFields for EnumDef {
    open spec fn spec_fields(&self) -> Seq<SpecTypeOrName> {
        fields_of_enum_items(self@.items)
    }

    fn get_fields(&self) -> (r: Vec<TypeOrName>) {
        fields_enum_items(&self.items)
    }
}

impl GetFields for EnumItem {
    open spec fn spec_fields(&self) -> Seq<SpecTypeOrName> {
        seq![self@.ty]
    }

    fn get_fields(&self) -> (r: Vec<TypeOrName>) {
        let mut r: Vec<TypeOrName> = Vec::new();
        let c = clone_type_or_name(&self.1);
        proof {
            lemma_view_tons_push(r@, c);
        }
        r.push(c);
        r
    }
}

impl<T: GetFields> GetFields for Macro<T> {
    open spec fn spec_fields(&self) -> Seq<SpecTypeOrName> {
        self.body.spec_fields()
    }

    fn get_fields(&self) -> (r: Vec<TypeOrName>) {
        self.body.get_fields()
    }
}

impl GetFields for MacrodDef {
    open spec fn spec_fields(&self) -> Seq<SpecTypeOrName> {
        fields_of_def(view_def(*self.0.body))
    }

    fn get_fields(&self) -> (r: Vec<TypeOrName>) {
        self.0.body.get_fields()
    }
}

} // verus!

verus! {

impl View for FloatLit {
    type V = SpecFloatLit;

    open spec fn view(&self) -> SpecFloatLit {
        SpecFloatLit { neg: self.neg, whole: self.whole@, frac: self.frac@ }
    }
}

impl View for SimpleType {
    type V = SimpleType;

    open spec fn view(&self) -> SimpleType {
        *self
    }
}

} // verus!

verus! {

pub proof fn lemma_view_branches_len(s: Seq<SessionOrName>)
    ensures
        view_branches(s).len() == s.len(),
    decreases s,
{
    if s.len() > 0 {
        lemma_view_branches_len(s.drop_last());
    }
}

} // verus!

verus! {

pub proof fn lemma_view_defs_len(s: Seq<MacrodDef>)
    ensures
        view_defs(s).len() == s.len(),
    decreases s,
{
    if s.len() > 0 {
        lemma_view_defs_len(s.drop_last());
    }
}

} // verus!

verus! {

pub proof fn lemma_view_steps_len(s: Seq<Macro<Session>>)
    ensures
        view_steps(s).len() == s.len(),
    decreases s,
{
    if s.len() > 0 {
        lemma_view_steps_len(s.drop_last());
    }
}

} // verus!

verus! {

// ---------------------------------------------------------------------------
// Container detection: container types have no surface syntax and no
// lowering yet, so code generation refuses trees that hold one.
// ---------------------------------------------------------------------------
pub open spec fn container_free_ton(t: SpecTypeOrName) -> bool
    decreases t,
{
    match t {
        SpecTypeOrName::Name(_) => true,
        SpecTypeOrName::Type(ty) => container_free_type(ty),
    }
}

pub open spec fn container_free_type(t: SpecType) -> bool
    decreases t,
{
    match t {
        SpecType::SessionType(st) => container_free_session_type(st),
        SpecType::Struct(d) => container_free_struct(d),
        SpecType::Enum(d) => container_free_enum(d),
        SpecType::ContainerType(_) => false,
        SpecType::SimpleType(_) => true,
        SpecType::Constant(_) => true,
    }
}

pub open spec fn container_free_session_type(st: SpecSessionType) -> bool
    decreases st,
{
    container_free_steps(st.steps)
}

pub open spec fn container_free_steps(s: Seq<SpecMacro<SpecSession>>) -> bool
    decreases s,
{
    if s.len() == 0 {
        true
    } else {
        container_free_steps(s.drop_last()) && container_free_session(s.last().body)
    }
}

pub open spec fn container_free_session(s: SpecSession) -> bool
    decreases s,
{
    match s {
        SpecSession::Recv(t) => container_free_ton(t),
        SpecSession::Send(t) => container_free_ton(t),
        SpecSession::Offer(u) => container_free_branches(u.branches),
        SpecSession::Choose(u) => container_free_branches(u.branches),
        SpecSession::Endpoint => true,
    }
}

pub open spec fn container_free_branches(s: Seq<SpecSessionOrName>) -> bool
    decreases s,
{
    if s.len() == 0 {
        true
    } else {
        container_free_branches(s.drop_last()) && container_free_branch(s.last())
    }
}

pub open spec fn container_free_branch(b: SpecSessionOrName) -> bool
    decreases b,
{
    match b {
        SpecSessionOrName::Name(_) => true,
        SpecSessionOrName::Session(st) => container_free_session_type(st),
    }
}

pub open spec fn container_free_struct(d: SpecStructDef) -> bool
    decreases d,
{
    container_free_struct_items(d.items)
}

pub open spec fn container_free_struct_items(s: Seq<SpecMacro<SpecStructItem>>) -> bool
    decreases s,
{
    if s.len() == 0 {
        true
    } else {
        container_free_struct_items(s.drop_last()) && container_free_ton(s.last().body.ty)
    }
}

pub open spec fn container_free_enum(d: SpecEnumDef) -> bool
    decreases d,
{
    container_free_enum_items(d.items)
}

pub open spec fn container_free_enum_items(s: Seq<SpecMacro<SpecEnumItem>>) -> bool
    decreases s,
{
    if s.len() == 0 {
        true
    } else {
        container_free_enum_items(s.drop_last()) && container_free_ton(s.last().body.ty)
    }
}

pub open spec fn container_free_def(d: SpecDef) -> bool
    decreases d,
{
    match d {
        SpecDef::SessionDef(sd) => container_free_session_type(sd.session.body),
        SpecDef::StructDef(sd) => container_free_struct(sd),
        SpecDef::EnumDef(ed) => container_free_enum(ed),
    }
}

pub open spec fn container_free_defs(s: Seq<SpecMacro<SpecDef>>) -> bool
    decreases s,
{
    if s.len() == 0 {
        true
    } else {
        container_free_defs(s.drop_last()) && container_free_def(s.last().body)
    }
}

fn check_ton(t: &TypeOrName) -> (b: bool)
    ensures
        b == container_free_ton(t@),
    decreases t,
{
    match t {
        TypeOrName::Name(_) => true,
        TypeOrName::Type(ty) => check_type(&**ty),
    }
}

fn check_type(t: &Type) -> (b: bool)
    ensures
        b == container_free_type(t@),
    decreases t,
{
    match t {
        Type::SessionType(st) => check_session_type(st),
        Type::Struct(d) => check_struct_items(&d.items),
        Type::Enum(d) => check_enum_items(&d.items),
        Type::ContainerType(_) => false,
        Type::SimpleType(_) => true,
        Type::Constant(_) => true,
    }
}

fn check_session_type(st: &SessionType) -> (b: bool)
    ensures
        b == container_free_session_type(st@),
    decreases st,
{
    let mut i: usize = 0;
    while i < st.0.len()
        invariant
            i <= st.0.len(),
            container_free_steps(view_steps(st.0@.subrange(0, i as int))),
        decreases st.0.len() - i,
    {
        let ok = check_session(&*st.0[i].body);
        proof {
            lemma_view_steps_push(st.0@.subrange(0, i as int), st.0@[i as int]);
            assert(st.0@.subrange(0, i + 1 as int) =~= st.0@.subrange(0, i as int).push(
                st.0@[i as int],
            ));
            assert(container_free_steps(view_steps(st.0@.subrange(0, i as int)).push(
                view_step_macro(st.0@[i as int]),
            )) == (container_free_steps(view_steps(st.0@.subrange(0, i as int)))
                && container_free_session(view_step_macro(st.0@[i as int]).body))) by {
                assert(view_steps(st.0@.subrange(0, i as int)).push(
                    view_step_macro(st.0@[i as int]),
                ).drop_last() =~= view_steps(st.0@.subrange(0, i as int)));
            }
        }
        if !ok {
            proof {
                lemma_view_steps_subrange(st.0@, i + 1 as int);
                assert(view_steps(st.0@.subrange(0, i + 1 as int)) =~= view_steps(
                    st.0@,
                ).subrange(0, i + 1 as int));
                lemma_view_steps_len(st.0@);
                lemma_container_free_steps_prefix(view_steps(st.0@), i as int);
            }
            return false;
        }
        i += 1;
    }
    proof {
        assert(st.0@.subrange(0, st.0@.len() as int) =~= st.0@);
    }
    true
}

fn check_session(s: &Session) -> (b: bool)
    ensures
        b == container_free_session(s@),
    decreases s,
{
    match s {
        Session::Recv(t) => check_ton(t),
        Session::Send(t) => check_ton(t),
        Session::Offer(u) => check_branches(u),
        Session::Choose(u) => check_branches(u),
        Session::Endpoint => true,
    }
}

fn check_branches(u: &SessionUnion) -> (b: bool)
    ensures
        b == container_free_branches(view_union(*u).branches),
    decreases u,
{
    let mut i: usize = 0;
    while i < u.0.len()
        invariant
            i <= u.0.len(),
            container_free_branches(view_branches(u.0@.subrange(0, i as int))),
        decreases u.0.len() - i,
    {
        let ok = check_branch(&u.0[i]);
        proof {
            lemma_view_branches_push(u.0@.subrange(0, i as int), u.0@[i as int]);
            assert(u.0@.subrange(0, i + 1 as int) =~= u.0@.subrange(0, i as int).push(
                u.0@[i as int],
            ));
            assert(view_branches(u.0@.subrange(0, i as int)).push(view_branch(u.0@[i as int]))
                .drop_last() =~= view_branches(u.0@.subrange(0, i as int)));
        }
        if !ok {
            proof {
                lemma_view_branches_subrange(u.0@, i + 1 as int);
                assert(view_branches(u.0@.subrange(0, i + 1 as int)) =~= view_branches(
                    u.0@,
                ).subrange(0, i + 1 as int));
                lemma_view_branches_len(u.0@);
                lemma_container_free_branches_prefix(view_branches(u.0@), i as int);
            }
            return false;
        }
        i += 1;
    }
    proof {
        assert(u.0@.subrange(0, u.0@.len() as int) =~= u.0@);
    }
    true
}

fn check_branch(b: &SessionOrName) -> (r: bool)
    ensures
        r == container_free_branch(b@),
    decreases b,
{
    match b {
        SessionOrName::Name(_) => true,
        SessionOrName::Session(st) => check_session_type(&**st),
    }
}

fn check_struct_items(items: &Vec<Macro<StructItem>>) -> (b: bool)
    ensures
        b == container_free_struct_items(view_struct_items(items@)),
    decreases items,
{
    let mut i: usize = 0;
    while i < items.len()
        invariant
            i <= items.len(),
            container_free_struct_items(view_struct_items(items@.subrange(0, i as int))),
        decreases items.len() - i,
    {
        let ok = check_ton(&items[i].body.1);
        proof {
            lemma_view_struct_items_push(items@.subrange(0, i as int), items@[i as int]);
            assert(items@.subrange(0, i + 1 as int) =~= items@.subrange(0, i as int).push(
                items@[i as int],
            ));
            assert(view_struct_items(items@.subrange(0, i as int)).push(
                view_struct_item_macro(items@[i as int]),
            ).drop_last() =~= view_struct_items(items@.subrange(0, i as int)));
        }
        if !ok {
            proof {
                lemma_view_struct_items_subrange(items@, i + 1 as int);
                assert(view_struct_items(items@.subrange(0, i + 1 as int)) =~= view_struct_items(
                    items@,
                ).subrange(0, i + 1 as int));
                lemma_view_struct_items_len(items@);
                lemma_container_free_struct_items_prefix(view_struct_items(items@), i as int);
            }
            return false;
        }
        i += 1;
    }
    proof {
        assert(items@.subrange(0, items@.len() as int) =~= items@);
    }
    true
}

fn check_enum_items(items: &Vec<Macro<EnumItem>>) -> (b: bool)
    ensures
        b == container_free_enum_items(view_enum_items(items@)),
    decreases items,
{
    let mut i: usize = 0;
    while i < items.len()
        invariant
            i <= items.len(),
            container_free_enum_items(view_enum_items(items@.subrange(0, i as int))),
        decreases items.len() - i,
    {
        let ok = check_ton(&items[i].body.1);
        proof {
            lemma_view_enum_items_push(items@.subrange(0, i as int), items@[i as int]);
            assert(items@.subrange(0, i + 1 as int) =~= items@.subrange(0, i as int).push(
                items@[i as int],
            ));
            assert(view_enum_items(items@.subrange(0, i as int)).push(
                view_enum_item_macro(items@[i as int]),
            ).drop_last() =~= view_enum_items(items@.subrange(0, i as int)));
        }
        if !ok {
            proof {
                lemma_view_enum_items_subrange(items@, i + 1 as int);
                assert(view_enum_items(items@.subrange(0, i + 1 as int)) =~= view_enum_items(
                    items@,
                ).subrange(0, i + 1 as int));
                lemma_view_enum_items_len(items@);
                lemma_container_free_enum_items_prefix(view_enum_items(items@), i as int);
            }
            return false;
        }
        i += 1;
    }
    proof {
        assert(items@.subrange(0, items@.len() as int) =~= items@);
    }
    true
}

fn check_def(d: &Def) -> (b: bool)
    ensures
        b == container_free_def(d@),
    decreases d,
{
    match d {
        Def::SessionDef(sd) => check_session_type(&*sd.session.body),
        Def::StructDef(sd) => check_struct_items(&sd.items),
        Def::EnumDef(ed) => check_enum_items(&ed.items),
    }
}

/// Do these definitions stay clear of container types? Only such trees
/// can be lowered.
pub fn defs_container_free(defs: &Vec<MacrodDef>) -> (b: bool)
    ensures
        b == container_free_defs(view_defs(defs@)),
{
    let mut i: usize = 0;
    while i < defs.len()
        invariant
            i <= defs.len(),
            container_free_defs(view_defs(defs@.subrange(0, i as int))),
        decreases defs.len() - i,
    {
        let ok = check_def(&*defs[i].0.body);
        proof {
            lemma_view_defs_push(defs@.subrange(0, i as int), defs@[i as int]);
            assert(defs@.subrange(0, i + 1 as int) =~= defs@.subrange(0, i as int).push(
                defs@[i as int],
            ));
            assert(view_defs(defs@.subrange(0, i as int)).push(
                view_macrod_def(defs@[i as int]),
            ).drop_last() =~= view_defs(defs@.subrange(0, i as int)));
        }
        if !ok {
            proof {
                lemma_view_defs_subrange(defs@, i + 1 as int);
                assert(view_defs(defs@.subrange(0, i + 1 as int)) =~= view_defs(defs@).subrange(
                    0,
                    i + 1 as int,
                ));
                lemma_view_defs_len(defs@);
                lemma_container_free_defs_prefix(view_defs(defs@), i as int);
            }
            return false;
        }
        i += 1;
    }
    proof {
        assert(defs@.subrange(0, defs@.len() as int) =~= defs@);
    }
    true
}

// Prefix and subrange helpers used by the checks above.
pub proof fn lemma_view_steps_subrange(s: Seq<Macro<Session>>, k: int)
    requires
        0 <= k <= s.len(),
    ensures
        view_steps(s.subrange(0, k)) == view_steps(s).subrange(0, k),
    decreases s.len(),
{
    lemma_view_steps_len(s);
    if s.len() == 0 {
        assert(view_steps(s.subrange(0, k)) =~= view_steps(s).subrange(0, k));
    } else if k == s.len() {
        assert(s.subrange(0, k) =~= s);
        assert(view_steps(s).subrange(0, k) =~= view_steps(s));
    } else {
        lemma_view_steps_subrange(s.drop_last(), k);
        assert(s.drop_last().subrange(0, k) =~= s.subrange(0, k));
        lemma_view_steps_len(s.drop_last());
        assert(view_steps(s).subrange(0, k) =~= view_steps(s.drop_last()).subrange(0, k));
    }
}

pub proof fn lemma_view_branches_subrange(s: Seq<SessionOrName>, k: int)
    requires
        0 <= k <= s.len(),
    ensures
        view_branches(s.subrange(0, k)) == view_branches(s).subrange(0, k),
    decreases s.len(),
{
    lemma_view_branches_len(s);
    if s.len() == 0 {
        assert(view_branches(s.subrange(0, k)) =~= view_branches(s).subrange(0, k));
    } else if k == s.len() {
        assert(s.subrange(0, k) =~= s);
        assert(view_branches(s).subrange(0, k) =~= view_branches(s));
    } else {
        lemma_view_branches_subrange(s.drop_last(), k);
        assert(s.drop_last().subrange(0, k) =~= s.subrange(0, k));
        lemma_view_branches_len(s.drop_last());
        assert(view_branches(s).subrange(0, k) =~= view_branches(s.drop_last()).subrange(0, k));
    }
}

pub proof fn lemma_view_struct_items_len(s: Seq<Macro<StructItem>>)
    ensures
        view_struct_items(s).len() == s.len(),
    decreases s,
{
    if s.len() > 0 {
        lemma_view_struct_items_len(s.drop_last());
    }
}

pub proof fn lemma_view_struct_items_subrange(s: Seq<Macro<StructItem>>, k: int)
    requires
        0 <= k <= s.len(),
    ensures
        view_struct_items(s.subrange(0, k)) == view_struct_items(s).subrange(0, k),
    decreases s.len(),
{
    lemma_view_struct_items_len(s);
    if s.len() == 0 {
        assert(view_struct_items(s.subrange(0, k)) =~= view_struct_items(s).subrange(0, k));
    } else if k == s.len() {
        assert(s.subrange(0, k) =~= s);
        assert(view_struct_items(s).subrange(0, k) =~= view_struct_items(s));
    } else {
        lemma_view_struct_items_subrange(s.drop_last(), k);
        assert(s.drop_last().subrange(0, k) =~= s.subrange(0, k));
        lemma_view_struct_items_len(s.drop_last());
        assert(view_struct_items(s).subrange(0, k) =~= view_struct_items(s.drop_last()).subrange(
            0,
            k,
        ));
    }
}

pub proof fn lemma_view_enum_items_len(s: Seq<Macro<EnumItem>>)
    ensures
        view_enum_items(s).len() == s.len(),
    decreases s,
{
    if s.len() > 0 {
        lemma_view_enum_items_len(s.drop_last());
    }
}

pub proof fn lemma_view_enum_items_subrange(s: Seq<Macro<EnumItem>>, k: int)
    requires
        0 <= k <= s.len(),
    ensures
        view_enum_items(s.subrange(0, k)) == view_enum_items(s).subrange(0, k),
    decreases s.len(),
{
    lemma_view_enum_items_len(s);
    if s.len() == 0 {
        assert(view_enum_items(s.subrange(0, k)) =~= view_enum_items(s).subrange(0, k));
    } else if k == s.len() {
        assert(s.subrange(0, k) =~= s);
        assert(view_enum_items(s).subrange(0, k) =~= view_enum_items(s));
    } else {
        lemma_view_enum_items_subrange(s.drop_last(), k);
        assert(s.drop_last().subrange(0, k) =~= s.subrange(0, k));
        lemma_view_enum_items_len(s.drop_last());
        assert(view_enum_items(s).subrange(0, k) =~= view_enum_items(s.drop_last()).subrange(
            0,
            k,
        ));
    }
}

pub proof fn lemma_view_defs_subrange(s: Seq<MacrodDef>, k: int)
    requires
        0 <= k <= s.len(),
    ensures
        view_defs(s.subrange(0, k)) == view_defs(s).subrange(0, k),
    decreases s.len(),
{
    lemma_view_defs_len(s);
    if s.len() == 0 {
        assert(view_defs(s.subrange(0, k)) =~= view_defs(s).subrange(0, k));
    } else if k == s.len() {
        assert(s.subrange(0, k) =~= s);
        assert(view_defs(s).subrange(0, k) =~= view_defs(s));
    } else {
        lemma_view_defs_subrange(s.drop_last(), k);
        assert(s.drop_last().subrange(0, k) =~= s.subrange(0, k));
        lemma_view_defs_len(s.drop_last());
        assert(view_defs(s).subrange(0, k) =~= view_defs(s.drop_last()).subrange(0, k));
    }
}

/// If a prefix of the steps holds a container, so do the steps.
pub proof fn lemma_container_free_steps_prefix(s: Seq<SpecMacro<SpecSession>>, i: int)
    requires
        0 <= i < s.len(),
        !container_free_steps(s.subrange(0, i + 1)),
    ensures
        !container_free_steps(s),
    decreases s.len(),
{
    if i + 1 == s.len() {
        assert(s.subrange(0, i + 1) =~= s);
    } else {
        assert(s.drop_last().subrange(0, i + 1) =~= s.subrange(0, i + 1));
        lemma_container_free_steps_prefix(s.drop_last(), i);
    }
}

pub proof fn lemma_container_free_branches_prefix(s: Seq<SpecSessionOrName>, i: int)
    requires
        0 <= i < s.len(),
        !container_free_branches(s.subrange(0, i + 1)),
    ensures
        !container_free_branches(s),
    decreases s.len(),
{
    if i + 1 == s.len() {
        assert(s.subrange(0, i + 1) =~= s);
    } else {
        assert(s.drop_last().subrange(0, i + 1) =~= s.subrange(0, i + 1));
        lemma_container_free_branches_prefix(s.drop_last(), i);
    }
}

pub proof fn lemma_container_free_struct_items_prefix(s: Seq<SpecMacro<SpecStructItem>>, i: int)
    requires
        0 <= i < s.len(),
        !container_free_struct_items(s.subrange(0, i + 1)),
    ensures
        !container_free_struct_items(s),
    decreases s.len(),
{
    if i + 1 == s.len() {
        assert(s.subrange(0, i + 1) =~= s);
    } else {
        assert(s.drop_last().subrange(0, i + 1) =~= s.subrange(0, i + 1));
        lemma_container_free_struct_items_prefix(s.drop_last(), i);
    }
}

pub proof fn lemma_container_free_enum_items_prefix(s: Seq<SpecMacro<SpecEnumItem>>, i: int)
    requires
        0 <= i < s.len(),
        !container_free_enum_items(s.subrange(0, i + 1)),
    ensures
        !container_free_enum_items(s),
    decreases s.len(),
{
    if i + 1 == s.len() {
        assert(s.subrange(0, i + 1) =~= s);
    } else {
        assert(s.drop_last().subrange(0, i + 1) =~= s.subrange(0, i + 1));
        lemma_container_free_enum_items_prefix(s.drop_last(), i);
    }
}

pub proof fn lemma_container_free_defs_prefix(s: Seq<SpecMacro<SpecDef>>, i: int)
    requires
        0 <= i < s.len(),
        !container_free_defs(s.subrange(0, i + 1)),
    ensures
        !container_free_defs(s),
    decreases s.len(),
{
    if i + 1 == s.len() {
        assert(s.subrange(0, i + 1) =~= s);
    } else {
        assert(s.drop_last().subrange(0, i + 1) =~= s.subrange(0, i + 1));
        lemma_container_free_defs_prefix(s.drop_last(), i);
    }
}

} // verus!

verus! {

pub proof fn lemma_view_tons_len(s: Seq<TypeOrName>)
    ensures
        view_tons(s).len() == s.len(),
    decreases s,
{
    if s.len() > 0 {
        lemma_view_tons_len(s.drop_last());
    }
}

pub proof fn lemma_view_tons_index(s: Seq<TypeOrName>, i: int)
    requires
        0 <= i < s.len(),
    ensures
        view_tons(s)[i] == view_type_or_name(s[i]),
    decreases s,
{
    lemma_view_tons_len(s);
    if i + 1 == s.len() {
    } else {
        lemma_view_tons_index(s.drop_last(), i);
    }
}

pub proof fn lemma_view_defs_index(s: Seq<MacrodDef>, i: int)
    requires
        0 <= i < s.len(),
    ensures
        view_defs(s)[i] == view_macrod_def(s[i]),
    decreases s,
{
    lemma_view_defs_len(s);
    if i + 1 == s.len() {
    } else {
        lemma_view_defs_index(s.drop_last(), i);
    }
}

} // verus!

verus! {

/// A definition projected to the type it declares: a session definition
/// to its session type, a struct or enum to itself.
impl From<Def> for Type {
    fn from(value: Def) -> (r: Type) {
        match value {
            Def::SessionDef(s) => Type::SessionType(*s.session.body),
            Def::StructDef(s) => Type::Struct(s),
            Def::EnumDef(e) => Type::Enum(e),
        }
    }
}

impl vstd::std_specs::convert::FromSpecImpl<Def> for Type {
    open spec fn obeys_from_spec() -> bool {
        true
    }

    open spec fn from_spec(d: Def) -> Type {
        match d {
            Def::SessionDef(s) => Type::SessionType(*s.session.body),
            Def::StructDef(s) => Type::Struct(s),
            Def::EnumDef(e) => Type::Enum(e),
        }
    }
}

} // verus!
