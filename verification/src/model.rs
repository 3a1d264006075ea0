//! The description of a scriptable type that the `script` attribute derives
//! from a struct or an impl block and that the `scriptable` expansion turns
//! into registration code. Pieces of Rust syntax (types, generics, where
//! clauses, patterns) are carried as their source text.
use vstd::prelude::*;
use vstd::string::*;

verus! {

/// A parameter of a function.
#[derive(Debug, Clone, PartialEq, Eq)]
pub enum Param {
    /// `self`, `&self` or `&mut self`.
    Receiver,
    /// A typed parameter `pat: ty`.
    Typed { pat: String, ty: String },
}

/// Where a getter reads its value.
#[derive(Debug, Clone, PartialEq, Eq)]
pub enum GetKind {
    Fn { ident: String },
    Field { ident: String },
}

/// A scriptable getter.
#[derive(Debug, Clone, PartialEq, Eq)]
pub struct Getter {
    pub name: String,
    pub ty: String,
    pub kind: GetKind,
}

/// Where a setter writes its value.
#[derive(Debug, Clone, PartialEq, Eq)]
pub enum SetKind {
    /// A setter function, with the type it returns (its actions).
    Fn { ident: String, ret: String },
    Field { ident: String },
}

/// A scriptable setter.
#[derive(Debug, Clone, PartialEq, Eq)]
pub struct Setter {
    pub name: String,
    pub ty: String,
    pub kind: SetKind,
}

/// A scriptable method: it returns a value to the script and any number of
/// actions that mutate the state.
#[derive(Debug, Clone, PartialEq, Eq)]
pub struct Method {
    pub name: String,
    pub ident: String,
    pub ret: String,
    pub actions: Vec<String>,
    pub params: Vec<Param>,
}

/// A scriptable constructor: it returns the action that creates the item.
#[derive(Debug, Clone, PartialEq, Eq)]
pub struct Create {
    pub name: String,
    pub ident: String,
    pub action: String,
    pub params: Vec<Param>,
}

/// A scriptable associated function.
#[derive(Debug, Clone, PartialEq, Eq)]
pub struct Function {
    pub name: String,
    pub ident: String,
    pub ret: String,
    pub params: Vec<Param>,
}

/// A member of a state type.
#[derive(Debug, Clone, PartialEq, Eq)]
pub enum StateMemberKind {
    MemberGet { get: Getter },
    MemberSet { set: Setter },
    MemberCreate { create: Create },
    MemberMethod { method: Method },
    MemberFunction { function: Function },
}

/// A member of a plain (stateless) type.
#[derive(Debug, Clone, PartialEq, Eq)]
pub enum TypeMemberKind {
    MemberGet { get: Getter },
    MemberMethod { method: Method },
    MemberFunction { function: Function },
}

/// A trait whose script operators may be derived.
#[derive(Debug, Clone, Copy, PartialEq, Eq, Structural)]
pub enum DeriveKind {
    Eq,
}

impl DeriveKind {
    /// The name of the operator that the derive provides.
    pub fn op_name(&self) -> (r: &'static str)
        ensures
            r@ == derive_op_name(*self),
    {
        proof {
            reveal_strlit("eq");
        }
        match self {
            DeriveKind::Eq => "eq",
        }
    }
}

/// The name of the operator that a derive provides.
pub open spec fn derive_op_name(kind: DeriveKind) -> Seq<char> {
    match kind {
        DeriveKind::Eq => seq!['e', 'q'],
    }
}

/// The options of a scriptable description.
#[derive(Debug, Clone, PartialEq, Eq)]
pub struct ScriptableOptions {
    /// Partial descriptions whose members are folded into this one.
    pub includes: Option<Vec<String>>,
    /// This description is a partial one, exported under this name.
    pub partial: Option<String>,
    /// Traits whose operators are derived.
    pub derive: Option<Vec<DeriveKind>>,
}

/// The type that a description is for.
#[derive(Debug, Clone, PartialEq, Eq)]
pub enum SelfType {
    /// A type path, with the identifiers of its segments.
    Path { segments: Vec<String>, text: String },
    /// Any other type.
    Other { text: String },
}

/// What every description holds besides its members.
#[derive(Debug, Clone, PartialEq, Eq)]
pub struct ScriptableDetails {
    pub self_type: SelfType,
    pub options: ScriptableOptions,
    pub generics: String,
    pub where_clause: String,
}

/// The description of a state type.
#[derive(Debug, Clone, PartialEq, Eq)]
pub struct ScriptableState {
    pub details: ScriptableDetails,
    pub members: Vec<StateMemberKind>,
}

/// The description of a plain type.
#[derive(Debug, Clone, PartialEq, Eq)]
pub struct ScriptableType {
    pub details: ScriptableDetails,
    pub members: Vec<TypeMemberKind>,
}

/// A scriptable description.
#[derive(Debug, Clone, PartialEq, Eq)]
pub enum Scriptable {
    State { state: ScriptableState },
    Ty { ty: ScriptableType },
}

/// The details of a description, whichever kind it is.
pub open spec fn details_of(s: Scriptable) -> ScriptableDetails {
    match s {
        Scriptable::State { state } => state.details,
        Scriptable::Ty { ty } => ty.details,
    }
}

impl Scriptable {
    /// The details of the description, whichever kind it is.
    pub fn details(&self) -> (r: &ScriptableDetails)
        ensures
            *r == details_of(*self),
    {
        match self {
            Scriptable::State { state } => &state.details,
            Scriptable::Ty { ty } => &ty.details,
        }
    }
}

/// The kind word and the name of a state member.
pub open spec fn state_member_parts(member: StateMemberKind) -> (Seq<char>, Seq<char>) {
    match member {
        StateMemberKind::MemberGet { get } => (seq!['g', 'e', 't'], get.name@),
        StateMemberKind::MemberSet { set } => (seq!['s', 'e', 't'], set.name@),
        StateMemberKind::MemberCreate { create } => (
            seq!['c', 'r', 'e', 'a', 't', 'e'],
            create.name@,
        ),
        StateMemberKind::MemberMethod { method } => (
            seq!['m', 'e', 't', 'h', 'o', 'd'],
            method.name@,
        ),
        StateMemberKind::MemberFunction { function } => (
            seq!['f', 'u', 'n', 'c', 't', 'i', 'o', 'n'],
            function.name@,
        ),
    }
}

/// The kind word and the name of a plain type's member.
pub open spec fn type_member_parts(member: TypeMemberKind) -> (Seq<char>, Seq<char>) {
    match member {
        TypeMemberKind::MemberGet { get } => (seq!['g', 'e', 't'], get.name@),
        TypeMemberKind::MemberMethod { method } => (
            seq!['m', 'e', 't', 'h', 'o', 'd'],
            method.name@,
        ),
        TypeMemberKind::MemberFunction { function } => (
            seq!['f', 'u', 'n', 'c', 't', 'i', 'o', 'n'],
            function.name@,
        ),
    }
}

/// The name of the generated item for a member: `__{kind}__{name}`.
pub open spec fn mangled(kind: Seq<char>, name: Seq<char>) -> Seq<char> {
    seq!['_', '_'] + kind + seq!['_', '_'] + name
}

fn mangle(kind: &str, name: &String) -> (r: String)
    ensures
        r@ == mangled(kind@, name@),
{
    proof {
        reveal_strlit("__");
    }
    let mut s = String::from_str("__");
    s.append(kind);
    s.append("__");
    s.append(name.as_str());
    assert(s@ =~= mangled(kind@, name@));
    s
}

/// The name of the generated item for a state member.
pub fn mangle_state_member_name(member: &StateMemberKind) -> (r: String)
    ensures
        r@ == mangled(state_member_parts(*member).0, state_member_parts(*member).1),
{
    proof {
        reveal_strlit("get");
        reveal_strlit("set");
        reveal_strlit("create");
        reveal_strlit("method");
        reveal_strlit("function");
    }
    match member {
        StateMemberKind::MemberGet { get } => mangle("get", &get.name),
        StateMemberKind::MemberSet { set } => mangle("set", &set.name),
        StateMemberKind::MemberCreate { create } => mangle("create", &create.name),
        StateMemberKind::MemberMethod { method } => mangle("method", &method.name),
        StateMemberKind::MemberFunction { function } => mangle("function", &function.name),
    }
}

/// The name of the generated item for a plain type's member.
pub fn mangle_type_member_name(member: &TypeMemberKind) -> (r: String)
    ensures
        r@ == mangled(type_member_parts(*member).0, type_member_parts(*member).1),
{
    proof {
        reveal_strlit("get");
        reveal_strlit("method");
        reveal_strlit("function");
    }
    match member {
        TypeMemberKind::MemberGet { get } => mangle("get", &get.name),
        TypeMemberKind::MemberMethod { method } => mangle("method", &method.name),
        TypeMemberKind::MemberFunction { function } => mangle("function", &function.name),
    }
}

/// The types of the typed parameters, in order; receivers are left out.
pub open spec fn typed_params(params: Seq<Param>) -> Seq<String>
    decreases params.len(),
{
    if params.len() == 0 {
        Seq::empty()
    } else {
        let rest = typed_params(params.drop_last());
        match params.last() {
            Param::Receiver => rest,
            Param::Typed { pat, ty } => rest.push(ty),
        }
    }
}

/// The types of a function's typed parameters, in order.
pub fn params_to_types(params: &Vec<Param>) -> (r: Vec<String>)
    ensures
        r@ == typed_params(params@),
{
    let mut out: Vec<String> = Vec::new();
    let mut i: usize = 0;
    while i < params.len()
        invariant
            i <= params.len(),
            out@ == typed_params(params@.take(i as int)),
        decreases params.len() - i,
    {
        assert(params@.take(i + 1).drop_last() =~= params@.take(i as int));
        match &params[i] {
            Param::Receiver => {},
            Param::Typed { pat, ty } => {
                out.push(ty.clone());
            },
        }
        i = i + 1;
    }
    assert(params@.take(i as int) =~= params@);
    out
}

} // verus!
