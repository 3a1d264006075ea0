//! What the `scriptable` expansion generates for a description: the member
//! items of the type's impl block, which wrapper each returns, and the macros
//! through which a language registers the type.
use vstd::prelude::*;
use vstd::string::*;

use crate::model::{
    DeriveKind, Param, Scriptable, ScriptableDetails, SelfType, StateMemberKind, TypeMemberKind,
    derive_op_name, details_of, mangle_state_member_name, mangle_type_member_name, mangled,
    params_to_types, state_member_parts, type_member_parts, typed_params,
};
use crate::options::clone_strings;

verus! {

/// The wrapper that a generated member item returns.
#[derive(Debug, Clone, Copy, PartialEq, Eq, Structural)]
pub enum WrapperKind {
    StateGet,
    StateSet,
    StateCreate,
    StateMethod,
    StateFunction,
    StatelessGet,
    StatelessMethod,
    StatelessFunction,
    StatelessEq,
}

/// A generated member item: its name, the wrapper it returns, and the number
/// of script arguments its function takes.
#[derive(Debug, Clone, PartialEq, Eq)]
pub struct MemberItem {
    pub name: String,
    pub wrapper: WrapperKind,
    pub arg_count: usize,
}

/// How the registration macros are laid out.
#[derive(Debug, Clone, PartialEq, Eq)]
pub enum MacroPlan {
    /// A partial description: a forwarding macro, exported under `alias`,
    /// that hands the member items on to the next macro of a chain.
    Partial { alias: String },
    /// A full description: the chain of macros that collects the member
    /// items, the included partials first and the build macro last.
    Build { chain: Vec<String> },
}

/// What the expansion generates for a description.
#[derive(Debug, Clone, PartialEq, Eq)]
pub struct ScriptablePlan {
    /// The name of the registration macro: `register_` and the type's last
    /// path segment.
    pub register_macro: Option<String>,
    pub is_state: bool,
    /// The member items, the derived operators first.
    pub items: Vec<MemberItem>,
    /// Whether the item that registers the type itself is generated (not for
    /// a partial description).
    pub type_item: bool,
    pub macros: MacroPlan,
}

/// Why the expansion refuses a description.
#[derive(Debug, Clone, Copy, PartialEq, Eq, Structural)]
pub enum PlanError {
    /// The type is not a type path.
    ExpectedTypePath,
    /// A method of a plain type declares actions.
    StatelessMethodActions,
}

impl PlanError {
    /// The message reported for the error.
    pub fn message(&self) -> (r: &'static str)
        ensures
            *self == PlanError::ExpectedTypePath ==> r@ == "Expected a type path"@,
            *self == PlanError::StatelessMethodActions ==> r@ == "Non-state methods cannot have actions"@,
    {
        match self {
            PlanError::ExpectedTypePath => "Expected a type path",
            PlanError::StatelessMethodActions => "Non-state methods cannot have actions",
        }
    }
}

/// The name of the macro that builds the registration macro.
pub open spec fn build_macro_name() -> Seq<char> {
    seq![
        '_',
        '_',
        's',
        'p',
        'r',
        'u',
        '_',
        's',
        'c',
        'r',
        'i',
        'p',
        't',
        '_',
        '_',
        'b',
        'u',
        'i',
        'l',
        'd',
    ]
}

/// The prefix of a registration macro's name.
pub open spec fn register_prefix() -> Seq<char> {
    seq!['r', 'e', 'g', 'i', 's', 't', 'e', 'r', '_']
}

/// The wrapper and the argument count of a state member's item.
pub open spec fn state_item_shape(m: StateMemberKind) -> (WrapperKind, nat) {
    match m {
        StateMemberKind::MemberGet { .. } => (WrapperKind::StateGet, 0),
        StateMemberKind::MemberSet { .. } => (WrapperKind::StateSet, 1),
        StateMemberKind::MemberCreate { create } => (
            WrapperKind::StateCreate,
            typed_params(create.params@).len(),
        ),
        StateMemberKind::MemberMethod { method } => (
            WrapperKind::StateMethod,
            typed_params(method.params@).len(),
        ),
        StateMemberKind::MemberFunction { function } => (
            WrapperKind::StateFunction,
            typed_params(function.params@).len(),
        ),
    }
}

/// The wrapper and the argument count of a plain type's member item.
pub open spec fn type_item_shape(m: TypeMemberKind) -> (WrapperKind, nat) {
    match m {
        TypeMemberKind::MemberGet { .. } => (WrapperKind::StatelessGet, 0),
        TypeMemberKind::MemberMethod { method } => (
            WrapperKind::StatelessMethod,
            typed_params(method.params@).len(),
        ),
        TypeMemberKind::MemberFunction { function } => (
            WrapperKind::StatelessFunction,
            typed_params(function.params@).len(),
        ),
    }
}

/// The item generated for a state member.
pub open spec fn state_item_ok(item: MemberItem, m: StateMemberKind) -> bool {
    &&& item.name@ == mangled(state_member_parts(m).0, state_member_parts(m).1)
    &&& item.wrapper == state_item_shape(m).0
    &&& item.arg_count == state_item_shape(m).1
}

/// The item generated for a plain type's member.
pub open spec fn type_item_ok(item: MemberItem, m: TypeMemberKind) -> bool {
    &&& item.name@ == mangled(type_member_parts(m).0, type_member_parts(m).1)
    &&& item.wrapper == type_item_shape(m).0
    &&& item.arg_count == type_item_shape(m).1
}

/// The item generated for a derived operator.
pub open spec fn derive_item_ok(item: MemberItem, d: DeriveKind) -> bool {
    &&& item.name@ == seq!['_', '_'] + derive_op_name(d)
    &&& item.wrapper == WrapperKind::StatelessEq
    &&& item.arg_count == 0
}

/// The derived operators of a description.
pub open spec fn derives_of(d: ScriptableDetails) -> Seq<DeriveKind> {
    match d.options.derive {
        Some(v) => v@,
        None => Seq::empty(),
    }
}

/// The included partials of a description.
pub open spec fn includes_of(d: ScriptableDetails) -> Seq<String> {
    match d.options.includes {
        Some(v) => v@,
        None => Seq::empty(),
    }
}

/// Whether a plain type's method declares actions.
pub open spec fn stateless_method_with_actions(s: Scriptable) -> bool {
    match s {
        Scriptable::Ty { ty } => exists|k: int|
            0 <= k < ty.members.len() && match #[trigger] ty.members@[k] {
                TypeMemberKind::MemberMethod { method } => method.actions.len() > 0,
                _ => false,
            },
        _ => false,
    }
}

/// The plan generated for a description that is accepted.
pub open spec fn plan_ok(p: ScriptablePlan, s: Scriptable) -> bool {
    let d = details_of(s);
    let derives = derives_of(d);
    let nd = derives.len();
    &&& match d.self_type {
        SelfType::Path { segments, .. } => if segments.len() > 0 {
            p.register_macro matches Some(m) && m@ == register_prefix() + segments@.last()@
        } else {
            p.register_macro is None
        },
        _ => false,
    }
    &&& p.type_item == (d.options.partial is None)
    &&& (forall|k: int| 0 <= k < nd ==> derive_item_ok(#[trigger] p.items@[k], derives[k]))
    &&& match s {
        Scriptable::State { state } => p.is_state && p.items.len() == nd + state.members.len()
            && forall|k: int|
            0 <= k < state.members.len() ==> state_item_ok(
                #[trigger] p.items@[nd + k],
                state.members@[k],
            ),
        Scriptable::Ty { ty } => !p.is_state && p.items.len() == nd + ty.members.len() && forall|
            k: int,
        |
            0 <= k < ty.members.len() ==> type_item_ok(
                #[trigger] p.items@[nd + k],
                ty.members@[k],
            ),
    }
    &&& match d.options.partial {
        Some(alias) => p.macros == MacroPlan::Partial { alias },
        None => match p.macros {
            MacroPlan::Build { chain } => chain.len() == includes_of(d).len() + 1 && (forall|
                k: int,
            |
                0 <= k < includes_of(d).len() ==> #[trigger] chain@[k] == includes_of(d)[k])
                && chain@.last()@ == build_macro_name(),
            _ => false,
        },
    }
}

fn state_item(m: &StateMemberKind) -> (r: MemberItem)
    ensures
        state_item_ok(r, *m),
{
    let name = mangle_state_member_name(m);
    match m {
        StateMemberKind::MemberGet { .. } => MemberItem {
            name,
            wrapper: WrapperKind::StateGet,
            arg_count: 0,
        },
        StateMemberKind::MemberSet { .. } => MemberItem {
            name,
            wrapper: WrapperKind::StateSet,
            arg_count: 1,
        },
        StateMemberKind::MemberCreate { create } => MemberItem {
            name,
            wrapper: WrapperKind::StateCreate,
            arg_count: params_to_types(&create.params).len(),
        },
        StateMemberKind::MemberMethod { method } => MemberItem {
            name,
            wrapper: WrapperKind::StateMethod,
            arg_count: params_to_types(&method.params).len(),
        },
        StateMemberKind::MemberFunction { function } => MemberItem {
            name,
            wrapper: WrapperKind::StateFunction,
            arg_count: params_to_types(&function.params).len(),
        },
    }
}

fn type_item(m: &TypeMemberKind) -> (r: MemberItem)
    ensures
        type_item_ok(r, *m),
{
    let name = mangle_type_member_name(m);
    match m {
        TypeMemberKind::MemberGet { .. } => MemberItem {
            name,
            wrapper: WrapperKind::StatelessGet,
            arg_count: 0,
        },
        TypeMemberKind::MemberMethod { method } => MemberItem {
            name,
            wrapper: WrapperKind::StatelessMethod,
            arg_count: params_to_types(&method.params).len(),
        },
        TypeMemberKind::MemberFunction { function } => MemberItem {
            name,
            wrapper: WrapperKind::StatelessFunction,
            arg_count: params_to_types(&function.params).len(),
        },
    }
}

fn derive_item(d: DeriveKind) -> (r: MemberItem)
    ensures
        derive_item_ok(r, d),
{
    proof {
        reveal_strlit("__");
    }
    let mut name = String::from_str("__");
    name.append(d.op_name());
    assert(name@ =~= seq!['_', '_'] + derive_op_name(d));
    MemberItem { name, wrapper: WrapperKind::StatelessEq, arg_count: 0 }
}

/// Plans the expansion of a description: the registration macro is named
/// after the type's last path segment; each derived operator, then each
/// member, gets an item named `__{kind}__{name}` (`__{op}` for an operator)
/// that returns the member's wrapper; a full description also gets the item
/// that registers the type itself and a chain of macros through its included
/// partials, a partial one a forwarding macro under its alias. Refused when
/// the type is not a path, and when a plain type's method declares actions.
pub fn scriptable_plan(s: &Scriptable) -> (r: Result<ScriptablePlan, PlanError>)
    ensures
        !(details_of(*s).self_type is Path) ==> r == Err::<ScriptablePlan, PlanError>(
            PlanError::ExpectedTypePath,
        ),
        details_of(*s).self_type is Path && stateless_method_with_actions(*s) ==> r == Err::<
            ScriptablePlan,
            PlanError,
        >(PlanError::StatelessMethodActions),
        details_of(*s).self_type is Path && !stateless_method_with_actions(*s) ==> (r matches Ok(
            p,
        ) && plan_ok(p, *s)),
{
    let details = s.details();
    let register_macro = match &details.self_type {
        SelfType::Path { segments, .. } => if segments.len() > 0 {
            proof {
                reveal_strlit("register_");
            }
            let mut m = String::from_str("register_");
            m.append(segments[segments.len() - 1].as_str());
            assert(m@ =~= register_prefix() + segments@.last()@);
            Some(m)
        } else {
            None
        },
        SelfType::Other { .. } => {
            return Err(PlanError::ExpectedTypePath);
        },
    };
    let mut items: Vec<MemberItem> = Vec::new();
    let derives: Vec<DeriveKind> = match &details.options.derive {
        Some(v) => {
            let mut out: Vec<DeriveKind> = Vec::new();
            let mut i: usize = 0;
            while i < v.len()
                invariant
                    i <= v.len(),
                    out@ == v@.take(i as int),
                decreases v.len() - i,
            {
                out.push(v[i]);
                i = i + 1;
                assert(out@ =~= v@.take(i as int));
            }
            assert(out@ =~= v@);
            out
        },
        None => Vec::new(),
    };
    assert(derives@ == derives_of(*details));
    let mut i: usize = 0;
    while i < derives.len()
        invariant
            i <= derives.len(),
            items.len() == i,
            forall|k: int| 0 <= k < i ==> derive_item_ok(#[trigger] items@[k], derives@[k]),
        decreases derives.len() - i,
    {
        items.push(derive_item(derives[i]));
        i = i + 1;
    }
    let nd = derives.len();
    let is_state;
    match s {
        Scriptable::State { state } => {
            is_state = true;
            let mut k: usize = 0;
            while k < state.members.len()
                invariant
                    k <= state.members.len(),
                    items.len() == nd + k,
                    forall|q: int| 0 <= q < nd ==> derive_item_ok(#[trigger] items@[q], derives@[q]),
                    forall|q: int|
                        0 <= q < k ==> state_item_ok(#[trigger] items@[nd + q], state.members@[q]),
                decreases state.members.len() - k,
            {
                items.push(state_item(&state.members[k]));
                k = k + 1;
            }
        },
        Scriptable::Ty { ty } => {
            is_state = false;
            let mut k: usize = 0;
            while k < ty.members.len()
                invariant
                    k <= ty.members.len(),
                    details_of(*s).self_type is Path,
                    *s == (Scriptable::Ty { ty: *ty }),
                    items.len() == nd + k,
                    forall|q: int| 0 <= q < nd ==> derive_item_ok(#[trigger] items@[q], derives@[q]),
                    forall|q: int| 0 <= q < k ==> type_item_ok(#[trigger] items@[nd + q], ty.members@[q]),
                    forall|q: int|
                        0 <= q < k ==> !(match #[trigger] ty.members@[q] {
                            TypeMemberKind::MemberMethod { method } => method.actions.len() > 0,
                            _ => false,
                        }),
                decreases ty.members.len() - k,
            {
                match &ty.members[k] {
                    TypeMemberKind::MemberMethod { method } => {
                        if method.actions.len() > 0 {
                            assert(match ty.members@[k as int] {
                                TypeMemberKind::MemberMethod { method } => method.actions.len() > 0,
                                _ => false,
                            });
                            return Err(PlanError::StatelessMethodActions);
                        }
                    },
                    _ => {},
                }
                items.push(type_item(&ty.members[k]));
                k = k + 1;
            }
        },
    }
    let type_item = details.options.partial.is_none();
    let macros = match &details.options.partial {
        Some(alias) => MacroPlan::Partial { alias: alias.clone() },
        None => {
            let mut chain = match &details.options.includes {
                Some(v) => clone_strings(v),
                None => Vec::new(),
            };
            assert(chain@ == includes_of(*details));
            proof {
                reveal_strlit("__spru_script__build");
            }
            let build = String::from_str("__spru_script__build");
            assert(build@ =~= build_macro_name());
            chain.push(build);
            MacroPlan::Build { chain }
        },
    };
    Ok(ScriptablePlan { register_macro, is_state, items, type_item, macros })
}


/// The kind word that a wrapper stands for: `get`, `set`, `create`,
/// `method`, `function`, or `eq` for the derived equality.
pub open spec fn wrapper_word(w: WrapperKind) -> Seq<char> {
    match w {
        WrapperKind::StateGet | WrapperKind::StatelessGet => seq!['g', 'e', 't'],
        WrapperKind::StateSet => seq!['s', 'e', 't'],
        WrapperKind::StateCreate => seq!['c', 'r', 'e', 'a', 't', 'e'],
        WrapperKind::StateMethod | WrapperKind::StatelessMethod => seq!['m', 'e', 't', 'h', 'o', 'd'],
        WrapperKind::StateFunction | WrapperKind::StatelessFunction => seq!['f', 'u', 'n', 'c', 't', 'i', 'o', 'n'],
        WrapperKind::StatelessEq => seq!['e', 'q'],
    }
}

/// Whether a wrapper reaches the game state.
pub open spec fn is_state_wrapper(w: WrapperKind) -> bool {
    match w {
        WrapperKind::StateGet | WrapperKind::StateSet | WrapperKind::StateCreate
        | WrapperKind::StateMethod | WrapperKind::StateFunction => true,
        _ => false,
    }
}

/// How many of the parameters the script passes: all but the receiver.
pub open spec fn script_arg_count(params: Seq<Param>) -> nat
    decreases params.len(),
{
    if params.len() == 0 {
        0
    } else {
        script_arg_count(params.drop_last()) + if params.last() is Receiver {
            0nat
        } else {
            1nat
        }
    }
}

/// The number of script arguments of a state member: none for a getter,
/// the new value for a setter, else every parameter but the receiver.
pub open spec fn state_member_args(m: StateMemberKind) -> nat {
    match m {
        StateMemberKind::MemberGet { .. } => 0,
        StateMemberKind::MemberSet { .. } => 1,
        StateMemberKind::MemberCreate { create } => script_arg_count(create.params@),
        StateMemberKind::MemberMethod { method } => script_arg_count(method.params@),
        StateMemberKind::MemberFunction { function } => script_arg_count(function.params@),
    }
}

/// The number of script arguments of a plain type's member.
pub open spec fn type_member_args(m: TypeMemberKind) -> nat {
    match m {
        TypeMemberKind::MemberGet { .. } => 0,
        TypeMemberKind::MemberMethod { method } => script_arg_count(method.params@),
        TypeMemberKind::MemberFunction { function } => script_arg_count(function.params@),
    }
}

proof fn lemma_typed_params_count(params: Seq<Param>)
    ensures
        typed_params(params).len() == script_arg_count(params),
    decreases params.len(),
{
    if params.len() > 0 {
        lemma_typed_params_count(params.drop_last());
    }
}

/// The name a member was declared with.
pub open spec fn state_member_name(m: StateMemberKind) -> Seq<char> {
    match m {
        StateMemberKind::MemberGet { get } => get.name@,
        StateMemberKind::MemberSet { set } => set.name@,
        StateMemberKind::MemberCreate { create } => create.name@,
        StateMemberKind::MemberMethod { method } => method.name@,
        StateMemberKind::MemberFunction { function } => function.name@,
    }
}

pub open spec fn type_member_name(m: TypeMemberKind) -> Seq<char> {
    match m {
        TypeMemberKind::MemberGet { get } => get.name@,
        TypeMemberKind::MemberMethod { method } => method.name@,
        TypeMemberKind::MemberFunction { function } => function.name@,
    }
}

/// In an accepted plan, the derived operators' items come first and return
/// the equality wrapper; every member's item returns a wrapper that reaches
/// the game state exactly when the description is a state's, and that
/// wrapper stands for the kind word in the item's mangled name
/// (`__function__make` returns a function wrapper); its argument count is
/// the number of values the script passes.
pub proof fn lemma_plan_wrappers_match_members(s: Scriptable, r: Result<ScriptablePlan, PlanError>)
    requires
        call_ensures(scriptable_plan, (&s,), r),
        r is Ok,
    ensures
        ({
            let p = r->Ok_0;
            let nd = derives_of(details_of(s)).len();
            &&& p.is_state == (s is State)
            &&& forall|k: int| 0 <= k < nd ==> (#[trigger] p.items@[k]).wrapper == WrapperKind::StatelessEq
            &&& forall|k: int|
                nd <= k < p.items.len() ==> is_state_wrapper((#[trigger] p.items@[k]).wrapper) == p.is_state
                    && p.items@[k].wrapper != WrapperKind::StatelessEq
            &&& match s {
                Scriptable::State { state } => p.items.len() == nd + state.members.len() && forall|k: int|
                    0 <= k < state.members.len() ==> (#[trigger] p.items@[nd + k]).name@ == seq!['_', '_']
                        + wrapper_word(p.items@[nd + k].wrapper) + seq!['_', '_'] + state_member_name(
                        state.members@[k],
                    ) && p.items@[nd + k].arg_count == state_member_args(state.members@[k]),
                Scriptable::Ty { ty } => p.items.len() == nd + ty.members.len() && forall|k: int|
                    0 <= k < ty.members.len() ==> (#[trigger] p.items@[nd + k]).name@ == seq!['_', '_']
                        + wrapper_word(p.items@[nd + k].wrapper) + seq!['_', '_'] + type_member_name(
                        ty.members@[k],
                    ) && p.items@[nd + k].arg_count == type_member_args(ty.members@[k]),
            }
        }),
{
    let p = r->Ok_0;
    let nd = derives_of(details_of(s)).len();
    assert(plan_ok(p, s));
    match s {
        Scriptable::State { state } => {
            assert forall|k: int| nd <= k < p.items.len() implies is_state_wrapper((#[trigger] p.items@[k]).wrapper) == p.is_state
                && p.items@[k].wrapper != WrapperKind::StatelessEq by {
                assert(state_item_ok(p.items@[nd + (k - nd)], state.members@[k - nd]));
            }
            assert forall|k: int| 0 <= k < state.members.len() implies (#[trigger] p.items@[nd + k]).name@ == seq!['_', '_']
                + wrapper_word(p.items@[nd + k].wrapper) + seq!['_', '_'] + state_member_name(state.members@[k])
                && p.items@[nd + k].arg_count == state_member_args(state.members@[k]) by {
                assert(state_item_ok(p.items@[nd + k], state.members@[k]));
                match state.members@[k] {
                    StateMemberKind::MemberCreate { create } => lemma_typed_params_count(create.params@),
                    StateMemberKind::MemberMethod { method } => lemma_typed_params_count(method.params@),
                    StateMemberKind::MemberFunction { function } => lemma_typed_params_count(function.params@),
                    _ => {},
                }
            }
        },
        Scriptable::Ty { ty } => {
            assert forall|k: int| nd <= k < p.items.len() implies is_state_wrapper((#[trigger] p.items@[k]).wrapper) == p.is_state
                && p.items@[k].wrapper != WrapperKind::StatelessEq by {
                assert(type_item_ok(p.items@[nd + (k - nd)], ty.members@[k - nd]));
            }
            assert forall|k: int| 0 <= k < ty.members.len() implies (#[trigger] p.items@[nd + k]).name@ == seq!['_', '_']
                + wrapper_word(p.items@[nd + k].wrapper) + seq!['_', '_'] + type_member_name(ty.members@[k])
                && p.items@[nd + k].arg_count == type_member_args(ty.members@[k]) by {
                assert(type_item_ok(p.items@[nd + k], ty.members@[k]));
                match ty.members@[k] {
                    TypeMemberKind::MemberMethod { method } => lemma_typed_params_count(method.params@),
                    TypeMemberKind::MemberFunction { function } => lemma_typed_params_count(function.params@),
                    _ => {},
                }
            }
        },
    }
}

} // verus!
