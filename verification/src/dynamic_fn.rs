//! The plan of the registration impls that the rhai bindings generate: one
//! impl per member kind, per number of script parameters, per choice of
//! converting the return value, and per set of converted parameters.
use vstd::prelude::*;

verus! {

/// How many parameters, besides the receiver, a member kind takes.
#[derive(Debug, Clone, Copy, PartialEq, Eq, Structural)]
pub enum ParamKind {
    /// A getter: `fn(&self) -> ..`.
    Zero,
    /// A setter: `fn(&self, value) -> ..`.
    One,
    /// A method, function or constructor: any number of parameters.
    Many,
}

impl ParamKind {
    pub open spec fn min_count(self) -> nat {
        match self {
            ParamKind::Zero => 0,
            ParamKind::One => 1,
            ParamKind::Many => 0,
        }
    }

    pub open spec fn max_count(self) -> nat {
        match self {
            ParamKind::Zero => 0,
            ParamKind::One => 1,
            ParamKind::Many => 1000,
        }
    }

    /// The fewest parameters the kind takes.
    pub fn min_params(&self) -> (r: usize)
        ensures
            r == self.min_count(),
    {
        match self {
            ParamKind::Zero => 0,
            ParamKind::One => 1,
            ParamKind::Many => 0,
        }
    }

    /// The most parameters the kind takes (for `Many`, more than any member
    /// ever has).
    pub fn max_params(&self) -> (r: usize)
        ensures
            r == self.max_count(),
    {
        match self {
            ParamKind::Zero => 0,
            ParamKind::One => 1,
            ParamKind::Many => 1000,
        }
    }
}

/// What the native function of a member kind returns.
#[derive(Debug, Clone, Copy, PartialEq, Eq, Structural)]
pub enum ReturnKind {
    /// A getter or function: the script's value.
    One,
    /// A setter: the actions to apply.
    Actions,
    /// A state method: the script's value, then the actions to apply.
    OnePlusActions,
    /// A constructor: the action that creates the item.
    Action,
}

impl ReturnKind {
    pub open spec fn returns_value(self) -> bool {
        match self {
            ReturnKind::One => true,
            ReturnKind::Actions => false,
            ReturnKind::OnePlusActions => true,
            ReturnKind::Action => false,
        }
    }

    /// Whether the script receives a value back.
    pub fn has_return_value(&self) -> (r: bool)
        ensures
            r == self.returns_value(),
    {
        match self {
            ReturnKind::One => true,
            ReturnKind::Actions => false,
            ReturnKind::OnePlusActions => true,
            ReturnKind::Action => false,
        }
    }
}

/// How a member with a receiver is registered with the engine: as a property
/// getter, a property setter, or a named function; `pure` marks a function
/// that may not change its receiver, `volatile` one whose result may differ
/// between two calls.
#[derive(Debug, Clone, Copy, PartialEq, Eq, Structural)]
pub enum Registration {
    Getter { volatile: bool },
    Setter { pure: bool },
    Function { pure: bool, volatile: bool },
}

/// The member kinds, in the order in which their impls are generated.
#[derive(Debug, Clone, Copy, PartialEq, Eq, Structural)]
pub enum MemberKind {
    StateGet,
    StateSet,
    StateMethod,
    StateFunction,
    StateCreate,
    StatelessGet,
    StatelessMethod,
    StatelessFunction,
}

impl MemberKind {
    pub open spec fn index(self) -> nat {
        match self {
            MemberKind::StateGet => 0,
            MemberKind::StateSet => 1,
            MemberKind::StateMethod => 2,
            MemberKind::StateFunction => 3,
            MemberKind::StateCreate => 4,
            MemberKind::StatelessGet => 5,
            MemberKind::StatelessMethod => 6,
            MemberKind::StatelessFunction => 7,
        }
    }

    pub open spec fn state(self) -> bool {
        self.index() < 5
    }

    pub open spec fn receiver(self) -> bool {
        match self {
            MemberKind::StateGet | MemberKind::StateSet | MemberKind::StateMethod
            | MemberKind::StatelessGet | MemberKind::StatelessMethod => true,
            _ => false,
        }
    }

    pub open spec fn params(self) -> ParamKind {
        match self {
            MemberKind::StateGet | MemberKind::StatelessGet => ParamKind::Zero,
            MemberKind::StateSet => ParamKind::One,
            _ => ParamKind::Many,
        }
    }

    pub open spec fn result_kind(self) -> ReturnKind {
        match self {
            MemberKind::StateSet => ReturnKind::Actions,
            MemberKind::StateMethod => ReturnKind::OnePlusActions,
            MemberKind::StateCreate => ReturnKind::Action,
            _ => ReturnKind::One,
        }
    }

    pub open spec fn registered(self) -> Option<Registration> {
        match self {
            MemberKind::StateGet => Some(Registration::Getter { volatile: true }),
            MemberKind::StateSet => Some(Registration::Setter { pure: true }),
            MemberKind::StateMethod => Some(Registration::Function { pure: true, volatile: true }),
            MemberKind::StatelessGet => Some(Registration::Getter { volatile: false }),
            MemberKind::StatelessMethod => Some(
                Registration::Function { pure: true, volatile: false },
            ),
            _ => None,
        }
    }

    pub open spec fn wrapper_text(self) -> Seq<char> {
        match self {
            MemberKind::StateGet => "StateGetWrap"@,
            MemberKind::StateSet => "StateSetWrap"@,
            MemberKind::StateMethod => "StateMethodWrap"@,
            MemberKind::StateFunction => "StateFunctionWrap"@,
            MemberKind::StateCreate => "StateCreateWrap"@,
            MemberKind::StatelessGet => "StatelessGetWrap"@,
            MemberKind::StatelessMethod => "StatelessMethodWrap"@,
            MemberKind::StatelessFunction => "StatelessFunctionWrap"@,
        }
    }

    /// Whether the member belongs to a state type.
    pub fn is_state(&self) -> (r: bool)
        ensures
            r == self.state(),
    {
        match self {
            MemberKind::StateGet | MemberKind::StateSet | MemberKind::StateMethod
            | MemberKind::StateFunction | MemberKind::StateCreate => true,
            _ => false,
        }
    }

    /// Whether the member's function takes the item itself first.
    pub fn has_receiver(&self) -> (r: bool)
        ensures
            r == self.receiver(),
    {
        match self {
            MemberKind::StateGet | MemberKind::StateSet | MemberKind::StateMethod
            | MemberKind::StatelessGet | MemberKind::StatelessMethod => true,
            _ => false,
        }
    }

    pub fn param_kind(&self) -> (r: ParamKind)
        ensures
            r == self.params(),
    {
        match self {
            MemberKind::StateGet | MemberKind::StatelessGet => ParamKind::Zero,
            MemberKind::StateSet => ParamKind::One,
            _ => ParamKind::Many,
        }
    }

    pub fn return_kind(&self) -> (r: ReturnKind)
        ensures
            r == self.result_kind(),
    {
        match self {
            MemberKind::StateSet => ReturnKind::Actions,
            MemberKind::StateMethod => ReturnKind::OnePlusActions,
            MemberKind::StateCreate => ReturnKind::Action,
            _ => ReturnKind::One,
        }
    }

    /// How the member is registered with the engine; a member without a
    /// receiver is stored as a function pointer in its type's statics map
    /// instead.
    pub fn registration(&self) -> (r: Option<Registration>)
        ensures
            r == self.registered(),
    {
        match self {
            MemberKind::StateGet => Some(Registration::Getter { volatile: true }),
            MemberKind::StateSet => Some(Registration::Setter { pure: true }),
            MemberKind::StateMethod => Some(Registration::Function { pure: true, volatile: true }),
            MemberKind::StatelessGet => Some(Registration::Getter { volatile: false }),
            MemberKind::StatelessMethod => Some(
                Registration::Function { pure: true, volatile: false },
            ),
            _ => None,
        }
    }

    /// The name of the wrapper type that the impl is for.
    pub fn wrapper_name(&self) -> (r: String)
        ensures
            r@ == self.wrapper_text(),
    {
        match self {
            MemberKind::StateGet => String::from_str("StateGetWrap"),
            MemberKind::StateSet => String::from_str("StateSetWrap"),
            MemberKind::StateMethod => String::from_str("StateMethodWrap"),
            MemberKind::StateFunction => String::from_str("StateFunctionWrap"),
            MemberKind::StateCreate => String::from_str("StateCreateWrap"),
            MemberKind::StatelessGet => String::from_str("StatelessGetWrap"),
            MemberKind::StatelessMethod => String::from_str("StatelessMethodWrap"),
            MemberKind::StatelessFunction => String::from_str("StatelessFunctionWrap"),
        }
    }
}

/// The name of the trait that the impls of state (or stateless) members
/// implement.
pub open spec fn trait_text(is_state: bool) -> Seq<char> {
    if is_state {
        "RegisterStateMember"@
    } else {
        "RegisterStatelessMember"@
    }
}

/// The name of that trait's one method.
pub open spec fn trait_fn_text(is_state: bool) -> Seq<char> {
    if is_state {
        "register_state_member"@
    } else {
        "register_stateless_member"@
    }
}

pub fn trait_name(is_state: bool) -> (r: String)
    ensures
        r@ == trait_text(is_state),
{
    if is_state {
        String::from_str("RegisterStateMember")
    } else {
        String::from_str("RegisterStatelessMember")
    }
}

pub fn trait_fn_name(is_state: bool) -> (r: String)
    ensures
        r@ == trait_fn_text(is_state),
{
    if is_state {
        String::from_str("register_state_member")
    } else {
        String::from_str("register_stateless_member")
    }
}

/// The member kinds in the order of generation.
pub open spec fn all_kinds() -> Seq<MemberKind> {
    seq![
        MemberKind::StateGet,
        MemberKind::StateSet,
        MemberKind::StateMethod,
        MemberKind::StateFunction,
        MemberKind::StateCreate,
        MemberKind::StatelessGet,
        MemberKind::StatelessMethod,
        MemberKind::StatelessFunction,
    ]
}

pub fn member_kinds() -> (r: Vec<MemberKind>)
    ensures
        r@ == all_kinds(),
{
    let r = vec![
        MemberKind::StateGet,
        MemberKind::StateSet,
        MemberKind::StateMethod,
        MemberKind::StateFunction,
        MemberKind::StateCreate,
        MemberKind::StatelessGet,
        MemberKind::StatelessMethod,
        MemberKind::StatelessFunction,
    ];
    assert(r@ =~= all_kinds());
    r
}

pub open spec fn two_pow(n: nat) -> nat
    decreases n,
{
    if n == 0 {
        1
    } else {
        2 * two_pow((n - 1) as nat)
    }
}

/// The number of ones in the binary digits of `n`.
pub open spec fn popcount(n: nat) -> nat
    decreases n,
{
    if n == 0 {
        0
    } else {
        n % 2 + popcount(n / 2)
    }
}

/// Whether bit `i` of `n` is set.
pub open spec fn bit(n: nat, i: nat) -> bool {
    (n / two_pow(i)) % 2 == 1
}

/// How many sets of converted parameters are generated for `pc` parameters:
/// every subset while `pc` is at most the limit of converted parameters,
/// else only the empty one.
pub open spec fn bitset_count(pc: nat, converted_limit: nat) -> nat {
    if pc <= converted_limit {
        two_pow(pc)
    } else {
        1
    }
}

pub open spec fn conversion_count(rc: Option<bool>) -> nat {
    match rc {
        Some(true) => 1,
        _ => 0,
    }
}

/// The const parameter of the trait an impl implements: the set of converted
/// parameters, followed by one bit for the conversion of the return value
/// where the member returns one.
pub open spec fn trait_bits(bitset: nat, rc: Option<bool>) -> nat {
    match rc {
        None => bitset,
        Some(c) => 2 * bitset + (if c {
            1nat
        } else {
            0nat
        }),
    }
}

/// One generated impl: the member kind, the number of script parameters,
/// whether the return value is converted (`None` where nothing is returned),
/// which parameters are converted, the trait's const parameter, and how many
/// `&mut` stand before the wrapper type (one more than the conversions).
#[derive(Debug, Clone, Copy, PartialEq, Eq, Structural)]
pub struct ImplSpec {
    pub kind: MemberKind,
    pub param_count: usize,
    pub return_conversion: Option<bool>,
    pub conversion_bitset: usize,
    pub trait_bitset: usize,
    pub mut_refs: usize,
}

pub open spec fn impl_spec(k: MemberKind, pc: nat, rc: Option<bool>, b: nat) -> ImplSpec {
    ImplSpec {
        kind: k,
        param_count: pc as usize,
        return_conversion: rc,
        conversion_bitset: b as usize,
        trait_bitset: trait_bits(b, rc) as usize,
        mut_refs: (popcount(b) + conversion_count(rc) + 1) as usize,
    }
}

pub open spec fn bitset_entries(k: MemberKind, pc: nat, rc: Option<bool>, c: nat) -> Seq<ImplSpec> {
    Seq::new(bitset_count(pc, c), |b: int| impl_spec(k, pc, rc, b as nat))
}

/// The impls of one member kind for `pc` parameters: without and then with
/// the conversion of the return value, where there is one.
pub open spec fn kind_entries(k: MemberKind, pc: nat, c: nat) -> Seq<ImplSpec> {
    if k.result_kind().returns_value() {
        bitset_entries(k, pc, Some(false), c) + bitset_entries(k, pc, Some(true), c)
    } else {
        bitset_entries(k, pc, None, c)
    }
}

pub open spec fn fits(k: MemberKind, pc: nat) -> bool {
    k.params().min_count() <= pc <= k.params().max_count()
}

/// The impls for `pc` parameters of the kinds `ks`, in their order; a kind
/// that cannot take `pc` parameters has none.
pub open spec fn kinds_entries(ks: Seq<MemberKind>, pc: nat, c: nat) -> Seq<ImplSpec>
    decreases ks.len(),
{
    if ks.len() == 0 {
        Seq::empty()
    } else {
        kinds_entries(ks.drop_last(), pc, c) + if fits(ks.last(), pc) {
            kind_entries(ks.last(), pc, c)
        } else {
            Seq::empty()
        }
    }
}

/// All impls generated for parameter counts under `n`, in order.
pub open spec fn plan_upto(n: nat, c: nat) -> Seq<ImplSpec>
    decreases n,
{
    if n == 0 {
        Seq::empty()
    } else {
        plan_upto((n - 1) as nat, c) + kinds_entries(all_kinds(), (n - 1) as nat, c)
    }
}

/// The impls generated for the limits `converted_limit` and
/// `unconverted_limit`, the greatest parameter counts with and without
/// converted parameters: every parameter count up to `unconverted_limit`.
pub open spec fn dynamic_plan(converted_limit: nat, unconverted_limit: nat) -> Seq<ImplSpec> {
    plan_upto(unconverted_limit + 1, converted_limit)
}

proof fn lemma_two_pow_mono(a: nat, b: nat)
    requires
        a <= b,
    ensures
        1 <= two_pow(a) <= two_pow(b),
    decreases b,
{
    if a < b {
        lemma_two_pow_mono(a, (b - 1) as nat);
    } else if a > 0 {
        lemma_two_pow_mono((a - 1) as nat, (a - 1) as nat);
    }
}

proof fn lemma_two_pow_bound(n: nat)
    requires
        n <= 26,
    ensures
        1 <= two_pow(n) <= 67108864,
{
    lemma_two_pow_mono(n, 26);
    reveal_with_fuel(two_pow, 27);
}

proof fn lemma_popcount_le(n: nat)
    ensures
        popcount(n) <= n,
    decreases n,
{
    if n > 0 {
        lemma_popcount_le(n / 2);
    }
}

fn pow2(n: usize) -> (r: usize)
    requires
        n <= 26,
    ensures
        r == two_pow(n as nat),
{
    let mut r: usize = 1;
    let mut i: usize = 0;
    while i < n
        invariant
            i <= n <= 26,
            r == two_pow(i as nat),
        decreases n - i,
    {
        proof {
            lemma_two_pow_bound((i + 1) as nat);
        }
        r = r * 2;
        i = i + 1;
    }
    r
}

fn count_ones(n: usize) -> (r: usize)
    ensures
        r == popcount(n as nat),
{
    proof {
        lemma_popcount_le(n as nat);
    }
    let mut rest: usize = n;
    let mut acc: usize = 0;
    while rest > 0
        invariant
            acc + popcount(rest as nat) == popcount(n as nat),
            popcount(n as nat) <= n,
        decreases rest,
    {
        acc = acc + rest % 2;
        rest = rest / 2;
    }
    acc
}

fn push_bitset_entries(
    out: &mut Vec<ImplSpec>,
    k: MemberKind,
    pc: usize,
    rc: Option<bool>,
    c: usize,
    count: usize,
)
    requires
        pc <= 26,
        c <= 26,
        count == bitset_count(pc as nat, c as nat),
    ensures
        final(out)@ == old(out)@ + bitset_entries(k, pc as nat, rc, c as nat),
{
    proof {
        lemma_two_pow_bound(pc as nat);
        lemma_two_pow_bound(26);
    }
    let ghost base = old(out)@;
    let mut b: usize = 0;
    while b < count
        invariant
            b <= count,
            count <= 67108864,
            count == bitset_count(pc as nat, c as nat),
            out@ == base + bitset_entries(k, pc as nat, rc, c as nat).take(b as int),
        decreases count - b,
    {
        let ones = count_ones(b);
        proof {
            lemma_popcount_le(b as nat);
        }
        let trait_bitset: usize = match rc {
            None => b,
            Some(conv) => if conv {
                2 * b + 1
            } else {
                2 * b
            },
        };
        let extra: usize = match rc {
            Some(true) => 1,
            _ => 0,
        };
        let e = ImplSpec {
            kind: k,
            param_count: pc,
            return_conversion: rc,
            conversion_bitset: b,
            trait_bitset,
            mut_refs: ones + extra + 1,
        };
        assert(e == impl_spec(k, pc as nat, rc, b as nat));
        out.push(e);
        assert(bitset_entries(k, pc as nat, rc, c as nat).take(b + 1) =~= bitset_entries(
            k,
            pc as nat,
            rc,
            c as nat,
        ).take(b as int).push(e));
        b = b + 1;
    }
    assert(bitset_entries(k, pc as nat, rc, c as nat).take(count as int) =~= bitset_entries(
        k,
        pc as nat,
        rc,
        c as nat,
    ));
}

fn push_kind_entries(out: &mut Vec<ImplSpec>, k: MemberKind, pc: usize, c: usize)
    requires
        pc <= 26,
        c <= 26,
    ensures
        final(out)@ == old(out)@ + kind_entries(k, pc as nat, c as nat),
{
    let count: usize = if pc <= c {
        pow2(pc)
    } else {
        1
    };
    if k.return_kind().has_return_value() {
        push_bitset_entries(out, k, pc, Some(false), c, count);
        push_bitset_entries(out, k, pc, Some(true), c, count);
        assert(old(out)@ + bitset_entries(k, pc as nat, Some(false), c as nat) + bitset_entries(
            k,
            pc as nat,
            Some(true),
            c as nat,
        ) =~= old(out)@ + kind_entries(k, pc as nat, c as nat));
    } else {
        push_bitset_entries(out, k, pc, None, c, count);
    }
}

/// The impls that the bindings generate for the two limits, the greatest
/// parameter counts with and without converted parameters: every parameter
/// count up to `unconverted_limit`; for each, the member kinds in order, those
/// that take that many parameters; for each, the return conversions; for
/// each, the sets of converted parameters in increasing order, every subset
/// while the count is at most `converted_limit`, else none converted. Each
/// parameter's type is named by a letter from `A` to `Z` and its value by the
/// lower-case letter; a 27th parameter would have no letter left, and its
/// name would be no identifier, so `unconverted_limit` is at most 26.
pub fn dynamic_fn_plan(converted_limit: usize, unconverted_limit: usize) -> (r: Vec<ImplSpec>)
    requires
        converted_limit <= unconverted_limit <= 26,
    ensures
        r@ == dynamic_plan(converted_limit as nat, unconverted_limit as nat),
{
    let kinds = member_kinds();
    let mut out: Vec<ImplSpec> = Vec::new();
    let mut pc: usize = 0;
    while pc <= unconverted_limit
        invariant
            pc <= unconverted_limit + 1,
            unconverted_limit <= 26,
            converted_limit <= unconverted_limit,
            kinds@ == all_kinds(),
            out@ == plan_upto(pc as nat, converted_limit as nat),
        decreases unconverted_limit + 1 - pc,
    {
        let ghost base = out@;
        let mut j: usize = 0;
        while j < kinds.len()
            invariant
                j <= kinds.len(),
                pc <= unconverted_limit <= 26,
                converted_limit <= unconverted_limit,
                kinds@ == all_kinds(),
                base == plan_upto(pc as nat, converted_limit as nat),
                out@ == base + kinds_entries(all_kinds().take(j as int), pc as nat, converted_limit as nat),
            decreases kinds.len() - j,
        {
            let k = kinds[j];
            assert(all_kinds().take(j + 1).drop_last() =~= all_kinds().take(j as int));
            assert(all_kinds().take(j + 1).last() == k);
            let pk = k.param_kind();
            if pk.min_params() <= pc && pc <= pk.max_params() {
                push_kind_entries(&mut out, k, pc, converted_limit);
                assert(out@ =~= base + kinds_entries(all_kinds().take(j + 1), pc as nat, converted_limit as nat));
            } else {
                assert(out@ =~= base + kinds_entries(all_kinds().take(j + 1), pc as nat, converted_limit as nat));
            }
            j = j + 1;
        }
        assert(all_kinds().take(8) =~= all_kinds());
        pc = pc + 1;
    }
    out
}

/// An impl as the plan generates it: a kind that takes its parameter count,
/// a return conversion exactly where the kind returns a value, a set of
/// converted parameters within the generated range, and the trait parameter
/// and `&mut` count that follow from them.
pub open spec fn valid_entry(e: ImplSpec, c: nat) -> bool {
    &&& e.param_count <= 26
    &&& c <= 26
    &&& fits(e.kind, e.param_count as nat)
    &&& e.conversion_bitset < bitset_count(e.param_count as nat, c)
    &&& (e.kind.result_kind().returns_value() <==> e.return_conversion is Some)
    &&& e == impl_spec(e.kind, e.param_count as nat, e.return_conversion, e.conversion_bitset as nat)
}

pub open spec fn rc_index(rc: Option<bool>) -> nat {
    match rc {
        Some(true) => 1,
        _ => 0,
    }
}

/// The order in which impls are generated: by parameter count, then kind,
/// then return conversion, then set of converted parameters.
pub open spec fn before(a: ImplSpec, b: ImplSpec) -> bool {
    ||| a.param_count < b.param_count
    ||| a.param_count == b.param_count && a.kind.index() < b.kind.index()
    ||| a.param_count == b.param_count && a.kind == b.kind && rc_index(a.return_conversion)
        < rc_index(b.return_conversion)
    ||| a.param_count == b.param_count && a.kind == b.kind && a.return_conversion
        == b.return_conversion && a.conversion_bitset < b.conversion_bitset
}

pub open spec fn in_order(s: Seq<ImplSpec>) -> bool {
    forall|i: int, j: int| 0 <= i < j < s.len() ==> before(#[trigger] s[i], #[trigger] s[j])
}

proof fn lemma_in_order_append(a: Seq<ImplSpec>, b: Seq<ImplSpec>)
    requires
        in_order(a),
        in_order(b),
        forall|i: int, j: int| 0 <= i < a.len() && 0 <= j < b.len() ==> before(#[trigger] a[i], #[trigger] b[j]),
    ensures
        in_order(a + b),
{
    assert forall|i: int, j: int| 0 <= i < j < (a + b).len() implies before(
        #[trigger] (a + b)[i],
        #[trigger] (a + b)[j],
    ) by {
        if j < a.len() {
            assert(before(a[i], a[j]));
        } else if i < a.len() {
            assert(before(a[i], b[j - a.len()]));
        } else {
            assert(before(b[i - a.len()], b[j - a.len()]));
        }
    }
}

proof fn lemma_bitset_entries(k: MemberKind, pc: nat, rc: Option<bool>, c: nat)
    requires
        pc <= 26,
        c <= 26,
        fits(k, pc),
        k.result_kind().returns_value() <==> rc is Some,
    ensures
        in_order(bitset_entries(k, pc, rc, c)),
        forall|i: int|
            0 <= i < bitset_entries(k, pc, rc, c).len() ==> {
                let e = #[trigger] bitset_entries(k, pc, rc, c)[i];
                &&& valid_entry(e, c)
                &&& e.kind == k
                &&& e.param_count == pc
                &&& e.return_conversion == rc
            },
{
    lemma_two_pow_bound(pc);
    lemma_two_pow_mono(pc, 26);
    lemma_two_pow_bound(26);
    let s = bitset_entries(k, pc, rc, c);
    assert forall|i: int| 0 <= i < s.len() implies {
        let e = #[trigger] s[i];
        &&& valid_entry(e, c)
        &&& e.kind == k
        &&& e.param_count == pc
        &&& e.return_conversion == rc
    } by {
        assert(s[i].conversion_bitset == i);
    }
    assert forall|i: int, j: int| 0 <= i < j < s.len() implies before(#[trigger] s[i], #[trigger] s[j]) by {
        assert(s[i].conversion_bitset == i);
        assert(s[j].conversion_bitset == j);
    }
}

proof fn lemma_kind_entries(k: MemberKind, pc: nat, c: nat)
    requires
        pc <= 26,
        c <= 26,
        fits(k, pc),
    ensures
        in_order(kind_entries(k, pc, c)),
        forall|i: int|
            0 <= i < kind_entries(k, pc, c).len() ==> {
                let e = #[trigger] kind_entries(k, pc, c)[i];
                &&& valid_entry(e, c)
                &&& e.kind == k
                &&& e.param_count == pc
            },
{
    if k.result_kind().returns_value() {
        let a = bitset_entries(k, pc, Some(false), c);
        let b = bitset_entries(k, pc, Some(true), c);
        lemma_bitset_entries(k, pc, Some(false), c);
        lemma_bitset_entries(k, pc, Some(true), c);
        assert forall|i: int, j: int| 0 <= i < a.len() && 0 <= j < b.len() implies before(
            #[trigger] a[i],
            #[trigger] b[j],
        ) by {
            assert(a[i].return_conversion == Some(false));
            assert(b[j].return_conversion == Some(true));
        }
        lemma_in_order_append(a, b);
        assert forall|i: int| 0 <= i < (a + b).len() implies {
            let e = #[trigger] (a + b)[i];
            &&& valid_entry(e, c)
            &&& e.kind == k
            &&& e.param_count == pc
        } by {
            if i < a.len() {
                assert((a + b)[i] == a[i]);
            } else {
                assert((a + b)[i] == b[i - a.len()]);
            }
        }
    } else {
        lemma_bitset_entries(k, pc, None, c);
    }
}

proof fn lemma_kinds_entries(j: nat, pc: nat, c: nat)
    requires
        j <= 8,
        pc <= 26,
        c <= 26,
    ensures
        in_order(kinds_entries(all_kinds().take(j as int), pc, c)),
        forall|i: int|
            0 <= i < kinds_entries(all_kinds().take(j as int), pc, c).len() ==> {
                let e = #[trigger] kinds_entries(all_kinds().take(j as int), pc, c)[i];
                &&& valid_entry(e, c)
                &&& e.kind.index() < j
                &&& e.param_count == pc
            },
    decreases j,
{
    let ks = all_kinds().take(j as int);
    if j > 0 {
        lemma_kinds_entries((j - 1) as nat, pc, c);
        assert(ks.drop_last() =~= all_kinds().take(j - 1));
        let a = kinds_entries(ks.drop_last(), pc, c);
        let k = ks.last();
        assert(k == all_kinds()[j - 1]);
        assert(k.index() == j - 1);
        let b = if fits(k, pc) {
            kind_entries(k, pc, c)
        } else {
            Seq::empty()
        };
        if fits(k, pc) {
            lemma_kind_entries(k, pc, c);
        }
        assert(kinds_entries(ks, pc, c) == a + b);
        assert forall|x: int, y: int| 0 <= x < a.len() && 0 <= y < b.len() implies before(
            #[trigger] a[x],
            #[trigger] b[y],
        ) by {
            assert(a[x].kind.index() < j - 1);
            assert(b[y].kind == k);
        }
        lemma_in_order_append(a, b);
        assert forall|i: int| 0 <= i < (a + b).len() implies {
            let e = #[trigger] (a + b)[i];
            &&& valid_entry(e, c)
            &&& e.kind.index() < j
            &&& e.param_count == pc
        } by {
            if i < a.len() {
                assert((a + b)[i] == a[i]);
            } else {
                assert((a + b)[i] == b[i - a.len()]);
            }
        }
    }
}

proof fn lemma_plan_upto(n: nat, c: nat)
    requires
        n <= 27,
        c <= 26,
    ensures
        in_order(plan_upto(n, c)),
        forall|i: int|
            0 <= i < plan_upto(n, c).len() ==> {
                let e = #[trigger] plan_upto(n, c)[i];
                &&& valid_entry(e, c)
                &&& e.param_count < n
            },
    decreases n,
{
    if n > 0 {
        let pc = (n - 1) as nat;
        lemma_plan_upto(pc, c);
        lemma_kinds_entries(8, pc, c);
        assert(all_kinds().take(8) =~= all_kinds());
        let a = plan_upto(pc, c);
        let b = kinds_entries(all_kinds(), pc, c);
        assert forall|x: int, y: int| 0 <= x < a.len() && 0 <= y < b.len() implies before(
            #[trigger] a[x],
            #[trigger] b[y],
        ) by {
            assert(a[x].param_count < pc);
            assert(b[y].param_count == pc);
        }
        lemma_in_order_append(a, b);
        assert forall|i: int| 0 <= i < (a + b).len() implies {
            let e = #[trigger] (a + b)[i];
            &&& valid_entry(e, c)
            &&& e.param_count < n
        } by {
            if i < a.len() {
                assert((a + b)[i] == a[i]);
            } else {
                assert((a + b)[i] == b[i - a.len()]);
            }
        }
    }
}

/// No two generated impls implement the same trait for the same wrapper:
/// two impls of one member kind and one parameter count always differ in
/// the trait's const parameter, so the impls never overlap.
pub proof fn lemma_plan_coherent(converted_limit: nat, unconverted_limit: nat, i: int, j: int)
    requires
        converted_limit <= unconverted_limit <= 26,
        0 <= i < j < dynamic_plan(converted_limit, unconverted_limit).len(),
    ensures
        ({
            let a = dynamic_plan(converted_limit, unconverted_limit)[i];
            let b = dynamic_plan(converted_limit, unconverted_limit)[j];
            a.kind == b.kind && a.param_count == b.param_count ==> a.trait_bitset != b.trait_bitset
        }),
{
    let c = converted_limit;
    lemma_plan_upto(unconverted_limit + 1, c);
    let a = plan_upto(unconverted_limit + 1, c)[i];
    let b = plan_upto(unconverted_limit + 1, c)[j];
    assert(before(a, b));
    assert(valid_entry(a, c));
    assert(valid_entry(b, c));
    if a.kind == b.kind && a.param_count == b.param_count {
        lemma_two_pow_bound(a.param_count as nat);
        lemma_two_pow_mono(a.param_count as nat, 26);
        lemma_two_pow_bound(26);
        assert(a.trait_bitset == trait_bits(a.conversion_bitset as nat, a.return_conversion));
        assert(b.trait_bitset == trait_bits(b.conversion_bitset as nat, b.return_conversion));
    }
}

proof fn lemma_popcount_double(b: nat, r: nat)
    requires
        r <= 1,
    ensures
        popcount(2 * b + r) == popcount(b) + r,
{
    if 2 * b + r > 0 {
        assert((2 * b + r) % 2 == r);
        assert((2 * b + r) / 2 == b);
    }
}

/// The `&mut` count of every generated impl is one more than the number of
/// conversions it makes, which is the number of set bits of the trait's
/// const parameter.
pub proof fn lemma_plan_mut_refs(converted_limit: nat, unconverted_limit: nat, i: int)
    requires
        converted_limit <= unconverted_limit <= 26,
        0 <= i < dynamic_plan(converted_limit, unconverted_limit).len(),
    ensures
        ({
            let e = dynamic_plan(converted_limit, unconverted_limit)[i];
            &&& e.mut_refs == popcount(e.conversion_bitset as nat) + conversion_count(
                e.return_conversion,
            ) + 1
            &&& e.mut_refs == popcount(e.trait_bitset as nat) + 1
        }),
{
    let c = converted_limit;
    lemma_plan_upto(unconverted_limit + 1, c);
    let e = plan_upto(unconverted_limit + 1, c)[i];
    assert(valid_entry(e, c));
    let b = e.conversion_bitset as nat;
    lemma_two_pow_bound(e.param_count as nat);
    lemma_two_pow_mono(e.param_count as nat, 26);
    lemma_two_pow_bound(26);
    lemma_popcount_le(b);
    match e.return_conversion {
        None => {},
        Some(conv) => {
            lemma_popcount_double(b, if conv { 1 } else { 0 });
        },
    }
}

/// The bound that an impl puts on the receiver's type: the state's item id
/// type, or the plain type.
#[derive(Debug, Clone, Copy, PartialEq, Eq, Structural)]
pub enum ReceiverBound {
    StateId,
    Type,
}

/// The bound that an impl puts on the native function's return type.
#[derive(Debug, Clone, Copy, PartialEq, Eq, Structural)]
pub enum ReturnBound {
    /// A value, handed over as is or converted into a script value.
    Value { converted: bool },
    /// The tuple of actions of a setter.
    SetReturn,
    /// The value and actions of a state method.
    MethodReturn { converted: bool },
    /// A value that converts into the creating action.
    IntoAction,
}

/// What the body of a generated impl does, step by step.
#[derive(Debug, Clone, Copy, PartialEq, Eq, Structural)]
pub struct ImplShape {
    /// Registered with the engine through a registration (else stored as a
    /// function pointer in the type's statics map).
    pub registration: Option<Registration>,
    pub receiver_bound: Option<ReceiverBound>,
    /// The receiver's type is a parameter of the impl (constructors need it
    /// to type the new item's id).
    pub receiver_type_param: bool,
    /// The receiver's type must be storable in the state.
    pub storable_bound: bool,
    pub return_bound: Option<ReturnBound>,
    /// A setter first reads the property and returns early when the new
    /// value equals it.
    pub checks_unchanged: bool,
    pub gets_ledger: bool,
    pub looks_up_receiver: bool,
    /// The arguments are handed to the native function as a tuple.
    pub passes_args: bool,
    pub splits_set_return: bool,
    pub splits_method_return: bool,
    pub converts_return: bool,
    pub applies_actions: bool,
    pub creates_item: bool,
}

/// The return bound of a member that returns a value, by its return
/// conversion.
pub open spec fn value_bound(rc: Option<bool>) -> Option<ReturnBound> {
    match rc {
        Some(c) => Some(ReturnBound::Value { converted: c }),
        None => None,
    }
}

/// The return bound of a state method, by its return conversion.
pub open spec fn method_bound(rc: Option<bool>) -> Option<ReturnBound> {
    match rc {
        Some(c) => Some(ReturnBound::MethodReturn { converted: c }),
        None => None,
    }
}

/// The shape of each member kind's impl; the return conversion `rc` picks
/// the return bound and whether the value is converted.
pub open spec fn shape_of(k: MemberKind, rc: Option<bool>) -> ImplShape {
    match k {
        // A state getter: looks up the receiver's item in the ledger and hands back its value.
        MemberKind::StateGet => ImplShape {
            registration: Some(Registration::Getter { volatile: true }),
            receiver_bound: Some(ReceiverBound::StateId),
            receiver_type_param: true,
            storable_bound: true,
            return_bound: value_bound(rc),
            checks_unchanged: false,
            gets_ledger: true,
            looks_up_receiver: true,
            passes_args: false,
            splits_set_return: false,
            splits_method_return: false,
            converts_return: rc == Some(true),
            applies_actions: false,
            creates_item: false,
        },
        // A state setter: returns early when the value is unchanged, else applies the setter's actions.
        MemberKind::StateSet => ImplShape {
            registration: Some(Registration::Setter { pure: true }),
            receiver_bound: Some(ReceiverBound::StateId),
            receiver_type_param: true,
            storable_bound: true,
            return_bound: Some(ReturnBound::SetReturn),
            checks_unchanged: true,
            gets_ledger: true,
            looks_up_receiver: true,
            passes_args: true,
            splits_set_return: true,
            splits_method_return: false,
            converts_return: rc == Some(true),
            applies_actions: true,
            creates_item: false,
        },
        // A state method: applies the method's actions and hands back its value.
        MemberKind::StateMethod => ImplShape {
            registration: Some(Registration::Function { pure: true, volatile: true }),
            receiver_bound: Some(ReceiverBound::StateId),
            receiver_type_param: true,
            storable_bound: true,
            return_bound: method_bound(rc),
            checks_unchanged: false,
            gets_ledger: true,
            looks_up_receiver: true,
            passes_args: true,
            splits_set_return: false,
            splits_method_return: true,
            converts_return: rc == Some(true),
            applies_actions: true,
            creates_item: false,
        },
        // A state function: called with its arguments alone, stored in the statics map.
        MemberKind::StateFunction => ImplShape {
            registration: None,
            receiver_bound: None,
            receiver_type_param: false,
            storable_bound: false,
            return_bound: value_bound(rc),
            checks_unchanged: false,
            gets_ledger: false,
            looks_up_receiver: false,
            passes_args: true,
            splits_set_return: false,
            splits_method_return: false,
            converts_return: rc == Some(true),
            applies_actions: false,
            creates_item: false,
        },
        // A constructor: creates the item from the action it returns, stored in the statics map.
        MemberKind::StateCreate => ImplShape {
            registration: None,
            receiver_bound: None,
            receiver_type_param: true,
            storable_bound: true,
            return_bound: Some(ReturnBound::IntoAction),
            checks_unchanged: false,
            gets_ledger: true,
            looks_up_receiver: false,
            passes_args: true,
            splits_set_return: false,
            splits_method_return: false,
            converts_return: rc == Some(true),
            applies_actions: false,
            creates_item: true,
        },
        // A plain type's getter.
        MemberKind::StatelessGet => ImplShape {
            registration: Some(Registration::Getter { volatile: false }),
            receiver_bound: Some(ReceiverBound::Type),
            receiver_type_param: true,
            storable_bound: false,
            return_bound: value_bound(rc),
            checks_unchanged: false,
            gets_ledger: false,
            looks_up_receiver: false,
            passes_args: false,
            splits_set_return: false,
            splits_method_return: false,
            converts_return: rc == Some(true),
            applies_actions: false,
            creates_item: false,
        },
        // A plain type's method.
        MemberKind::StatelessMethod => ImplShape {
            registration: Some(Registration::Function { pure: true, volatile: false }),
            receiver_bound: Some(ReceiverBound::Type),
            receiver_type_param: true,
            storable_bound: false,
            return_bound: value_bound(rc),
            checks_unchanged: false,
            gets_ledger: false,
            looks_up_receiver: false,
            passes_args: true,
            splits_set_return: false,
            splits_method_return: false,
            converts_return: rc == Some(true),
            applies_actions: false,
            creates_item: false,
        },
        // A plain type's function, stored in the statics map.
        MemberKind::StatelessFunction => ImplShape {
            registration: None,
            receiver_bound: None,
            receiver_type_param: false,
            storable_bound: false,
            return_bound: value_bound(rc),
            checks_unchanged: false,
            gets_ledger: false,
            looks_up_receiver: false,
            passes_args: true,
            splits_set_return: false,
            splits_method_return: false,
            converts_return: rc == Some(true),
            applies_actions: false,
            creates_item: false,
        },
    }
}

/// The shape of the impl of kind `k` with return conversion `rc`.
pub fn impl_shape(k: MemberKind, rc: Option<bool>) -> (r: ImplShape)
    ensures
        r == shape_of(k, rc),
{
    let is_state = k.is_state();
    let has_receiver = k.has_receiver();
    let ret = k.return_kind();
    let is_action = match ret {
        ReturnKind::Action => true,
        _ => false,
    };
    let is_actions = match ret {
        ReturnKind::Actions => true,
        _ => false,
    };
    let is_method = match ret {
        ReturnKind::OnePlusActions => true,
        _ => false,
    };
    let receiver_bound = if has_receiver {
        Some(
            if is_state {
                ReceiverBound::StateId
            } else {
                ReceiverBound::Type
            },
        )
    } else {
        None
    };
    let return_bound = match ret {
        ReturnKind::One => match rc {
            Some(conv) => Some(ReturnBound::Value { converted: conv }),
            None => None,
        },
        ReturnKind::Actions => Some(ReturnBound::SetReturn),
        ReturnKind::OnePlusActions => match rc {
            Some(conv) => Some(ReturnBound::MethodReturn { converted: conv }),
            None => None,
        },
        ReturnKind::Action => Some(ReturnBound::IntoAction),
    };
    let converts_return = match rc {
        Some(conv) => conv,
        None => false,
    };
    ImplShape {
        registration: k.registration(),
        receiver_bound,
        receiver_type_param: is_action || has_receiver,
        storable_bound: (is_action || has_receiver) && is_state,
        return_bound,
        checks_unchanged: is_state && is_actions,
        gets_ledger: (has_receiver || is_action) && is_state,
        looks_up_receiver: has_receiver && is_state,
        passes_args: k.param_kind().max_params() != 0,
        splits_set_return: is_actions,
        splits_method_return: is_method,
        converts_return,
        applies_actions: is_actions || is_method,
        creates_item: is_action,
    }
}

/// For each of the first `count` parameters, whether the set `bitset`
/// converts it from a script value (where its bound is the conversion trait,
/// not the plain value bounds).
pub fn converted_args(count: usize, bitset: usize) -> (r: Vec<bool>)
    requires
        count <= 26,
    ensures
        r.len() == count,
        forall|i: int| 0 <= i < count ==> r@[i] == bit(bitset as nat, i as nat),
{
    let mut r: Vec<bool> = Vec::new();
    let mut rest: usize = bitset;
    let mut i: usize = 0;
    assert(two_pow(0) == 1);
    assert(bitset as nat / 1 == bitset);
    while i < count
        invariant
            i <= count <= 26,
            r.len() == i,
            rest == bitset as nat / two_pow(i as nat),
            forall|q: int| 0 <= q < i ==> r@[q] == bit(bitset as nat, q as nat),
        decreases count - i,
    {
        proof {
            lemma_two_pow_bound(i as nat);
            lemma_div_twice(bitset as nat, two_pow(i as nat));
        }
        r.push(rest % 2 == 1);
        rest = rest / 2;
        i = i + 1;
    }
    r
}

proof fn lemma_div_twice(n: nat, d: nat)
    requires
        d > 0,
    ensures
        n / d / 2 == n / (2 * d),
{
    vstd::arithmetic::div_mod::lemma_div_denominator(n as int, d as int, 2);
}

/// The name of the type parameter of argument `index`: `A`, `B`, ...
pub fn arg_type_ident(index: usize) -> (r: char)
    requires
        index < 26,
    ensures
        r as int == 'A' as int + index,
{
    ((65 + index) as u8) as char
}

/// The name of argument `index`: `a`, `b`, ...
pub fn arg_value_ident(index: usize) -> (r: char)
    requires
        index < 26,
    ensures
        r as int == 'a' as int + index,
{
    ((97 + index) as u8) as char
}



/// The wrapper a member kind's impls are written for is named after the
/// kind: `State` or `Stateless` by whether it reaches the game state, then
/// its role (a getter takes no parameters, a setter returns actions, a
/// constructor returns the creating action, a method has a receiver, a
/// function has none), then `Wrap`.
pub proof fn lemma_wrapper_name_spells_the_kind(k: MemberKind, name: String)
    requires
        call_ensures(MemberKind::wrapper_name, (&k,), name),
    ensures
        name@ == (if k.state() { "State"@ } else { "Stateless"@ }) + (if k.params() == ParamKind::Zero {
            "Get"@
        } else if k.result_kind() == ReturnKind::Actions {
            "Set"@
        } else if k.result_kind() == ReturnKind::Action {
            "Create"@
        } else if k.receiver() {
            "Method"@
        } else {
            "Function"@
        }) + "Wrap"@,
{
    reveal_strlit("State");
    reveal_strlit("Stateless");
    reveal_strlit("Get");
    reveal_strlit("Set");
    reveal_strlit("Method");
    reveal_strlit("Function");
    reveal_strlit("Create");
    reveal_strlit("Wrap");
    reveal_strlit("StateGetWrap");
    reveal_strlit("StateSetWrap");
    reveal_strlit("StateMethodWrap");
    reveal_strlit("StateFunctionWrap");
    reveal_strlit("StateCreateWrap");
    reveal_strlit("StatelessGetWrap");
    reveal_strlit("StatelessMethodWrap");
    reveal_strlit("StatelessFunctionWrap");
    match k {
        MemberKind::StateGet => assert(name@ =~= "State"@ + "Get"@ + "Wrap"@),
        MemberKind::StateSet => assert(name@ =~= "State"@ + "Set"@ + "Wrap"@),
        MemberKind::StateMethod => assert(name@ =~= "State"@ + "Method"@ + "Wrap"@),
        MemberKind::StateFunction => assert(name@ =~= "State"@ + "Function"@ + "Wrap"@),
        MemberKind::StateCreate => assert(name@ =~= "State"@ + "Create"@ + "Wrap"@),
        MemberKind::StatelessGet => assert(name@ =~= "Stateless"@ + "Get"@ + "Wrap"@),
        MemberKind::StatelessMethod => assert(name@ =~= "Stateless"@ + "Method"@ + "Wrap"@),
        MemberKind::StatelessFunction => assert(name@ =~= "Stateless"@ + "Function"@ + "Wrap"@),
    }
}

/// Two member kinds never share a wrapper: the impls of one kind are never
/// written for another kind's wrapper.
pub proof fn lemma_wrapper_names_distinct(k1: MemberKind, k2: MemberKind, n1: String, n2: String)
    requires
        call_ensures(MemberKind::wrapper_name, (&k1,), n1),
        call_ensures(MemberKind::wrapper_name, (&k2,), n2),
        k1 != k2,
    ensures
        n1@ != n2@,
{
    reveal_strlit("State");
    reveal_strlit("Stateless");
    reveal_strlit("Get");
    reveal_strlit("Set");
    reveal_strlit("Method");
    reveal_strlit("Function");
    reveal_strlit("Create");
    reveal_strlit("Wrap");
    reveal_strlit("StateGetWrap");
    reveal_strlit("StateSetWrap");
    reveal_strlit("StateMethodWrap");
    reveal_strlit("StateFunctionWrap");
    reveal_strlit("StateCreateWrap");
    reveal_strlit("StatelessGetWrap");
    reveal_strlit("StatelessMethodWrap");
    reveal_strlit("StatelessFunctionWrap");
    if n1@.len() == n2@.len() {
        assert(n1@[5] != n2@[5]);
    }
}

} // verus!
