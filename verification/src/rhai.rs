//! The logic of the rhai bindings: the engine's integer conversions, the
//! arguments of native functions, the storage a script may touch, and the
//! output a reaction script leaves behind.
use vstd::prelude::*;

verus! {

/// The rhai language.
pub struct Rhai;

/// The rhai registry; it holds nothing of its own.
pub struct Registry {}

impl Registry {
    pub fn new() -> (r: Self) {
        Registry {}
    }
}

/// The integer types that scripts convert to and from the engine's integer
/// (`i64`).
#[derive(Debug, Clone, Copy, PartialEq, Eq, Structural)]
pub enum IntKind {
    U8,
    U16,
    U32,
    U64,
    Usize,
    I8,
    I16,
    I32,
    I64,
    Isize,
}

impl IntKind {
    pub open spec fn min_value(self) -> int {
        match self {
            IntKind::U8 | IntKind::U16 | IntKind::U32 | IntKind::U64 | IntKind::Usize => 0,
            IntKind::I8 => i8::MIN as int,
            IntKind::I16 => i16::MIN as int,
            IntKind::I32 => i32::MIN as int,
            IntKind::I64 => i64::MIN as int,
            IntKind::Isize => isize::MIN as int,
        }
    }

    pub open spec fn max_value(self) -> int {
        match self {
            IntKind::U8 => u8::MAX as int,
            IntKind::U16 => u16::MAX as int,
            IntKind::U32 => u32::MAX as int,
            IntKind::U64 => u64::MAX as int,
            IntKind::Usize => usize::MAX as int,
            IntKind::I8 => i8::MAX as int,
            IntKind::I16 => i16::MAX as int,
            IntKind::I32 => i32::MAX as int,
            IntKind::I64 => i64::MAX as int,
            IntKind::Isize => isize::MAX as int,
        }
    }

    pub open spec fn holds(self, v: int) -> bool {
        self.min_value() <= v <= self.max_value()
    }

    fn bounds(&self) -> (r: (i128, i128))
        ensures
            r.0 == self.min_value(),
            r.1 == self.max_value(),
    {
        match self {
            IntKind::U8 => (0, u8::MAX as i128),
            IntKind::U16 => (0, u16::MAX as i128),
            IntKind::U32 => (0, u32::MAX as i128),
            IntKind::U64 => (0, u64::MAX as i128),
            IntKind::Usize => (0, usize::MAX as i128),
            IntKind::I8 => (i8::MIN as i128, i8::MAX as i128),
            IntKind::I16 => (i16::MIN as i128, i16::MAX as i128),
            IntKind::I32 => (i32::MIN as i128, i32::MAX as i128),
            IntKind::I64 => (i64::MIN as i128, i64::MAX as i128),
            IntKind::Isize => (isize::MIN as i128, isize::MAX as i128),
        }
    }
}

/// A conversion between integers refused: the value does not fit the
/// target type.
#[derive(Debug, Clone, Copy, PartialEq, Eq, Structural)]
pub struct DataTooLarge;

impl DataTooLarge {
    pub fn message(&self) -> (r: &'static str)
        ensures
            r@ == "Value is too large for the target type"@,
    {
        "Value is too large for the target type"
    }
}

/// `to_u8`, `to_i16`, ...: the engine's integer `value` as an integer of
/// type `target`, refused where it does not fit.
pub fn from_int(target: IntKind, value: i64) -> (r: Result<i128, DataTooLarge>)
    ensures
        target.holds(value as int) <==> r is Ok,
        r is Ok ==> r->Ok_0 == value,
{
    let (lo, hi) = target.bounds();
    let v = value as i128;
    if lo <= v && v <= hi {
        Ok(v)
    } else {
        Err(DataTooLarge)
    }
}

/// `to_int`: an integer of type `source` as the engine's integer, refused
/// where it does not fit an `i64`.
pub fn to_int(source: IntKind, value: i128) -> (r: Result<i64, DataTooLarge>)
    requires
        source.holds(value as int),
    ensures
        IntKind::I64.holds(value as int) <==> r is Ok,
        r is Ok ==> r->Ok_0 == value,
{
    if i64::MIN as i128 <= value && value <= i64::MAX as i128 {
        Ok(value as i64)
    } else {
        Err(DataTooLarge)
    }
}

/// The range of each integer type, as Rust gives it.
proof fn lemma_rust_int_ranges()
    ensures
        u8::MAX == 255,
        u16::MAX == 65535,
        u32::MAX == 4294967295,
        u64::MAX == 18446744073709551615,
        i8::MIN == -128 && i8::MAX == 127,
        i16::MIN == -32768 && i16::MAX == 32767,
        i32::MIN == -2147483648 && i32::MAX == 2147483647,
        i64::MIN == -9223372036854775808 && i64::MAX == 9223372036854775807,
{
}

/// A script's `to_u8`, `to_u16`, ... accepts the engine's integer exactly
/// when it lies within the range of the target type, and then hands back
/// the same number.
pub proof fn lemma_from_int_accepts_the_target_range(target: IntKind, value: i64, r: Result<i128, DataTooLarge>)
    requires
        call_ensures(from_int, (target, value), r),
    ensures
        r is Ok <==> match target {
            IntKind::U8 => 0 <= value <= 255,
            IntKind::U16 => 0 <= value <= 65535,
            IntKind::U32 => 0 <= value <= 4294967295,
            IntKind::U64 => 0 <= value,
            IntKind::Usize => 0 <= value <= usize::MAX,
            IntKind::I8 => -128 <= value <= 127,
            IntKind::I16 => -32768 <= value <= 32767,
            IntKind::I32 => -2147483648 <= value <= 2147483647,
            IntKind::I64 => true,
            IntKind::Isize => isize::MIN <= value <= isize::MAX,
        },
        r is Ok ==> r->Ok_0 == value,
{
    lemma_rust_int_ranges();
}

/// A script's `to_int` accepts every value of its source type that fits the
/// engine's integer (`i64`), and hands back the same number.
pub proof fn lemma_to_int_accepts_what_fits(source: IntKind, value: i128, r: Result<i64, DataTooLarge>)
    requires
        call_ensures(to_int, (source, value), r),
    ensures
        r is Ok <==> -9223372036854775808 <= value <= 9223372036854775807,
        r is Ok ==> r->Ok_0 == value,
{
    lemma_rust_int_ranges();
}

/// An argument handed to a native function: a value of the expected type,
/// or a value of another type, known by its type's name.
pub enum ScriptArg<T> {
    Of(T),
    Other { kind_name: String },
}

/// Why a native function refused its arguments.
pub enum ArgError {
    NotEnough,
    TooMany,
    /// An argument is not of the expected type.
    Mismatch { expected: String, actual: String },
}

impl ArgError {
    /// The text of the runtime error that reports a wrong number of
    /// arguments; a mismatch is reported as a data type error instead, with
    /// the expected and the actual type's names.
    pub fn message(&self) -> (r: Option<&'static str>)
        ensures
            self is NotEnough ==> r is Some && r->0@ == "Not enough arguments"@,
            self is TooMany ==> r is Some && r->0@ == "Too many arguments"@,
            self is Mismatch ==> r is None,
    {
        match self {
            ArgError::NotEnough => Some("Not enough arguments"),
            ArgError::TooMany => Some("Too many arguments"),
            ArgError::Mismatch { .. } => None,
        }
    }
}

/// The position of the first argument in `args` that is not of the expected
/// type, if any.
pub open spec fn first_mismatch<T>(args: Seq<ScriptArg<T>>) -> Option<int>
    decreases args.len(),
{
    if args.len() == 0 {
        None
    } else {
        match first_mismatch(args.drop_last()) {
            Some(i) => Some(i),
            None => if args.last() is Other {
                Some(args.len() - 1)
            } else {
                None
            },
        }
    }
}

/// The values of the arguments, all of the expected type.
pub open spec fn values_of<T>(args: Seq<ScriptArg<T>>) -> Seq<T> {
    Seq::new(args.len(), |i: int| args[i]->Of_0)
}

/// Takes the first argument, which must be of the expected type.
pub fn pop_arg<T>(args: &mut Vec<ScriptArg<T>>, expected: &String) -> (r: Result<T, ArgError>)
    ensures
        old(args)@.len() == 0 ==> r is Err && r->Err_0 is NotEnough && final(args)@ == old(args)@,
        old(args)@.len() > 0 ==> final(args)@ == old(args)@.drop_first(),
        old(args)@.len() > 0 && old(args)@[0] is Of ==> r == Ok::<T, ArgError>(old(args)@[0]->Of_0),
        old(args)@.len() > 0 && old(args)@[0] is Other ==> r is Err && r->Err_0 is Mismatch && r->Err_0->expected@ == expected@,
        old(args)@.len() > 0 && old(args)@[0] is Other ==> r->Err_0->actual@ == old(args)@[0]->kind_name@,
{
    if args.len() == 0 {
        return Err(ArgError::NotEnough);
    }
    let arg = args.remove(0);
    match arg {
        ScriptArg::Of(v) => Ok(v),
        ScriptArg::Other { kind_name } => Err(
            ArgError::Mismatch { expected: expected.clone(), actual: kind_name },
        ),
    }
}

/// Refuses arguments left over once a function took those it expects.
pub fn extra_args_error<T>(args: &Vec<ScriptArg<T>>) -> (r: Result<(), ArgError>)
    ensures
        args@.len() == 0 <==> r is Ok,
        r is Err ==> r->Err_0 is TooMany,
{
    if args.len() == 0 {
        Ok(())
    } else {
        Err(ArgError::TooMany)
    }
}

/// The elements of an array, each of which must be of the element type; the
/// first that is not is reported.
pub fn typed_elements<T>(elements: Vec<ScriptArg<T>>, expected: &String) -> (r: Result<
    Vec<T>,
    ArgError,
>)
    ensures
        match first_mismatch(elements@) {
            None => r is Ok && r->Ok_0@ == values_of(elements@),
            Some(i) => r is Err && r->Err_0 is Mismatch && r->Err_0->expected@ == expected@
                && r->Err_0->actual@ == elements@[i]->kind_name@,
        },
{
    let ghost all = elements@;
    let mut rest = elements;
    let mut v: Vec<T> = Vec::new();
    let mut i: usize = 0;
    assert(all.len() == rest.len());
    proof {
        assert(all.take(0) =~= Seq::<ScriptArg<T>>::empty());
    }
    while rest.len() > 0
        invariant
            i + rest@.len() == all.len(),
            all.len() <= usize::MAX,
            all == elements@,
            rest@ == all.skip(i as int),
            first_mismatch(all.take(i as int)) is None,
            v@ == values_of(all.take(i as int)),
        decreases rest@.len(),
    {
        let ghost t = all.take(i + 1);
        assert(t.drop_last() =~= all.take(i as int));
        assert(t.last() == all[i as int]);
        assert(rest@[0] == all[i as int]);
        let e = rest.remove(0);
        match e {
            ScriptArg::Of(x) => {
                v.push(x);
                assert(v@ =~= values_of(t));
            },
            ScriptArg::Other { kind_name } => {
                assert(first_mismatch(t) == Some(i as int));
                proof {
                    lemma_first_mismatch_extends(all, i + 1);
                }
                assert(first_mismatch(all) == Some(i as int));
                assert(all[i as int]->kind_name == kind_name);
                let exp = expected.clone();
                assert(exp@ == expected@);
                return Err(ArgError::Mismatch { expected: exp, actual: kind_name });
            },
        }
        i = i + 1;
        assert(rest@ =~= all.skip(i as int));
    }
    assert(all.take(i as int) =~= all);
    Ok(v)
}

proof fn lemma_first_mismatch_extends<T>(all: Seq<ScriptArg<T>>, n: int)
    requires
        0 <= n <= all.len(),
        first_mismatch(all.take(n)) is Some,
    ensures
        first_mismatch(all) == first_mismatch(all.take(n)),
    decreases all.len() - n,
{
    if n < all.len() {
        assert(all.take(n + 1).drop_last() =~= all.take(n));
        lemma_first_mismatch_extends(all, n + 1);
    } else {
        assert(all.take(n) =~= all);
    }
}

/// `from_array`, called on a statics map: the receiver is ignored, the one
/// argument must be an array whose elements all have the element type.
pub fn from_array<T>(
    args: Vec<ScriptArg<Vec<ScriptArg<T>>>>,
    array_name: &String,
    element_name: &String,
) -> (r: Result<Vec<T>, ArgError>)
    ensures
        args@.len() <= 1 ==> r is Err && r->Err_0 is NotEnough,
        args@.len() > 1 && args@[1] is Other ==> r is Err && r->Err_0 is Mismatch
            && r->Err_0->expected@ == array_name@ && r->Err_0->actual@ == args@[1]->kind_name@,
        args@.len() > 2 && args@[1] is Of ==> r is Err && r->Err_0 is TooMany,
        args@.len() == 2 && args@[1] is Of ==> match first_mismatch(args@[1]->Of_0@) {
            None => r is Ok && r->Ok_0@ == values_of(args@[1]->Of_0@),
            Some(i) => r is Err && r->Err_0 is Mismatch && r->Err_0->expected@ == element_name@
                && r->Err_0->actual@ == args@[1]->Of_0@[i]->kind_name@,
        },
{
    let mut args = args;
    if args.len() > 0 {
        args.remove(0);
    }
    let array = pop_arg(&mut args, array_name)?;
    extra_args_error(&args)?;
    typed_elements(array, element_name)
}

/// The storage that a script reaches: read-only storage for an evaluation,
/// or the ledger, through which an executed script may change the state.
#[derive(Debug, Clone, Copy, PartialEq, Eq, Structural)]
pub enum StorageHandle {
    StorageOnly,
    Ledger,
}

impl StorageHandle {
    /// A handle on the game's storage, read only.
    pub fn new_readonly<Storage>(storage: &Storage) -> (r: Self)
        ensures
            r == StorageHandle::StorageOnly,
    {
        StorageHandle::StorageOnly
    }

    /// A handle on the ledger.
    pub fn new<Ledger>(ledger: &mut Ledger) -> (r: Self)
        ensures
            r == StorageHandle::Ledger,
            *final(ledger) == *old(ledger),
    {
        StorageHandle::Ledger
    }

    /// The ledger, for a change of the state: refused during a read-only
    /// evaluation.
    pub fn ledger(&self) -> (r: Result<(), &'static str>)
        ensures
            *self == StorageHandle::Ledger <==> r is Ok,
            r is Err ==> r->Err_0@ == "Attempted to modify state during read-only script evaluation"@,
    {
        match self {
            StorageHandle::StorageOnly => Err(
                "Attempted to modify state during read-only script evaluation",
            ),
            StorageHandle::Ledger => Ok(()),
        }
    }
}

/// Why `enqueue_trigger` failed.
#[derive(Debug, Clone, Copy, PartialEq, Eq, Structural)]
pub enum TriggerError {
    /// The function was not called as a method of the output map.
    NotMethod,
    /// The output map holds no trigger queue.
    QueueMissing,
}

impl TriggerError {
    pub fn message(&self) -> (r: &'static str)
        ensures
            *self == TriggerError::NotMethod ==> r@ == "Must be called as a method"@,
            *self == TriggerError::QueueMissing ==> r@ == "Trigger queue missing"@,
    {
        match self {
            TriggerError::NotMethod => "Must be called as a method",
            TriggerError::QueueMissing => "Trigger queue missing",
        }
    }
}

/// What one `enqueue_trigger` call does to the queue: a call on the output
/// map, with the queue installed, appends its triggers; any other call leaves
/// the queue as it was.
pub open spec fn enqueue_step<T>(queue: Option<Seq<T>>, called_as_method: bool, triggers: Seq<T>) -> Option<Seq<T>> {
    if called_as_method && queue is Some {
        Some(queue->0 + triggers)
    } else {
        queue
    }
}

/// The queue after a run of `enqueue_trigger` calls, each given by whether it
/// was called as a method and by its triggers, in call order.
pub open spec fn enqueue_calls<T>(queue: Option<Seq<T>>, calls: Seq<(bool, Seq<T>)>) -> Option<Seq<T>>
    decreases calls.len(),
{
    if calls.len() == 0 {
        queue
    } else {
        enqueue_step(enqueue_calls(queue, calls.drop_last()), calls.last().0, calls.last().1)
    }
}

/// The triggers of the calls made as methods, in call and argument order.
pub open spec fn method_triggers<T>(calls: Seq<(bool, Seq<T>)>) -> Seq<T>
    decreases calls.len(),
{
    if calls.len() == 0 {
        Seq::empty()
    } else if calls.last().0 {
        method_triggers(calls.drop_last()) + calls.last().1
    } else {
        method_triggers(calls.drop_last())
    }
}

/// Whatever calls a script makes to `enqueue_trigger` once the queue is
/// installed, the queue stays installed and holds what it held before
/// followed by the triggers of every call made as a method, in call order and
/// in argument order within a call; `apply_enqueued_triggers` then hands them
/// over in that order. Without an installed queue, no call installs one.
pub proof fn lemma_enqueue_calls<T>(queue: Option<Seq<T>>, calls: Seq<(bool, Seq<T>)>)
    ensures
        queue is Some ==> enqueue_calls(queue, calls) == Some(queue->0 + method_triggers(calls)),
        queue is None ==> enqueue_calls(queue, calls) is None,
    decreases calls.len(),
{
    if calls.len() > 0 {
        lemma_enqueue_calls(queue, calls.drop_last());
        if queue is Some {
            let s = queue->0;
            let prev = method_triggers(calls.drop_last());
            assert(s + prev + calls.last().1 =~= s + (prev + calls.last().1));
        }
    } else if queue is Some {
        assert(queue->0 + Seq::<T>::empty() =~= queue->0);
    }
}

/// The output map that an interaction or reaction script writes to: the
/// queue of triggers the script enqueued, once the queue is installed.
pub struct OutputMap<T> {
    queue: Option<Vec<T>>,
}

impl<T> OutputMap<T> {
    /// The triggers enqueued so far, if the queue is installed.
    pub closed spec fn queued(&self) -> Option<Seq<T>> {
        match self.queue {
            Some(q) => Some(q@),
            None => None,
        }
    }

    pub fn new() -> (r: Self)
        ensures
            r.queued() is None,
    {
        OutputMap { queue: None }
    }

    /// Installs an empty trigger queue (and with it `enqueue_trigger`).
    pub fn insert_enqueue_trigger(&mut self)
        ensures
            final(self).queued() == Some(Seq::<T>::empty()),
    {
        self.queue = Some(Vec::new());
    }

    /// `output.enqueue_trigger(a, b, ..)`: appends the triggers, in order.
    /// `called_as_method` tells whether the output map was the receiver.
    pub fn enqueue_trigger(&mut self, called_as_method: bool, triggers: Vec<T>) -> (r: Result<
        (),
        TriggerError,
    >)
        ensures
            !called_as_method ==> r == Err::<(), TriggerError>(TriggerError::NotMethod),
            !called_as_method ==> final(self).queued() == old(self).queued(),
            called_as_method && old(self).queued() is None ==> r == Err::<(), TriggerError>(TriggerError::QueueMissing),
            called_as_method && old(self).queued() is None ==> final(self).queued() == old(self).queued(),
            called_as_method && old(self).queued() is Some ==> r is Ok,
            called_as_method && old(self).queued() is Some ==> final(self).queued() == Some(old(self).queued()->0 + triggers@),
            final(self).queued() == enqueue_step(old(self).queued(), called_as_method, triggers@),
    {
        if !called_as_method {
            return Err(TriggerError::NotMethod);
        }
        match &mut self.queue {
            None => Err(TriggerError::QueueMissing),
            Some(q) => {
                let mut rest = triggers;
                let ghost start = q@;
                let ghost all = rest@;
                let mut i: usize = 0;
                assert(all.len() == rest.len());
                while rest.len() > 0
                    invariant
                        i + rest@.len() == all.len(),
                        all.len() <= usize::MAX,
                        rest@ == all.skip(i as int),
                        q@ == start + all.take(i as int),
                    decreases rest@.len(),
                {
                    let t = rest.remove(0);
                    q.push(t);
                    assert(all.take(i + 1) =~= all.take(i as int).push(all[i as int]));
                    i = i + 1;
                    assert(rest@ =~= all.skip(i as int));
                }
                assert(all.take(i as int) =~= all);
                Ok(())
            },
        }
    }

    /// Hands over the enqueued triggers, in the order they were enqueued,
    /// and removes the queue.
    pub fn apply_enqueued_triggers(&mut self) -> (r: Vec<T>)
        requires
            old(self).queued() is Some,
        ensures
            r@ == old(self).queued()->0,
            final(self).queued() is None,
    {
        self.queue.take().unwrap()
    }
}

/// What a reaction script returned: nothing, a game outcome, or a value of
/// another type, known by its type's name.
pub enum ScriptReturn<G> {
    Unit,
    Outcome(G),
    Other { kind_name: String },
}

/// A reaction script returned a value that is not a game outcome.
pub struct OutputTypeMismatch {
    pub expected: String,
    pub actual: String,
}

/// Applies a reaction script's return value: a game outcome is set, nothing
/// leaves the outcome as it was, anything else is refused.
pub fn apply_ret<G>(outcome: &mut Option<G>, ret: ScriptReturn<G>, expected: &String) -> (r: Result<
    (),
    OutputTypeMismatch,
>)
    ensures
        ret is Unit ==> r is Ok && *final(outcome) == *old(outcome),
        ret is Outcome ==> r is Ok && *final(outcome) == Some(ret->Outcome_0),
        ret is Other ==> r is Err && r->Err_0.expected@ == expected@ && r->Err_0.actual@
            == ret->kind_name@ && *final(outcome) == *old(outcome),
{
    match ret {
        ScriptReturn::Unit => Ok(()),
        ScriptReturn::Outcome(g) => {
            *outcome = Some(g);
            Ok(())
        },
        ScriptReturn::Other { kind_name } => Err(
            OutputTypeMismatch { expected: expected.clone(), actual: kind_name },
        ),
    }
}

/// A script value, as the conversions into `Option<T>` and `Vec<T>` see it:
/// unit, a `T`, an `Option<T>` or a `Vec<T>` held as such, an array of
/// script values, or any other value.
pub enum DynValue<T> {
    Unit,
    Value(T),
    OptionValue(Option<T>),
    VecValue(Vec<T>),
    Array(Vec<ScriptArg<T>>),
    Other { kind_name: String },
}

/// A script value as an `Option<T>`: unit is `None`, a `T` is `Some`, an
/// `Option<T>` is itself; any other value is handed back.
pub fn option_from_dynamic<T>(value: DynValue<T>) -> (r: Result<Option<T>, DynValue<T>>)
    ensures
        value is Unit ==> r == Ok::<Option<T>, DynValue<T>>(None),
        value is Value ==> r == Ok::<Option<T>, DynValue<T>>(Some(value->Value_0)),
        value is OptionValue ==> r == Ok::<Option<T>, DynValue<T>>(value->OptionValue_0),
        !(value is Unit || value is Value || value is OptionValue) ==> r == Err::<Option<T>, DynValue<T>>(value),
{
    match value {
        DynValue::Unit => Ok(None),
        DynValue::Value(t) => Ok(Some(t)),
        DynValue::OptionValue(o) => Ok(o),
        other => Err(other),
    }
}

/// Why a script value is not a `Vec<T>`.
pub enum VecConversionError<T> {
    /// The value is neither a `Vec<T>` nor an array.
    NotArray(DynValue<T>),
    /// An element of the array is not a `T`.
    Element { kind_name: String },
}

/// A script value as a `Vec<T>`: a `Vec<T>` is itself, an array must hold
/// only `T`s (the first element that is not one is reported).
pub fn vec_from_dynamic<T>(value: DynValue<T>) -> (r: Result<Vec<T>, VecConversionError<T>>)
    ensures
        value is VecValue ==> r is Ok && r->Ok_0@ == value->VecValue_0@,
        value is Array ==> match first_mismatch(value->Array_0@) {
            None => r is Ok && r->Ok_0@ == values_of(value->Array_0@),
            Some(i) => r is Err && r->Err_0 is Element && r->Err_0->kind_name@
                == value->Array_0@[i]->kind_name@,
        },
        !(value is VecValue || value is Array) ==> r is Err && r->Err_0 is NotArray
            && r->Err_0->NotArray_0 == value,
{
    match value {
        DynValue::VecValue(v) => Ok(v),
        DynValue::Array(elements) => {
            let name = String::new();
            match typed_elements(elements, &name) {
                Ok(v) => Ok(v),
                Err(ArgError::Mismatch { actual, .. }) => Err(VecConversionError::Element { kind_name: actual }),
                Err(_) => {
                    proof {
                        assert(false);
                    }
                    Err(VecConversionError::Element { kind_name: String::new() })
                },
            }
        },
        other => Err(VecConversionError::NotArray(other)),
    }
}

/// `flatten`: the value inside an `Option`, or unit.
pub fn flatten<T>(option: Option<T>) -> (r: DynValue<T>)
    ensures
        option is Some ==> r == DynValue::<T>::Value(option->0),
        option is None ==> r == DynValue::<T>::Unit,
{
    match option {
        Some(t) => DynValue::Value(t),
        None => DynValue::Unit,
    }
}

/// The direction of a registered integer conversion.
#[derive(Debug, Clone, Copy, PartialEq, Eq, Structural)]
pub enum Direction {
    /// From the engine's integer to the kind (`to_u8`, ...).
    FromInt,
    /// From the kind to the engine's integer (`to_int`).
    ToInt,
}

/// A native conversion function registered with every engine.
pub struct IntConversion {
    pub name: String,
    pub kind: IntKind,
    pub direction: Direction,
}

pub open spec fn conversion_kinds() -> Seq<IntKind> {
    seq![
        IntKind::U8,
        IntKind::U16,
        IntKind::U32,
        IntKind::U64,
        IntKind::Usize,
        IntKind::I8,
        IntKind::I16,
        IntKind::I32,
        IntKind::I64,
        IntKind::Isize,
    ]
}

pub open spec fn from_int_name(k: IntKind) -> Seq<char> {
    match k {
        IntKind::U8 => "to_u8"@,
        IntKind::U16 => "to_u16"@,
        IntKind::U32 => "to_u32"@,
        IntKind::U64 => "to_u64"@,
        IntKind::Usize => "to_usize"@,
        IntKind::I8 => "to_i8"@,
        IntKind::I16 => "to_i16"@,
        IntKind::I32 => "to_i32"@,
        IntKind::I64 => "to_i64"@,
        IntKind::Isize => "to_isize"@,
    }
}

fn from_int_fn_name(k: IntKind) -> (r: String)
    ensures
        r@ == from_int_name(k),
{
    match k {
        IntKind::U8 => String::from_str("to_u8"),
        IntKind::U16 => String::from_str("to_u16"),
        IntKind::U32 => String::from_str("to_u32"),
        IntKind::U64 => String::from_str("to_u64"),
        IntKind::Usize => String::from_str("to_usize"),
        IntKind::I8 => String::from_str("to_i8"),
        IntKind::I16 => String::from_str("to_i16"),
        IntKind::I32 => String::from_str("to_i32"),
        IntKind::I64 => String::from_str("to_i64"),
        IntKind::Isize => String::from_str("to_isize"),
    }
}

/// How every engine is set up before any type is registered.
pub struct EngineSetup {
    pub max_expr_depth: usize,
    pub max_function_expr_depth: usize,
    /// Fast operators stay off so that registered `==` and `!=` are used.
    pub fast_operators: bool,
    /// The integer conversions, in the order of registration.
    pub conversions: Vec<IntConversion>,
}

/// The setup of a new engine: expression depths of 64 (32 in functions),
/// no fast operators, a `to_<kind>` conversion from the engine's integer for
/// each integer kind, then a `to_int` conversion back for each kind but the
/// engine's integer itself (`i64`).
pub fn engine_setup() -> (r: EngineSetup)
    ensures
        r.max_expr_depth == 64,
        r.max_function_expr_depth == 32,
        !r.fast_operators,
        r.conversions@.len() == 19,
        forall|i: int|
            0 <= i < 10 ==> {
                let c = #[trigger] r.conversions@[i];
                &&& c.kind == conversion_kinds()[i]
                &&& c.direction == Direction::FromInt
                &&& c.name@ == from_int_name(c.kind)
            },
        forall|i: int|
            10 <= i < 19 ==> {
                let c = #[trigger] r.conversions@[i];
                &&& c.kind == conversion_kinds().remove(8)[i - 10]
                &&& c.direction == Direction::ToInt
                &&& c.name@ == "to_int"@
            },
{
    let kinds: Vec<IntKind> = vec![
        IntKind::U8,
        IntKind::U16,
        IntKind::U32,
        IntKind::U64,
        IntKind::Usize,
        IntKind::I8,
        IntKind::I16,
        IntKind::I32,
        IntKind::I64,
        IntKind::Isize,
    ];
    assert(kinds@ =~= conversion_kinds());
    let mut conversions: Vec<IntConversion> = Vec::new();
    let mut i: usize = 0;
    while i < kinds.len()
        invariant
            i <= kinds.len(),
            kinds@ == conversion_kinds(),
            conversions@.len() == i,
            forall|q: int|
                0 <= q < i ==> {
                    let c = #[trigger] conversions@[q];
                    &&& c.kind == conversion_kinds()[q]
                    &&& c.direction == Direction::FromInt
                    &&& c.name@ == from_int_name(c.kind)
                },
        decreases kinds.len() - i,
    {
        let k = kinds[i];
        conversions.push(IntConversion { name: from_int_fn_name(k), kind: k, direction: Direction::FromInt });
        i = i + 1;
    }
    let ghost back = conversion_kinds().remove(8);
    let mut j: usize = 0;
    while j < kinds.len()
        invariant
            j <= kinds.len(),
            kinds@ == conversion_kinds(),
            back == conversion_kinds().remove(8),
            conversions@.len() == 10 + (if j <= 8 { j as int } else { j - 1 }),
            forall|q: int|
                0 <= q < 10 ==> {
                    let c = #[trigger] conversions@[q];
                    &&& c.kind == conversion_kinds()[q]
                    &&& c.direction == Direction::FromInt
                    &&& c.name@ == from_int_name(c.kind)
                },
            forall|q: int|
                10 <= q < conversions@.len() ==> {
                    let c = #[trigger] conversions@[q];
                    &&& c.kind == back[q - 10]
                    &&& c.direction == Direction::ToInt
                    &&& c.name@ == "to_int"@
                },
        decreases kinds.len() - j,
    {
        let k = kinds[j];
        let is_engine_int = match k {
            IntKind::I64 => true,
            _ => false,
        };
        if !is_engine_int {
            conversions.push(IntConversion { name: String::from_str("to_int"), kind: k, direction: Direction::ToInt });
        }
        j = j + 1;
    }
    EngineSetup { max_expr_depth: 64, max_function_expr_depth: 32, fast_operators: false, conversions }
}

} // verus!
